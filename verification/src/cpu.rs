//! The executable interpreter: the machine state as it is actually stored,
//! and the operations the host drives it with.  Every operation's contract
//! relates the stored state, through its [`MachineView`] abstraction, to the
//! functional semantics in [`crate::isa`].

use vstd::prelude::*;

use crate::isa::{
    decode, draw_row, draw_sprite, first_pressed, instr_step, pop_view, push_view, skip_if,
    step_spec, tick_spec, with_v, word_at, Instr,
};
use crate::machine::{font_spec, initial_view, Fault, MachineView};

verus! {

/// Screen width in pixels.
pub const SCREEN_WIDTH: usize = 64;

/// Screen height in pixels.
pub const SCREEN_HEIGHT: usize = 32;

/// Relies on rand::random: draws one byte from the thread-local generator.
/// The value depends on the generator's state, so nothing is promised of it;
/// callers state what holds whatever byte comes back.
#[verifier::external_body]
fn random_byte() -> u8 {
    rand::random()
}

/// A vector of `n` copies of `value`.
fn filled<T: Copy>(n: usize, value: T) -> (r: Vec<T>)
    ensures
        r@ == Seq::new(n as nat, |_i: int| value),
{
    let mut r: Vec<T> = Vec::new();
    while r.len() < n
        invariant
            r@.len() <= n as nat,
            forall|j: int| 0 <= j < r@.len() ==> r@[j] == value,
        decreases n - r.len(),
    {
        r.push(value);
    }
    proof {
        assert(r@ =~= Seq::new(n as nat, |_i: int| value));
    }
    r
}

/// The font table as stored bytes; see [`font_spec`].
fn font_table() -> (r: Vec<u8>)
    ensures
        r@ == font_spec(),
{
    let glyphs: [u8; 80] = [
        0xF0, 0x90, 0x90, 0x90, 0xF0, // 0
        0x20, 0x60, 0x20, 0x20, 0x70, // 1
        0xF0, 0x10, 0xF0, 0x80, 0xF0, // 2
        0xF0, 0x10, 0xF0, 0x10, 0xF0, // 3
        0x90, 0x90, 0xF0, 0x10, 0x10, // 4
        0xF0, 0x80, 0xF0, 0x10, 0xF0, // 5
        0xF0, 0x80, 0xF0, 0x90, 0xF0, // 6
        0xF0, 0x10, 0x20, 0x40, 0x40, // 7
        0xF0, 0x90, 0xF0, 0x90, 0xF0, // 8
        0xF0, 0x90, 0xF0, 0x10, 0xF0, // 9
        0xF0, 0x90, 0xF0, 0x90, 0x90, // A
        0xE0, 0x90, 0xE0, 0x90, 0xE0, // B
        0xF0, 0x80, 0x80, 0x80, 0xF0, // C
        0xE0, 0x90, 0x90, 0x90, 0xE0, // D
        0xF0, 0x80, 0xF0, 0x80, 0xF0, // E
        0xF0, 0x80, 0xF0, 0x80, 0x80, // F
    ];
    let mut r: Vec<u8> = Vec::new();
    let mut i: usize = 0;
    while i < 80
        invariant
            i <= 80,
            r@.len() == i as nat,
            glyphs@ =~= font_spec(),
            forall|j: int| 0 <= j < i ==> r@[j] == font_spec()[j],
        decreases 80 - i,
    {
        r.push(glyphs[i]);
        i = i + 1;
    }
    proof {
        assert(r@ =~= font_spec());
    }
    r
}

/// The interpreter state.  Its abstraction is [`MachineView`]; every method
/// relates the concrete state to that view in its contract.
pub struct CPU {
    pc: u16,
    memory: Vec<u8>,
    screen: Vec<bool>,
    v_registers: Vec<u8>,
    index_register: u16,
    stack: Vec<u16>,
    stack_pointer: u16,
    keys: Vec<bool>,
    delay_timer: u8,
    sound_timer: u8,
}

impl View for CPU {
    type V = MachineView;

    closed spec fn view(&self) -> MachineView {
        MachineView {
            pc: self.pc,
            mem: self.memory@,
            screen: self.screen@,
            v: self.v_registers@,
            index: self.index_register,
            stack: self.stack@,
            sp: self.stack_pointer,
            keys: self.keys@,
            delay: self.delay_timer,
            sound: self.sound_timer,
        }
    }
}

impl CPU {
    /// Well-formedness of the stored state; established by [`CPU::new`] and
    /// preserved by every operation.
    pub open spec fn wf(&self) -> bool {
        self@.wf()
    }

    /// A pristine machine: font table in place, everything else cleared,
    /// program counter at 0x200.
    pub fn new() -> (r: CPU)
        ensures
            r.wf(),
            r@ == initial_view(),
    {
        let font = font_table();
        let mut memory: Vec<u8> = filled(4096, 0u8);
        let mut i: usize = 0;
        while i < 80
            invariant
                i <= 80,
                font@ == font_spec(),
                memory@.len() == 4096,
                forall|j: int| 0 <= j < i ==> memory@[j] == font_spec()[j],
                forall|j: int| i <= j < 4096 ==> memory@[j] == 0u8,
            decreases 80 - i,
        {
            memory.set(i, font[i]);
            i = i + 1;
        }
        let cpu = CPU {
            pc: 0x200,
            memory,
            screen: filled(2048, false),
            v_registers: filled(16, 0u8),
            index_register: 0,
            stack: filled(16, 0u16),
            stack_pointer: 0,
            keys: filled(16, false),
            delay_timer: 0,
            sound_timer: 0,
        };
        proof {
            assert(cpu@.mem =~= initial_view().mem);
            assert(cpu@ =~= initial_view());
        }
        cpu
    }

    /// Restore the pristine state, exactly as [`CPU::new`] builds it.
    pub fn reset(&mut self)
        ensures
            final(self).wf(),
            final(self)@ == initial_view(),
    {
        *self = CPU::new();
    }

    /// Copy a program image into memory starting at 0x200 and point the
    /// program counter there; an image that would run past the end of
    /// memory is rejected untouched.
    pub fn load(&mut self, rom: &Vec<u8>) -> (r: Result<(), Fault>)
        requires
            old(self).wf(),
        ensures
            final(self).wf(),
            (if rom@.len() <= 3584 {
                r == Ok::<(), Fault>(()) && final(self)@ == (MachineView {
                    pc: 0x200,
                    mem: Seq::new(
                        4096,
                        |j: int|
                            if 0x200 <= j < 0x200 + rom@.len() {
                                rom@[j - 0x200]
                            } else {
                                old(self)@.mem[j]
                            },
                    ),
                    ..old(self)@
                })
            } else {
                r == Err::<(), Fault>(Fault::RomTooLarge) && final(self)@ == old(self)@
            }),
    {
        if rom.len() > 4096 - 512 {
            return Err(Fault::RomTooLarge);
        }
        let mut k: usize = 0;
        while k < rom.len()
            invariant
                old(self).wf(),
                rom@.len() <= 3584,
                k <= rom@.len(),
                self@.mem.len() == 4096,
                self@.pc == old(self)@.pc,
                self@.screen == old(self)@.screen,
                self@.v == old(self)@.v,
                self@.index == old(self)@.index,
                self@.stack == old(self)@.stack,
                self@.sp == old(self)@.sp,
                self@.keys == old(self)@.keys,
                self@.delay == old(self)@.delay,
                self@.sound == old(self)@.sound,
                forall|j: int| 0x200 <= j < 0x200 + k ==> self@.mem[j] == rom@[j - 0x200],
                forall|j: int|
                    0 <= j < 4096 && !(0x200 <= j < 0x200 + k) ==> self@.mem[j] == old(
                        self,
                    )@.mem[j],
            decreases rom@.len() - k,
        {
            self.memory.set(512 + k, rom[k]);
            k = k + 1;
        }
        self.pc = 0x200;
        proof {
            assert(self@ =~= (MachineView {
                pc: 0x200,
                mem: Seq::new(
                    4096,
                    |j: int|
                        if 0x200 <= j < 0x200 + rom@.len() {
                            rom@[j - 0x200]
                        } else {
                            old(self)@.mem[j]
                        },
                ),
                ..old(self)@
            }));
        }
        Ok(())
    }

    /// Latch or release one of the 16 keys.
    pub fn keypress(&mut self, index: usize, pressed: bool)
        requires
            old(self).wf(),
            index < 16,
        ensures
            final(self).wf(),
            final(self)@ == (MachineView {
                keys: old(self)@.keys.update(index as int, pressed),
                ..old(self)@
            }),
    {
        self.keys.set(index, pressed);
        proof {
            assert(self@ =~= (MachineView {
                keys: old(self)@.keys.update(index as int, pressed),
                ..old(self)@
            }));
        }
    }

    /// Count both timers down by one unit, stopping at zero.
    pub fn tick_timers(&mut self)
        requires
            old(self).wf(),
        ensures
            final(self).wf(),
            final(self)@ == (MachineView {
                delay: if old(self)@.delay > 0 {
                    (old(self)@.delay - 1) as u8
                } else {
                    0u8
                },
                sound: if old(self)@.sound > 0 {
                    (old(self)@.sound - 1) as u8
                } else {
                    0u8
                },
                ..old(self)@
            }),
    {
        if self.delay_timer > 0 {
            self.delay_timer = self.delay_timer - 1;
        }
        if self.sound_timer > 0 {
            self.sound_timer = self.sound_timer - 1;
        }
        proof {
            assert(self@ =~= (MachineView {
                delay: if old(self)@.delay > 0 {
                    (old(self)@.delay - 1) as u8
                } else {
                    0u8
                },
                sound: if old(self)@.sound > 0 {
                    (old(self)@.sound - 1) as u8
                } else {
                    0u8
                },
                ..old(self)@
            }));
        }
    }

    /// Read the instruction word at the program counter (high byte first)
    /// and advance the counter past it; a word that would cross the end of
    /// memory is an addressing fault.
    pub fn fetch(&mut self) -> (r: Result<u16, Fault>)
        requires
            old(self).wf(),
        ensures
            final(self).wf(),
            (if old(self)@.pc as int + 1 < 4096 {
                r == Ok::<u16, Fault>(word_at(old(self)@.mem, old(self)@.pc)) && final(self)@
                    == (MachineView { pc: (old(self)@.pc + 2) as u16, ..old(self)@ })
            } else {
                r == Err::<u16, Fault>(Fault::AddressOutOfRange) && final(self)@ == old(self)@
            }),
    {
        if (self.pc as usize) + 1 < 4096 {
            let hi: u8 = self.memory[self.pc as usize];
            let lo: u8 = self.memory[(self.pc as usize) + 1];
            self.pc = self.pc + 2;
            proof {
                assert(self@ =~= (MachineView { pc: (old(self)@.pc + 2) as u16, ..old(self)@ }));
            }
            Ok(((hi as u16) << 8) | (lo as u16))
        } else {
            Err(Fault::AddressOutOfRange)
        }
    }

    /// One full interpreter step: fetch, decode, execute.
    pub fn tick(&mut self) -> (r: Result<(), Fault>)
        requires
            old(self).wf(),
        ensures
            final(self).wf(),
            tick_spec(old(self)@, final(self)@, r),
    {
        let fetched: Result<u16, Fault> = self.fetch();
        match fetched {
            Ok(op) => self.execute(op),
            Err(e) => Err(e),
        }
    }

    /// Decode and execute one instruction word against the current state.
    pub fn execute(&mut self, op: u16) -> (r: Result<(), Fault>)
        requires
            old(self).wf(),
        ensures
            final(self).wf(),
            step_spec(old(self)@, op, final(self)@, r),
    {
        match decode(op) {
            Some(instruction) => self.run_instr(instruction),
            None => Err(Fault::UnknownOpcode),
        }
    }

    /// Push a return address onto the call stack.
    pub fn push(&mut self, value: u16) -> (r: Result<(), Fault>)
        requires
            old(self).wf(),
        ensures
            final(self).wf(),
            (match push_view(old(self)@, value) {
                Ok(s2) => r == Ok::<(), Fault>(()) && final(self)@ == s2,
                Err(e) => r == Err::<(), Fault>(e) && final(self)@ == old(self)@,
            }),
    {
        if self.stack_pointer < 16 {
            self.stack.set(self.stack_pointer as usize, value);
            self.stack_pointer = self.stack_pointer + 1;
            proof {
                assert(self@ =~= (push_view(old(self)@, value)->Ok_0));
            }
            Ok(())
        } else {
            Err(Fault::StackOverflow)
        }
    }

    /// Pop the most recently pushed return address off the call stack.
    pub fn pop(&mut self) -> (r: Result<u16, Fault>)
        requires
            old(self).wf(),
        ensures
            final(self).wf(),
            (match pop_view(old(self)@) {
                Ok(pair) => r == Ok::<u16, Fault>(pair.1) && final(self)@ == pair.0,
                Err(e) => r == Err::<u16, Fault>(e) && final(self)@ == old(self)@,
            }),
    {
        if self.stack_pointer > 0 {
            self.stack_pointer = self.stack_pointer - 1;
            let value: u16 = self.stack[self.stack_pointer as usize];
            proof {
                assert(self@ =~= (pop_view(old(self)@)->Ok_0).0);
            }
            Ok(value)
        } else {
            Err(Fault::StackUnderflow)
        }
    }

    /// Apply one decoded instruction to the machine state.
    fn run_instr(&mut self, instruction: Instr) -> (r: Result<(), Fault>)
        requires
            old(self).wf(),
            instruction.wf(),
        ensures
            final(self).wf(),
            exists|rnd: u8| instr_step(old(self)@, instruction, rnd, final(self)@, r),
    {
        match instruction {
            Instr::Nop => {
                proof {
                    assert(instr_step(old(self)@, instruction, 0u8, self@, Ok::<(), Fault>(())));
                }
                Ok(())
            },
            Instr::Cls => {
                self.screen = filled(SCREEN_WIDTH * SCREEN_HEIGHT, false);
                proof {
                    assert(self@ =~= (MachineView {
                        screen: Seq::new(2048, |_i: int| false),
                        ..old(self)@
                    }));
                    assert(instr_step(old(self)@, instruction, 0u8, self@, Ok::<(), Fault>(())));
                }
                Ok(())
            },
            Instr::Ret => {
                let popped: Result<u16, Fault> = self.pop();
                match popped {
                    Ok(addr) => {
                        self.pc = addr;
                        proof {
                            assert(self@ =~= (MachineView {
                                pc: old(self)@.stack[old(self)@.sp - 1],
                                sp: (old(self)@.sp - 1) as u16,
                                ..old(self)@
                            }));
                            assert(instr_step(
                                old(self)@,
                                instruction,
                                0u8,
                                self@,
                                Ok::<(), Fault>(()),
                            ));
                        }
                        Ok(())
                    },
                    Err(e) => {
                        proof {
                            assert(instr_step(old(self)@, instruction, 0u8, self@, Err::<
                                (),
                                Fault,
                            >(e)));
                        }
                        Err(e)
                    },
                }
            },
            Instr::Jump { nnn } => {
                self.pc = nnn;
                proof {
                    assert(self@ =~= (MachineView { pc: nnn, ..old(self)@ }));
                    assert(instr_step(old(self)@, instruction, 0u8, self@, Ok::<(), Fault>(())));
                }
                Ok(())
            },
            Instr::Call { nnn } => {
                let ret_addr: u16 = self.pc;
                let pushed: Result<(), Fault> = self.push(ret_addr);
                match pushed {
                    Ok(_) => {
                        self.pc = nnn;
                        proof {
                            assert(self@ =~= (MachineView {
                                pc: nnn,
                                stack: old(self)@.stack.update(old(self)@.sp as int, old(self)@.pc),
                                sp: (old(self)@.sp + 1) as u16,
                                ..old(self)@
                            }));
                            assert(instr_step(
                                old(self)@,
                                instruction,
                                0u8,
                                self@,
                                Ok::<(), Fault>(()),
                            ));
                        }
                        Ok(())
                    },
                    Err(e) => {
                        proof {
                            assert(instr_step(old(self)@, instruction, 0u8, self@, Err::<
                                (),
                                Fault,
                            >(e)));
                        }
                        Err(e)
                    },
                }
            },
            Instr::SkipEqImm { x, nn } => {
                if self.v_registers[x as usize] == nn {
                    self.pc = self.pc.wrapping_add(2);
                }
                proof {
                    assert(self@ =~= skip_if(old(self)@, old(self)@.v[x as int] == nn));
                    assert(instr_step(old(self)@, instruction, 0u8, self@, Ok::<(), Fault>(())));
                }
                Ok(())
            },
            Instr::SkipNeImm { x, nn } => {
                if self.v_registers[x as usize] != nn {
                    self.pc = self.pc.wrapping_add(2);
                }
                proof {
                    assert(self@ =~= skip_if(old(self)@, old(self)@.v[x as int] != nn));
                    assert(instr_step(old(self)@, instruction, 0u8, self@, Ok::<(), Fault>(())));
                }
                Ok(())
            },
            Instr::SkipEqReg { x, y } => {
                if self.v_registers[x as usize] == self.v_registers[y as usize] {
                    self.pc = self.pc.wrapping_add(2);
                }
                proof {
                    assert(self@ =~= skip_if(
                        old(self)@,
                        old(self)@.v[x as int] == old(self)@.v[y as int],
                    ));
                    assert(instr_step(old(self)@, instruction, 0u8, self@, Ok::<(), Fault>(())));
                }
                Ok(())
            },
            Instr::SetImm { x, nn } => {
                self.v_registers.set(x as usize, nn);
                proof {
                    assert(self@ =~= with_v(old(self)@, x as int, nn));
                    assert(instr_step(old(self)@, instruction, 0u8, self@, Ok::<(), Fault>(())));
                }
                Ok(())
            },
            Instr::AddImm { x, nn } => {
                let a: u8 = self.v_registers[x as usize];
                self.v_registers.set(x as usize, a.wrapping_add(nn));
                proof {
                    assert(self@ =~= with_v(old(self)@, x as int, a.wrapping_add(nn)));
                    assert(instr_step(old(self)@, instruction, 0u8, self@, Ok::<(), Fault>(())));
                }
                Ok(())
            },
            Instr::MovReg { x, y } => {
                let b: u8 = self.v_registers[y as usize];
                self.v_registers.set(x as usize, b);
                proof {
                    assert(self@ =~= with_v(old(self)@, x as int, old(self)@.v[y as int]));
                    assert(instr_step(old(self)@, instruction, 0u8, self@, Ok::<(), Fault>(())));
                }
                Ok(())
            },
            Instr::OrReg { x, y } => {
                let a: u8 = self.v_registers[x as usize];
                let b: u8 = self.v_registers[y as usize];
                self.v_registers.set(x as usize, a | b);
                proof {
                    assert(self@ =~= with_v(old(self)@, x as int, a | b));
                    assert(instr_step(old(self)@, instruction, 0u8, self@, Ok::<(), Fault>(())));
                }
                Ok(())
            },
            Instr::AndReg { x, y } => {
                let a: u8 = self.v_registers[x as usize];
                let b: u8 = self.v_registers[y as usize];
                self.v_registers.set(x as usize, a & b);
                proof {
                    assert(self@ =~= with_v(old(self)@, x as int, a & b));
                    assert(instr_step(old(self)@, instruction, 0u8, self@, Ok::<(), Fault>(())));
                }
                Ok(())
            },
            Instr::XorReg { x, y } => {
                let a: u8 = self.v_registers[x as usize];
                let b: u8 = self.v_registers[y as usize];
                self.v_registers.set(x as usize, a ^ b);
                proof {
                    assert(self@ =~= with_v(old(self)@, x as int, a ^ b));
                    assert(instr_step(old(self)@, instruction, 0u8, self@, Ok::<(), Fault>(())));
                }
                Ok(())
            },
            Instr::AddReg { x, y } => {
                let a: u8 = self.v_registers[x as usize];
                let b: u8 = self.v_registers[y as usize];
                let carry: u8 = if (a as u16) + (b as u16) > 255 {
                    1
                } else {
                    0
                };
                self.v_registers.set(15, carry);
                self.v_registers.set(x as usize, a.wrapping_add(b));
                proof {
                    assert(self@ =~= (MachineView {
                        v: old(self)@.v.update(15, carry).update(x as int, a.wrapping_add(b)),
                        ..old(self)@
                    }));
                    assert(instr_step(old(self)@, instruction, 0u8, self@, Ok::<(), Fault>(())));
                }
                Ok(())
            },
            Instr::SubReg { x, y } => {
                let a: u8 = self.v_registers[x as usize];
                let b: u8 = self.v_registers[y as usize];
                let no_borrow: u8 = if a < b {
                    0
                } else {
                    1
                };
                self.v_registers.set(15, no_borrow);
                self.v_registers.set(x as usize, a.wrapping_sub(b));
                proof {
                    assert(self@ =~= (MachineView {
                        v: old(self)@.v.update(15, no_borrow).update(x as int, a.wrapping_sub(b)),
                        ..old(self)@
                    }));
                    assert(instr_step(old(self)@, instruction, 0u8, self@, Ok::<(), Fault>(())));
                }
                Ok(())
            },
            Instr::ShrReg { x } => {
                let a: u8 = self.v_registers[x as usize];
                self.v_registers.set(x as usize, a >> 1u8);
                self.v_registers.set(15, a & 1);
                proof {
                    assert(self@ =~= (MachineView {
                        v: old(self)@.v.update(x as int, a >> 1u8).update(15, a & 1),
                        ..old(self)@
                    }));
                    assert(instr_step(old(self)@, instruction, 0u8, self@, Ok::<(), Fault>(())));
                }
                Ok(())
            },
            Instr::SubnReg { x, y } => {
                let a: u8 = self.v_registers[x as usize];
                let b: u8 = self.v_registers[y as usize];
                let no_borrow: u8 = if b < a {
                    0
                } else {
                    1
                };
                self.v_registers.set(15, no_borrow);
                self.v_registers.set(x as usize, b.wrapping_sub(a));
                proof {
                    assert(self@ =~= (MachineView {
                        v: old(self)@.v.update(15, no_borrow).update(x as int, b.wrapping_sub(a)),
                        ..old(self)@
                    }));
                    assert(instr_step(old(self)@, instruction, 0u8, self@, Ok::<(), Fault>(())));
                }
                Ok(())
            },
            Instr::ShlReg { x } => {
                let a: u8 = self.v_registers[x as usize];
                self.v_registers.set(x as usize, a << 1u8);
                self.v_registers.set(15, a >> 7u8);
                proof {
                    assert(self@ =~= (MachineView {
                        v: old(self)@.v.update(x as int, a << 1u8).update(15, a >> 7u8),
                        ..old(self)@
                    }));
                    assert(instr_step(old(self)@, instruction, 0u8, self@, Ok::<(), Fault>(())));
                }
                Ok(())
            },
            Instr::SkipNeReg { x, y } => {
                if self.v_registers[x as usize] != self.v_registers[y as usize] {
                    self.pc = self.pc.wrapping_add(2);
                }
                proof {
                    assert(self@ =~= skip_if(
                        old(self)@,
                        old(self)@.v[x as int] != old(self)@.v[y as int],
                    ));
                    assert(instr_step(old(self)@, instruction, 0u8, self@, Ok::<(), Fault>(())));
                }
                Ok(())
            },
            Instr::SetIndex { nnn } => {
                self.index_register = nnn;
                proof {
                    assert(self@ =~= (MachineView { index: nnn, ..old(self)@ }));
                    assert(instr_step(old(self)@, instruction, 0u8, self@, Ok::<(), Fault>(())));
                }
                Ok(())
            },
            Instr::JumpV0 { nnn } => {
                self.pc = (self.v_registers[0] as u16) + nnn;
                proof {
                    assert(self@ =~= (MachineView {
                        pc: (old(self)@.v[0] + nnn) as u16,
                        ..old(self)@
                    }));
                    assert(instr_step(old(self)@, instruction, 0u8, self@, Ok::<(), Fault>(())));
                }
                Ok(())
            },
            Instr::Rand { x, nn } => {
                let b: u8 = random_byte();
                self.v_registers.set(x as usize, b & nn);
                proof {
                    assert(self@ =~= with_v(old(self)@, x as int, b & nn));
                    assert(instr_step(old(self)@, instruction, b, self@, Ok::<(), Fault>(())));
                }
                Ok(())
            },
            Instr::Draw { x, y, n } => {
                let drawn: Result<(), Fault> = self.op_draw(x, y, n);
                proof {
                    assert(instr_step(old(self)@, instruction, 0u8, self@, drawn));
                }
                drawn
            },
            Instr::SkipKeyPressed { x } => {
                let vx: u8 = self.v_registers[x as usize];
                if vx >= 16 {
                    proof {
                        assert(instr_step(old(self)@, instruction, 0u8, self@, Err::<(), Fault>(
                            Fault::KeyOutOfRange,
                        )));
                    }
                    Err(Fault::KeyOutOfRange)
                } else {
                    if self.keys[vx as usize] {
                        self.pc = self.pc.wrapping_add(2);
                    }
                    proof {
                        assert(self@ =~= skip_if(
                            old(self)@,
                            old(self)@.keys[old(self)@.v[x as int] as int],
                        ));
                        assert(instr_step(old(self)@, instruction, 0u8, self@, Ok::<(), Fault>(
                            (),
                        )));
                    }
                    Ok(())
                }
            },
            Instr::SkipKeyNotPressed { x } => {
                let vx: u8 = self.v_registers[x as usize];
                if vx >= 16 {
                    proof {
                        assert(instr_step(old(self)@, instruction, 0u8, self@, Err::<(), Fault>(
                            Fault::KeyOutOfRange,
                        )));
                    }
                    Err(Fault::KeyOutOfRange)
                } else {
                    if !self.keys[vx as usize] {
                        self.pc = self.pc.wrapping_add(2);
                    }
                    proof {
                        assert(self@ =~= skip_if(
                            old(self)@,
                            !old(self)@.keys[old(self)@.v[x as int] as int],
                        ));
                        assert(instr_step(old(self)@, instruction, 0u8, self@, Ok::<(), Fault>(
                            (),
                        )));
                    }
                    Ok(())
                }
            },
            Instr::ReadDelay { x } => {
                let d: u8 = self.delay_timer;
                self.v_registers.set(x as usize, d);
                proof {
                    assert(self@ =~= with_v(old(self)@, x as int, old(self)@.delay));
                    assert(instr_step(old(self)@, instruction, 0u8, self@, Ok::<(), Fault>(())));
                }
                Ok(())
            },
            Instr::WaitKey { x } => {
                let waited: Result<(), Fault> = self.op_wait_key(x);
                proof {
                    assert(instr_step(old(self)@, instruction, 0u8, self@, waited));
                }
                waited
            },
            Instr::SetDelay { x } => {
                self.delay_timer = self.v_registers[x as usize];
                proof {
                    assert(self@ =~= (MachineView { delay: old(self)@.v[x as int], ..old(self)@ }));
                    assert(instr_step(old(self)@, instruction, 0u8, self@, Ok::<(), Fault>(())));
                }
                Ok(())
            },
            Instr::SetSound { x } => {
                self.sound_timer = self.v_registers[x as usize];
                proof {
                    assert(self@ =~= (MachineView { sound: old(self)@.v[x as int], ..old(self)@ }));
                    assert(instr_step(old(self)@, instruction, 0u8, self@, Ok::<(), Fault>(())));
                }
                Ok(())
            },
            Instr::AddIndex { x } => {
                let vx: u8 = self.v_registers[x as usize];
                self.index_register = self.index_register.wrapping_add(vx as u16);
                proof {
                    assert(self@ =~= (MachineView {
                        index: old(self)@.index.wrapping_add(old(self)@.v[x as int] as u16),
                        ..old(self)@
                    }));
                    assert(instr_step(old(self)@, instruction, 0u8, self@, Ok::<(), Fault>(())));
                }
                Ok(())
            },
            Instr::FontIndex { x } => {
                let vx: u8 = self.v_registers[x as usize];
                self.index_register = (vx as u16) * 5;
                proof {
                    assert(self@ =~= (MachineView {
                        index: (old(self)@.v[x as int] * 5) as u16,
                        ..old(self)@
                    }));
                    assert(instr_step(old(self)@, instruction, 0u8, self@, Ok::<(), Fault>(())));
                }
                Ok(())
            },
            Instr::Bcd { x } => {
                let start: usize = self.index_register as usize;
                if start + 2 >= 4096 {
                    proof {
                        assert(instr_step(old(self)@, instruction, 0u8, self@, Err::<(), Fault>(
                            Fault::AddressOutOfRange,
                        )));
                    }
                    Err(Fault::AddressOutOfRange)
                } else {
                    let value: u8 = self.v_registers[x as usize];
                    self.memory.set(start, value / 100);
                    self.memory.set(start + 1, (value / 10) % 10);
                    self.memory.set(start + 2, value % 10);
                    proof {
                        assert(self@ =~= (MachineView {
                            mem: old(self)@.mem.update(
                                old(self)@.index as int,
                                (old(self)@.v[x as int] / 100) as u8,
                            ).update(
                                old(self)@.index as int + 1,
                                ((old(self)@.v[x as int] / 10) % 10) as u8,
                            ).update(
                                old(self)@.index as int + 2,
                                (old(self)@.v[x as int] % 10) as u8,
                            ),
                            ..old(self)@
                        }));
                        assert(instr_step(old(self)@, instruction, 0u8, self@, Ok::<(), Fault>(
                            (),
                        )));
                    }
                    Ok(())
                }
            },
            Instr::StoreRegs { x } => {
                let stored: Result<(), Fault> = self.op_store_regs(x);
                proof {
                    assert(instr_step(old(self)@, instruction, 0u8, self@, stored));
                }
                stored
            },
            Instr::LoadRegs { x } => {
                let loaded: Result<(), Fault> = self.op_load_regs(x);
                proof {
                    assert(instr_step(old(self)@, instruction, 0u8, self@, loaded));
                }
                loaded
            },
        }
    }

    /// XOR-draw the `n`-row sprite at `memory[I..I+n)` at screen position
    /// (`Vx`, `Vy`), wrapping at the screen edges; VF reports a collision.
    fn op_draw(&mut self, x: u8, y: u8, n: u8) -> (r: Result<(), Fault>)
        requires
            old(self).wf(),
            x < 16,
            y < 16,
            n < 16,
        ensures
            final(self).wf(),
            instr_step(old(self)@, Instr::Draw { x, y, n }, 0u8, final(self)@, r),
    {
        if n > 0 && (self.index_register as usize) + (n as usize) > 4096 {
            proof {
                assert(instr_step(old(self)@, Instr::Draw { x, y, n }, 0u8, self@, Err::<
                    (),
                    Fault,
                >(Fault::AddressOutOfRange)));
            }
            return Err(Fault::AddressOutOfRange);
        }
        let dx: u8 = self.v_registers[x as usize];
        let dy: u8 = self.v_registers[y as usize];
        let mut collision: bool = false;
        let mut row: u8 = 0;
        while row < n
            invariant
                old(self).wf(),
                x < 16,
                y < 16,
                n < 16,
                row <= n,
                n > 0 ==> old(self)@.index as int + n as int <= 4096,
                dx == old(self)@.v[x as int],
                dy == old(self)@.v[y as int],
                self@.screen.len() == 2048,
                self@.pc == old(self)@.pc,
                self@.mem == old(self)@.mem,
                self@.v == old(self)@.v,
                self@.index == old(self)@.index,
                self@.stack == old(self)@.stack,
                self@.sp == old(self)@.sp,
                self@.keys == old(self)@.keys,
                self@.delay == old(self)@.delay,
                self@.sound == old(self)@.sound,
                self@.screen =~= draw_sprite(
                    old(self)@.screen,
                    old(self)@.mem,
                    old(self)@.index,
                    dx,
                    dy,
                    row as int,
                ).0,
                collision == draw_sprite(
                    old(self)@.screen,
                    old(self)@.mem,
                    old(self)@.index,
                    dx,
                    dy,
                    row as int,
                ).1,
            decreases n - row,
        {
            let addr: usize = (self.index_register as usize) + (row as usize);
            let rowbits: u8 = self.memory[addr];
            let ghost scr0 = self@.screen;
            let ghost col0 = collision;
            let mut c: u8 = 0;
            while c < 8
                invariant
                    old(self).wf(),
                    c <= 8,
                    row < n,
                    n < 16,
                    n > 0 ==> old(self)@.index as int + n as int <= 4096,
                    rowbits == old(self)@.mem[old(self)@.index + row],
                    self@.screen.len() == 2048,
                    scr0.len() == 2048,
                    self@.pc == old(self)@.pc,
                    self@.mem == old(self)@.mem,
                    self@.v == old(self)@.v,
                    self@.index == old(self)@.index,
                    self@.stack == old(self)@.stack,
                    self@.sp == old(self)@.sp,
                    self@.keys == old(self)@.keys,
                    self@.delay == old(self)@.delay,
                    self@.sound == old(self)@.sound,
                    self@.screen =~= draw_row(scr0, rowbits, dx, dy, row as int, c as int).0,
                    collision == (col0 || draw_row(
                        scr0,
                        rowbits,
                        dx,
                        dy,
                        row as int,
                        c as int,
                    ).1),
                decreases 8 - c,
            {
                if rowbits & (0x80u8 >> c) != 0 {
                    let px: usize = ((dx as usize) + (c as usize)) % 64;
                    let py: usize = ((dy as usize) + (row as usize)) % 32;
                    let idx: usize = px + 64 * py;
                    let lit: bool = self.screen[idx];
                    collision = collision || lit;
                    self.screen.set(idx, !lit);
                }
                c = c + 1;
            }
            proof {
                assert(draw_sprite(
                    old(self)@.screen,
                    old(self)@.mem,
                    old(self)@.index,
                    dx,
                    dy,
                    row as int + 1,
                ).0 =~= self@.screen);
            }
            row = row + 1;
        }
        let flag: u8 = if collision {
            1
        } else {
            0
        };
        self.v_registers.set(15, flag);
        proof {
            assert(self@ =~= (MachineView {
                screen: draw_sprite(
                    old(self)@.screen,
                    old(self)@.mem,
                    old(self)@.index,
                    old(self)@.v[x as int],
                    old(self)@.v[y as int],
                    n as int,
                ).0,
                v: old(self)@.v.update(15, flag),
                ..old(self)@
            }));
            assert(instr_step(old(self)@, Instr::Draw { x, y, n }, 0u8, self@, Ok::<(), Fault>(
                (),
            )));
        }
        Ok(())
    }

    /// Busy-poll for a pressed key: capture the lowest pressed key's index
    /// into Vx, or step the program counter back so the instruction runs
    /// again on the next step.
    fn op_wait_key(&mut self, x: u8) -> (r: Result<(), Fault>)
        requires
            old(self).wf(),
            x < 16,
        ensures
            final(self).wf(),
            instr_step(old(self)@, Instr::WaitKey { x }, 0u8, final(self)@, r),
    {
        let mut found: usize = 16;
        let mut k: usize = 0;
        while k < 16
            invariant
                old(self).wf(),
                x < 16,
                k <= 16,
                found <= 16,
                self@ == old(self)@,
                found == 16 ==> first_pressed(self@.keys, 0) == first_pressed(
                    self@.keys,
                    k as int,
                ),
                found < 16 ==> first_pressed(self@.keys, 0) == Some(found as int),
            decreases 16 - k,
        {
            if found == 16 && self.keys[k] {
                found = k;
            } else {
                proof {
                    if found == 16 {
                        assert(first_pressed(self@.keys, k as int) == first_pressed(
                            self@.keys,
                            k as int + 1,
                        ));
                    }
                }
            }
            k = k + 1;
        }
        if found < 16 {
            self.v_registers.set(x as usize, found as u8);
            proof {
                assert(self@ =~= with_v(old(self)@, x as int, found as u8));
                assert(instr_step(old(self)@, Instr::WaitKey { x }, 0u8, self@, Ok::<(), Fault>(
                    (),
                )));
            }
        } else {
            self.pc = self.pc.wrapping_sub(2);
            proof {
                assert(first_pressed(old(self)@.keys, 0) is None);
                assert(self@ =~= (MachineView {
                    pc: old(self)@.pc.wrapping_sub(2),
                    ..old(self)@
                }));
                assert(instr_step(old(self)@, Instr::WaitKey { x }, 0u8, self@, Ok::<(), Fault>(
                    (),
                )));
            }
        }
        Ok(())
    }

    /// Store V0..Vx inclusive into memory starting at I.
    fn op_store_regs(&mut self, x: u8) -> (r: Result<(), Fault>)
        requires
            old(self).wf(),
            x < 16,
        ensures
            final(self).wf(),
            instr_step(old(self)@, Instr::StoreRegs { x }, 0u8, final(self)@, r),
    {
        let start: usize = self.index_register as usize;
        if start + (x as usize) >= 4096 {
            proof {
                assert(instr_step(old(self)@, Instr::StoreRegs { x }, 0u8, self@, Err::<
                    (),
                    Fault,
                >(Fault::AddressOutOfRange)));
            }
            return Err(Fault::AddressOutOfRange);
        }
        let mut k: usize = 0;
        while k <= x as usize
            invariant
                old(self).wf(),
                x < 16,
                k <= x as usize + 1,
                start == old(self)@.index,
                start + x < 4096,
                self@.mem.len() == 4096,
                self@.pc == old(self)@.pc,
                self@.screen == old(self)@.screen,
                self@.v == old(self)@.v,
                self@.index == old(self)@.index,
                self@.stack == old(self)@.stack,
                self@.sp == old(self)@.sp,
                self@.keys == old(self)@.keys,
                self@.delay == old(self)@.delay,
                self@.sound == old(self)@.sound,
                forall|j: int| start <= j < start + k ==> self@.mem[j] == old(self)@.v[j - start],
                forall|j: int|
                    0 <= j < 4096 && !(start <= j < start + k) ==> self@.mem[j] == old(
                        self,
                    )@.mem[j],
            decreases x as usize + 1 - k,
        {
            let value: u8 = self.v_registers[k];
            self.memory.set(start + k, value);
            k = k + 1;
        }
        proof {
            assert(self@ =~= (MachineView {
                mem: Seq::new(
                    4096,
                    |j: int|
                        if old(self)@.index <= j <= old(self)@.index + x {
                            old(self)@.v[j - old(self)@.index]
                        } else {
                            old(self)@.mem[j]
                        },
                ),
                ..old(self)@
            }));
            assert(instr_step(old(self)@, Instr::StoreRegs { x }, 0u8, self@, Ok::<(), Fault>(
                (),
            )));
        }
        Ok(())
    }

    /// Load V0..Vx inclusive from memory starting at I.
    fn op_load_regs(&mut self, x: u8) -> (r: Result<(), Fault>)
        requires
            old(self).wf(),
            x < 16,
        ensures
            final(self).wf(),
            instr_step(old(self)@, Instr::LoadRegs { x }, 0u8, final(self)@, r),
    {
        let start: usize = self.index_register as usize;
        if start + (x as usize) >= 4096 {
            proof {
                assert(instr_step(old(self)@, Instr::LoadRegs { x }, 0u8, self@, Err::<
                    (),
                    Fault,
                >(Fault::AddressOutOfRange)));
            }
            return Err(Fault::AddressOutOfRange);
        }
        let mut k: usize = 0;
        while k <= x as usize
            invariant
                old(self).wf(),
                x < 16,
                k <= x as usize + 1,
                start == old(self)@.index,
                start + x < 4096,
                self@.v.len() == 16,
                self@.pc == old(self)@.pc,
                self@.mem == old(self)@.mem,
                self@.screen == old(self)@.screen,
                self@.index == old(self)@.index,
                self@.stack == old(self)@.stack,
                self@.sp == old(self)@.sp,
                self@.keys == old(self)@.keys,
                self@.delay == old(self)@.delay,
                self@.sound == old(self)@.sound,
                forall|j: int| 0 <= j < k ==> self@.v[j] == old(self)@.mem[start + j],
                forall|j: int| k <= j < 16 ==> self@.v[j] == old(self)@.v[j],
            decreases x as usize + 1 - k,
        {
            let value: u8 = self.memory[start + k];
            self.v_registers.set(k, value);
            k = k + 1;
        }
        proof {
            assert(self@ =~= (MachineView {
                v: Seq::new(
                    16,
                    |j: int|
                        if 0 <= j <= x {
                            old(self)@.mem[old(self)@.index + j]
                        } else {
                            old(self)@.v[j]
                        },
                ),
                ..old(self)@
            }));
            assert(instr_step(old(self)@, Instr::LoadRegs { x }, 0u8, self@, Ok::<(), Fault>(())));
        }
        Ok(())
    }

    /// The value of general register `index`.
    pub fn v_register(&self, index: usize) -> (r: u8)
        requires
            self.wf(),
            index < 16,
        ensures
            r == self@.v[index as int],
    {
        self.v_registers[index]
    }

    /// Overwrite general register `index`.
    pub fn set_v_register(&mut self, index: usize, value: u8)
        requires
            old(self).wf(),
            index < 16,
        ensures
            final(self).wf(),
            final(self)@ == (MachineView {
                v: old(self)@.v.update(index as int, value),
                ..old(self)@
            }),
    {
        self.v_registers.set(index, value);
        proof {
            assert(self@ =~= (MachineView {
                v: old(self)@.v.update(index as int, value),
                ..old(self)@
            }));
        }
    }

    /// The current program counter.
    pub fn pc(&self) -> (r: u16)
        ensures
            r == self@.pc,
    {
        self.pc
    }

    /// Point the program counter at `value`.
    pub fn set_pc(&mut self, value: u16)
        requires
            old(self).wf(),
        ensures
            final(self).wf(),
            final(self)@ == (MachineView { pc: value, ..old(self)@ }),
    {
        self.pc = value;
        proof {
            assert(self@ =~= (MachineView { pc: value, ..old(self)@ }));
        }
    }

    /// The current index register I.
    pub fn index_register(&self) -> (r: u16)
        ensures
            r == self@.index,
    {
        self.index_register
    }

    /// Overwrite the index register I.
    pub fn set_index_register(&mut self, value: u16)
        requires
            old(self).wf(),
        ensures
            final(self).wf(),
            final(self)@ == (MachineView { index: value, ..old(self)@ }),
    {
        self.index_register = value;
        proof {
            assert(self@ =~= (MachineView { index: value, ..old(self)@ }));
        }
    }

    /// The byte at memory address `addr`.
    pub fn memory_at(&self, addr: usize) -> (r: u8)
        requires
            self.wf(),
            addr < 4096,
        ensures
            r == self@.mem[addr as int],
    {
        self.memory[addr]
    }

    /// Overwrite the byte at memory address `addr`.
    pub fn set_memory_at(&mut self, addr: usize, value: u8)
        requires
            old(self).wf(),
            addr < 4096,
        ensures
            final(self).wf(),
            final(self)@ == (MachineView {
                mem: old(self)@.mem.update(addr as int, value),
                ..old(self)@
            }),
    {
        self.memory.set(addr, value);
        proof {
            assert(self@ =~= (MachineView {
                mem: old(self)@.mem.update(addr as int, value),
                ..old(self)@
            }));
        }
    }

    /// Whether the framebuffer cell at row-major index `idx` is lit.
    pub fn pixel(&self, idx: usize) -> (r: bool)
        requires
            self.wf(),
            idx < 2048,
        ensures
            r == self@.screen[idx as int],
    {
        self.screen[idx]
    }

    /// Light or clear the framebuffer cell at row-major index `idx`.
    pub fn set_pixel(&mut self, idx: usize, lit: bool)
        requires
            old(self).wf(),
            idx < 2048,
        ensures
            final(self).wf(),
            final(self)@ == (MachineView {
                screen: old(self)@.screen.update(idx as int, lit),
                ..old(self)@
            }),
    {
        self.screen.set(idx, lit);
        proof {
            assert(self@ =~= (MachineView {
                screen: old(self)@.screen.update(idx as int, lit),
                ..old(self)@
            }));
        }
    }

    /// The whole framebuffer, row-major, for read-only rendering.
    pub fn screen(&self) -> (r: &Vec<bool>)
        ensures
            r@ == self@.screen,
    {
        &self.screen
    }

    /// The current delay timer value.
    pub fn delay_timer(&self) -> (r: u8)
        ensures
            r == self@.delay,
    {
        self.delay_timer
    }

    /// Overwrite the delay timer.
    pub fn set_delay_timer(&mut self, value: u8)
        requires
            old(self).wf(),
        ensures
            final(self).wf(),
            final(self)@ == (MachineView { delay: value, ..old(self)@ }),
    {
        self.delay_timer = value;
        proof {
            assert(self@ =~= (MachineView { delay: value, ..old(self)@ }));
        }
    }

    /// The current sound timer value.
    pub fn sound_timer(&self) -> (r: u8)
        ensures
            r == self@.sound,
    {
        self.sound_timer
    }

    /// Overwrite the sound timer.
    pub fn set_sound_timer(&mut self, value: u8)
        requires
            old(self).wf(),
        ensures
            final(self).wf(),
            final(self)@ == (MachineView { sound: value, ..old(self)@ }),
    {
        self.sound_timer = value;
        proof {
            assert(self@ =~= (MachineView { sound: value, ..old(self)@ }));
        }
    }

    /// The value stored in call-stack slot `slot`, live or not.
    pub fn stack_at(&self, slot: usize) -> (r: u16)
        requires
            self.wf(),
            slot < 16,
        ensures
            r == self@.stack[slot as int],
    {
        self.stack[slot]
    }

    /// The stack pointer: the number of live return addresses.
    pub fn stack_pointer(&self) -> (r: u16)
        ensures
            r == self@.sp,
    {
        self.stack_pointer
    }
}

} // verus!
