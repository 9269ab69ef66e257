//! The instruction set: the decoded instruction type, the decoder, and the
//! functional semantics of every instruction as a transformation of
//! [`MachineView`].

use vstd::prelude::*;

use crate::machine::{Fault, MachineView};

verus! {

/// A decoded instruction: one variant per entry of the instruction table,
/// carrying exactly the operand fields that entry uses.
///
/// `x` and `y` are register indices (one nibble each), `nn` an immediate
/// byte, `nnn` a 12-bit address, and `n` a sprite height nibble.
#[derive(Clone, Copy, Debug, PartialEq, Eq, Structural)]
pub enum Instr {
    /// 0000: no effect.
    Nop,
    /// 00E0: clear every framebuffer cell.
    Cls,
    /// 00EE: pop a return address into the program counter.
    Ret,
    /// 1nnn: jump to `nnn`.
    Jump { nnn: u16 },
    /// 2nnn: push the program counter, then jump to `nnn`.
    Call { nnn: u16 },
    /// 3xnn: skip the next instruction if Vx == nn.
    SkipEqImm { x: u8, nn: u8 },
    /// 4xnn: skip the next instruction if Vx != nn.
    SkipNeImm { x: u8, nn: u8 },
    /// 5xy0: skip the next instruction if Vx == Vy.
    SkipEqReg { x: u8, y: u8 },
    /// 6xnn: Vx = nn.
    SetImm { x: u8, nn: u8 },
    /// 7xnn: Vx = Vx + nn, wrapping, no flag.
    AddImm { x: u8, nn: u8 },
    /// 8xy0: Vx = Vy.
    MovReg { x: u8, y: u8 },
    /// 8xy1: Vx = Vx | Vy.
    OrReg { x: u8, y: u8 },
    /// 8xy2: Vx = Vx & Vy.
    AndReg { x: u8, y: u8 },
    /// 8xy3: Vx = Vx ^ Vy.
    XorReg { x: u8, y: u8 },
    /// 8xy4: Vx = Vx + Vy wrapping; VF = 1 on 8-bit carry, else 0.
    AddReg { x: u8, y: u8 },
    /// 8xy5: Vx = Vx - Vy wrapping; VF = 0 on borrow, else 1.
    SubReg { x: u8, y: u8 },
    /// 8x_6: VF = low bit of Vx; Vx = Vx >> 1.
    ShrReg { x: u8 },
    /// 8xy7: Vx = Vy - Vx wrapping; VF = 0 on borrow, else 1.
    SubnReg { x: u8, y: u8 },
    /// 8x_E: VF = high bit of Vx; Vx = Vx << 1.
    ShlReg { x: u8 },
    /// 9xy0: skip the next instruction if Vx != Vy.
    SkipNeReg { x: u8, y: u8 },
    /// Annn: I = nnn.
    SetIndex { nnn: u16 },
    /// Bnnn: jump to V0 + nnn (16-bit sum).
    JumpV0 { nnn: u16 },
    /// Cxnn: Vx = random byte & nn.
    Rand { x: u8, nn: u8 },
    /// Dxyn: XOR-draw the n-row sprite at memory[I..I+n) at (Vx, Vy).
    Draw { x: u8, y: u8, n: u8 },
    /// Ex9E: skip the next instruction if key Vx is pressed.
    SkipKeyPressed { x: u8 },
    /// ExA1: skip the next instruction if key Vx is not pressed.
    SkipKeyNotPressed { x: u8 },
    /// Fx07: Vx = delay timer.
    ReadDelay { x: u8 },
    /// Fx0A: busy-wait for a key press; capture its index into Vx.
    WaitKey { x: u8 },
    /// Fx15: delay timer = Vx.
    SetDelay { x: u8 },
    /// Fx18: sound timer = Vx.
    SetSound { x: u8 },
    /// Fx1E: I = I + Vx, wrapping at 16 bits.
    AddIndex { x: u8 },
    /// Fx29: I = Vx * 5, the font glyph address for hex digit Vx.
    FontIndex { x: u8 },
    /// Fx33: store the decimal digits of Vx at memory[I..I+3).
    Bcd { x: u8 },
    /// Fx55: store V0..Vx into memory starting at I.
    StoreRegs { x: u8 },
    /// Fx65: load V0..Vx from memory starting at I.
    LoadRegs { x: u8 },
}

impl Instr {
    /// Field bounds that every decoded instruction satisfies: register
    /// indices and sprite heights are nibbles, addresses are 12 bits.
    pub open spec fn wf(self) -> bool {
        match self {
            Instr::Nop => true,
            Instr::Cls => true,
            Instr::Ret => true,
            Instr::Jump { nnn } => nnn < 4096,
            Instr::Call { nnn } => nnn < 4096,
            Instr::SkipEqImm { x, nn } => x < 16,
            Instr::SkipNeImm { x, nn } => x < 16,
            Instr::SkipEqReg { x, y } => x < 16 && y < 16,
            Instr::SetImm { x, nn } => x < 16,
            Instr::AddImm { x, nn } => x < 16,
            Instr::MovReg { x, y } => x < 16 && y < 16,
            Instr::OrReg { x, y } => x < 16 && y < 16,
            Instr::AndReg { x, y } => x < 16 && y < 16,
            Instr::XorReg { x, y } => x < 16 && y < 16,
            Instr::AddReg { x, y } => x < 16 && y < 16,
            Instr::SubReg { x, y } => x < 16 && y < 16,
            Instr::ShrReg { x } => x < 16,
            Instr::SubnReg { x, y } => x < 16 && y < 16,
            Instr::ShlReg { x } => x < 16,
            Instr::SkipNeReg { x, y } => x < 16 && y < 16,
            Instr::SetIndex { nnn } => nnn < 4096,
            Instr::JumpV0 { nnn } => nnn < 4096,
            Instr::Rand { x, nn } => x < 16,
            Instr::Draw { x, y, n } => x < 16 && y < 16 && n < 16,
            Instr::SkipKeyPressed { x } => x < 16,
            Instr::SkipKeyNotPressed { x } => x < 16,
            Instr::ReadDelay { x } => x < 16,
            Instr::WaitKey { x } => x < 16,
            Instr::SetDelay { x } => x < 16,
            Instr::SetSound { x } => x < 16,
            Instr::AddIndex { x } => x < 16,
            Instr::FontIndex { x } => x < 16,
            Instr::Bcd { x } => x < 16,
            Instr::StoreRegs { x } => x < 16,
            Instr::LoadRegs { x } => x < 16,
        }
    }
}

/// The decoder, as a function: splits the word into four nibbles and selects
/// the instruction-table entry, or `None` for an unknown pattern.
pub open spec fn decode_spec(op: u16) -> Option<Instr> {
    let d1: u16 = (op & 0xF000) >> 12;
    let d3: u16 = (op & 0x00F0) >> 4;
    let d4: u16 = op & 0x000F;
    let x: u8 = ((op & 0x0F00) >> 8) as u8;
    let y: u8 = d3 as u8;
    let n: u8 = d4 as u8;
    let nn: u8 = (op & 0x00FF) as u8;
    let nnn: u16 = op & 0x0FFF;
    if op == 0x0000 {
        Some(Instr::Nop)
    } else if op == 0x00E0 {
        Some(Instr::Cls)
    } else if op == 0x00EE {
        Some(Instr::Ret)
    } else if d1 == 0x1 {
        Some(Instr::Jump { nnn })
    } else if d1 == 0x2 {
        Some(Instr::Call { nnn })
    } else if d1 == 0x3 {
        Some(Instr::SkipEqImm { x, nn })
    } else if d1 == 0x4 {
        Some(Instr::SkipNeImm { x, nn })
    } else if d1 == 0x5 && d4 == 0x0 {
        Some(Instr::SkipEqReg { x, y })
    } else if d1 == 0x6 {
        Some(Instr::SetImm { x, nn })
    } else if d1 == 0x7 {
        Some(Instr::AddImm { x, nn })
    } else if d1 == 0x8 && d4 == 0x0 {
        Some(Instr::MovReg { x, y })
    } else if d1 == 0x8 && d4 == 0x1 {
        Some(Instr::OrReg { x, y })
    } else if d1 == 0x8 && d4 == 0x2 {
        Some(Instr::AndReg { x, y })
    } else if d1 == 0x8 && d4 == 0x3 {
        Some(Instr::XorReg { x, y })
    } else if d1 == 0x8 && d4 == 0x4 {
        Some(Instr::AddReg { x, y })
    } else if d1 == 0x8 && d4 == 0x5 {
        Some(Instr::SubReg { x, y })
    } else if d1 == 0x8 && d4 == 0x6 {
        Some(Instr::ShrReg { x })
    } else if d1 == 0x8 && d4 == 0x7 {
        Some(Instr::SubnReg { x, y })
    } else if d1 == 0x8 && d4 == 0xE {
        Some(Instr::ShlReg { x })
    } else if d1 == 0x9 && d4 == 0x0 {
        Some(Instr::SkipNeReg { x, y })
    } else if d1 == 0xA {
        Some(Instr::SetIndex { nnn })
    } else if d1 == 0xB {
        Some(Instr::JumpV0 { nnn })
    } else if d1 == 0xC {
        Some(Instr::Rand { x, nn })
    } else if d1 == 0xD {
        Some(Instr::Draw { x, y, n })
    } else if d1 == 0xE && d3 == 0x9 && d4 == 0xE {
        Some(Instr::SkipKeyPressed { x })
    } else if d1 == 0xE && d3 == 0xA && d4 == 0x1 {
        Some(Instr::SkipKeyNotPressed { x })
    } else if d1 == 0xF && d3 == 0x0 && d4 == 0x7 {
        Some(Instr::ReadDelay { x })
    } else if d1 == 0xF && d3 == 0x0 && d4 == 0xA {
        Some(Instr::WaitKey { x })
    } else if d1 == 0xF && d3 == 0x1 && d4 == 0x5 {
        Some(Instr::SetDelay { x })
    } else if d1 == 0xF && d3 == 0x1 && d4 == 0x8 {
        Some(Instr::SetSound { x })
    } else if d1 == 0xF && d3 == 0x1 && d4 == 0xE {
        Some(Instr::AddIndex { x })
    } else if d1 == 0xF && d3 == 0x2 && d4 == 0x9 {
        Some(Instr::FontIndex { x })
    } else if d1 == 0xF && d3 == 0x3 && d4 == 0x3 {
        Some(Instr::Bcd { x })
    } else if d1 == 0xF && d3 == 0x5 && d4 == 0x5 {
        Some(Instr::StoreRegs { x })
    } else if d1 == 0xF && d3 == 0x6 && d4 == 0x5 {
        Some(Instr::LoadRegs { x })
    } else {
        None
    }
}

/// The executable decoder; it computes exactly [`decode_spec`].
pub fn decode(op: u16) -> (r: Option<Instr>)
    ensures
        r == decode_spec(op),
        (r matches Some(i) ==> i.wf()),
{
    proof {
        assert((op & 0xF000) >> 12 < 16 && (op & 0x0F00) >> 8 < 16 && (op & 0x00F0) >> 4 < 16
            && op & 0x000F < 16 && op & 0x00FF < 256 && op & 0x0FFF < 4096) by (bit_vector);
    }
    let d1: u16 = (op & 0xF000) >> 12;
    let d3: u16 = (op & 0x00F0) >> 4;
    let d4: u16 = op & 0x000F;
    let x: u8 = ((op & 0x0F00) >> 8) as u8;
    let y: u8 = d3 as u8;
    let n: u8 = d4 as u8;
    let nn: u8 = (op & 0x00FF) as u8;
    let nnn: u16 = op & 0x0FFF;
    if op == 0x0000 {
        Some(Instr::Nop)
    } else if op == 0x00E0 {
        Some(Instr::Cls)
    } else if op == 0x00EE {
        Some(Instr::Ret)
    } else if d1 == 0x1 {
        Some(Instr::Jump { nnn })
    } else if d1 == 0x2 {
        Some(Instr::Call { nnn })
    } else if d1 == 0x3 {
        Some(Instr::SkipEqImm { x, nn })
    } else if d1 == 0x4 {
        Some(Instr::SkipNeImm { x, nn })
    } else if d1 == 0x5 && d4 == 0x0 {
        Some(Instr::SkipEqReg { x, y })
    } else if d1 == 0x6 {
        Some(Instr::SetImm { x, nn })
    } else if d1 == 0x7 {
        Some(Instr::AddImm { x, nn })
    } else if d1 == 0x8 && d4 == 0x0 {
        Some(Instr::MovReg { x, y })
    } else if d1 == 0x8 && d4 == 0x1 {
        Some(Instr::OrReg { x, y })
    } else if d1 == 0x8 && d4 == 0x2 {
        Some(Instr::AndReg { x, y })
    } else if d1 == 0x8 && d4 == 0x3 {
        Some(Instr::XorReg { x, y })
    } else if d1 == 0x8 && d4 == 0x4 {
        Some(Instr::AddReg { x, y })
    } else if d1 == 0x8 && d4 == 0x5 {
        Some(Instr::SubReg { x, y })
    } else if d1 == 0x8 && d4 == 0x6 {
        Some(Instr::ShrReg { x })
    } else if d1 == 0x8 && d4 == 0x7 {
        Some(Instr::SubnReg { x, y })
    } else if d1 == 0x8 && d4 == 0xE {
        Some(Instr::ShlReg { x })
    } else if d1 == 0x9 && d4 == 0x0 {
        Some(Instr::SkipNeReg { x, y })
    } else if d1 == 0xA {
        Some(Instr::SetIndex { nnn })
    } else if d1 == 0xB {
        Some(Instr::JumpV0 { nnn })
    } else if d1 == 0xC {
        Some(Instr::Rand { x, nn })
    } else if d1 == 0xD {
        Some(Instr::Draw { x, y, n })
    } else if d1 == 0xE && d3 == 0x9 && d4 == 0xE {
        Some(Instr::SkipKeyPressed { x })
    } else if d1 == 0xE && d3 == 0xA && d4 == 0x1 {
        Some(Instr::SkipKeyNotPressed { x })
    } else if d1 == 0xF && d3 == 0x0 && d4 == 0x7 {
        Some(Instr::ReadDelay { x })
    } else if d1 == 0xF && d3 == 0x0 && d4 == 0xA {
        Some(Instr::WaitKey { x })
    } else if d1 == 0xF && d3 == 0x1 && d4 == 0x5 {
        Some(Instr::SetDelay { x })
    } else if d1 == 0xF && d3 == 0x1 && d4 == 0x8 {
        Some(Instr::SetSound { x })
    } else if d1 == 0xF && d3 == 0x1 && d4 == 0xE {
        Some(Instr::AddIndex { x })
    } else if d1 == 0xF && d3 == 0x2 && d4 == 0x9 {
        Some(Instr::FontIndex { x })
    } else if d1 == 0xF && d3 == 0x3 && d4 == 0x3 {
        Some(Instr::Bcd { x })
    } else if d1 == 0xF && d3 == 0x5 && d4 == 0x5 {
        Some(Instr::StoreRegs { x })
    } else if d1 == 0xF && d3 == 0x6 && d4 == 0x5 {
        Some(Instr::LoadRegs { x })
    } else {
        None
    }
}

/// The state with the program counter advanced by one 2-byte instruction
/// when `cond` holds; otherwise unchanged.
pub open spec fn skip_if(s: MachineView, cond: bool) -> MachineView {
    if cond {
        MachineView { pc: s.pc.wrapping_add(2), ..s }
    } else {
        s
    }
}

/// The state with register `x` replaced by `value`.
pub open spec fn with_v(s: MachineView, x: int, value: u8) -> MachineView {
    MachineView { v: s.v.update(x, value), ..s }
}

/// Push a return address: append at the stack pointer and advance it, or
/// fail fatally when the 16 slots are full.
pub open spec fn push_view(s: MachineView, addr: u16) -> Result<MachineView, Fault> {
    if s.sp < 16 {
        Ok(MachineView { stack: s.stack.update(s.sp as int, addr), sp: (s.sp + 1) as u16, ..s })
    } else {
        Err(Fault::StackOverflow)
    }
}

/// Pop a return address: retreat the stack pointer and read the slot it now
/// names, or fail fatally when the stack is empty.
pub open spec fn pop_view(s: MachineView) -> Result<(MachineView, u16), Fault> {
    if s.sp > 0 {
        Ok((MachineView { sp: (s.sp - 1) as u16, ..s }, s.stack[s.sp - 1]))
    } else {
        Err(Fault::StackUnderflow)
    }
}

/// Whether bit `c` of a sprite row byte is set, counting from the
/// most-significant bit (column 0) downwards.
pub open spec fn sprite_bit(row: u8, c: int) -> bool {
    row & (0x80u8 >> (c as u8)) != 0
}

/// The framebuffer cell hit by sprite column `c` of row `r` for a sprite
/// anchored at (`dx`, `dy`); coordinates wrap at the screen edges.
pub open spec fn pixel_index(dx: u8, dy: u8, c: int, r: int) -> int {
    (dx + c) % 64 + 64 * ((dy + r) % 32)
}

/// XOR-blit the first `ncols` columns of one sprite row onto the screen.
/// Returns the new screen and whether any toggled cell was already lit.
pub open spec fn draw_row(screen: Seq<bool>, row: u8, dx: u8, dy: u8, r: int, ncols: int) -> (
    Seq<bool>,
    bool,
)
    decreases ncols,
{
    if ncols <= 0 {
        (screen, false)
    } else {
        let (scr, col) = draw_row(screen, row, dx, dy, r, ncols - 1);
        let c: int = ncols - 1;
        if sprite_bit(row, c) {
            let idx: int = pixel_index(dx, dy, c, r);
            (scr.update(idx, !scr[idx]), col || scr[idx])
        } else {
            (scr, col)
        }
    }
}

/// XOR-blit the first `nrows` rows of the sprite at `mem[index..]` onto the
/// screen.  Returns the new screen and the collision flag.
pub open spec fn draw_sprite(
    screen: Seq<bool>,
    mem: Seq<u8>,
    index: u16,
    dx: u8,
    dy: u8,
    nrows: int,
) -> (Seq<bool>, bool)
    decreases nrows,
{
    if nrows <= 0 {
        (screen, false)
    } else {
        let (scr, col) = draw_sprite(screen, mem, index, dx, dy, nrows - 1);
        let r: int = nrows - 1;
        let (scr2, col2) = draw_row(scr, mem[index + r], dx, dy, r, 8);
        (scr2, col || col2)
    }
}

/// The lowest pressed key at or above index `from`, if any.
pub open spec fn first_pressed(keys: Seq<bool>, from: int) -> Option<int>
    decreases 16 - from,
{
    if from < 0 || from >= 16 {
        None
    } else if keys[from] {
        Some(from)
    } else {
        first_pressed(keys, from + 1)
    }
}

/// The semantics of one decoded instruction: the successor state, or the
/// fault that aborts the step.  `rnd` is the byte drawn by the random
/// instruction; no other instruction reads it.
pub open spec fn instr_result(s: MachineView, i: Instr, rnd: u8) -> Result<MachineView, Fault> {
    match i {
        Instr::Nop => Ok(s),
        Instr::Cls => Ok(MachineView { screen: Seq::new(2048, |_i: int| false), ..s }),
        Instr::Ret => match pop_view(s) {
            Ok((s1, addr)) => Ok(MachineView { pc: addr, ..s1 }),
            Err(e) => Err(e),
        },
        Instr::Jump { nnn } => Ok(MachineView { pc: nnn, ..s }),
        Instr::Call { nnn } => match push_view(s, s.pc) {
            Ok(s1) => Ok(MachineView { pc: nnn, ..s1 }),
            Err(e) => Err(e),
        },
        Instr::SkipEqImm { x, nn } => Ok(skip_if(s, s.v[x as int] == nn)),
        Instr::SkipNeImm { x, nn } => Ok(skip_if(s, s.v[x as int] != nn)),
        Instr::SkipEqReg { x, y } => Ok(skip_if(s, s.v[x as int] == s.v[y as int])),
        Instr::SetImm { x, nn } => Ok(with_v(s, x as int, nn)),
        Instr::AddImm { x, nn } => Ok(with_v(s, x as int, s.v[x as int].wrapping_add(nn))),
        Instr::MovReg { x, y } => Ok(with_v(s, x as int, s.v[y as int])),
        Instr::OrReg { x, y } => Ok(with_v(s, x as int, s.v[x as int] | s.v[y as int])),
        Instr::AndReg { x, y } => Ok(with_v(s, x as int, s.v[x as int] & s.v[y as int])),
        Instr::XorReg { x, y } => Ok(with_v(s, x as int, s.v[x as int] ^ s.v[y as int])),
        Instr::AddReg { x, y } => {
            let sum: u8 = s.v[x as int].wrapping_add(s.v[y as int]);
            let carry: u8 = if s.v[x as int] + s.v[y as int] > 255 {
                1u8
            } else {
                0u8
            };
            Ok(MachineView { v: s.v.update(15, carry).update(x as int, sum), ..s })
        },
        Instr::SubReg { x, y } => {
            let diff: u8 = s.v[x as int].wrapping_sub(s.v[y as int]);
            let no_borrow: u8 = if s.v[x as int] < s.v[y as int] {
                0u8
            } else {
                1u8
            };
            Ok(MachineView { v: s.v.update(15, no_borrow).update(x as int, diff), ..s })
        },
        Instr::ShrReg { x } => {
            let low: u8 = s.v[x as int] & 1;
            Ok(MachineView { v: s.v.update(x as int, s.v[x as int] >> 1u8).update(15, low), ..s })
        },
        Instr::SubnReg { x, y } => {
            let diff: u8 = s.v[y as int].wrapping_sub(s.v[x as int]);
            let no_borrow: u8 = if s.v[y as int] < s.v[x as int] {
                0u8
            } else {
                1u8
            };
            Ok(MachineView { v: s.v.update(15, no_borrow).update(x as int, diff), ..s })
        },
        Instr::ShlReg { x } => {
            let high: u8 = s.v[x as int] >> 7u8;
            Ok(MachineView { v: s.v.update(x as int, s.v[x as int] << 1u8).update(15, high), ..s })
        },
        Instr::SkipNeReg { x, y } => Ok(skip_if(s, s.v[x as int] != s.v[y as int])),
        Instr::SetIndex { nnn } => Ok(MachineView { index: nnn, ..s }),
        Instr::JumpV0 { nnn } => Ok(MachineView { pc: (s.v[0] + nnn) as u16, ..s }),
        Instr::Rand { x, nn } => Ok(with_v(s, x as int, rnd & nn)),
        Instr::Draw { x, y, n } => {
            if n > 0 && s.index + n > 4096 {
                Err(Fault::AddressOutOfRange)
            } else {
                let (scr, col) = draw_sprite(
                    s.screen,
                    s.mem,
                    s.index,
                    s.v[x as int],
                    s.v[y as int],
                    n as int,
                );
                let flag: u8 = if col {
                    1u8
                } else {
                    0u8
                };
                Ok(MachineView { screen: scr, v: s.v.update(15, flag), ..s })
            }
        },
        Instr::SkipKeyPressed { x } => {
            if s.v[x as int] >= 16 {
                Err(Fault::KeyOutOfRange)
            } else {
                Ok(skip_if(s, s.keys[s.v[x as int] as int]))
            }
        },
        Instr::SkipKeyNotPressed { x } => {
            if s.v[x as int] >= 16 {
                Err(Fault::KeyOutOfRange)
            } else {
                Ok(skip_if(s, !s.keys[s.v[x as int] as int]))
            }
        },
        Instr::ReadDelay { x } => Ok(with_v(s, x as int, s.delay)),
        Instr::WaitKey { x } => match first_pressed(s.keys, 0) {
            Some(k) => Ok(with_v(s, x as int, k as u8)),
            None => Ok(MachineView { pc: s.pc.wrapping_sub(2), ..s }),
        },
        Instr::SetDelay { x } => Ok(MachineView { delay: s.v[x as int], ..s }),
        Instr::SetSound { x } => Ok(MachineView { sound: s.v[x as int], ..s }),
        Instr::AddIndex { x } => Ok(
            MachineView { index: s.index.wrapping_add(s.v[x as int] as u16), ..s },
        ),
        Instr::FontIndex { x } => Ok(MachineView { index: (s.v[x as int] * 5) as u16, ..s }),
        Instr::Bcd { x } => {
            if s.index + 2 >= 4096 {
                Err(Fault::AddressOutOfRange)
            } else {
                let value: u8 = s.v[x as int];
                Ok(
                    MachineView {
                        mem: s.mem.update(s.index as int, (value / 100) as u8).update(
                            s.index as int + 1,
                            ((value / 10) % 10) as u8,
                        ).update(s.index as int + 2, (value % 10) as u8),
                        ..s
                    },
                )
            }
        },
        Instr::StoreRegs { x } => {
            if s.index + x >= 4096 {
                Err(Fault::AddressOutOfRange)
            } else {
                Ok(
                    MachineView {
                        mem: Seq::new(
                            4096,
                            |j: int|
                                if s.index <= j <= s.index + x {
                                    s.v[j - s.index]
                                } else {
                                    s.mem[j]
                                },
                        ),
                        ..s
                    },
                )
            }
        },
        Instr::LoadRegs { x } => {
            if s.index + x >= 4096 {
                Err(Fault::AddressOutOfRange)
            } else {
                Ok(
                    MachineView {
                        v: Seq::new(
                            16,
                            |j: int|
                                if 0 <= j <= x {
                                    s.mem[s.index + j]
                                } else {
                                    s.v[j]
                                },
                        ),
                        ..s
                    },
                )
            }
        },
    }
}

/// How one executed instruction relates the machine states before and after
/// it, together with the step's result.  A fault leaves the state untouched.
pub open spec fn instr_step(
    pre: MachineView,
    i: Instr,
    rnd: u8,
    post: MachineView,
    r: Result<(), Fault>,
) -> bool {
    match instr_result(pre, i, rnd) {
        Ok(s2) => r == Ok::<(), Fault>(()) && post == s2,
        Err(e) => r == Err::<(), Fault>(e) && post == pre,
    }
}

/// One decode-execute step on an already fetched instruction word: an
/// unknown pattern is a fault, any other is executed with some drawn random
/// byte.
pub open spec fn step_spec(pre: MachineView, op: u16, post: MachineView, r: Result<
    (),
    Fault,
>) -> bool {
    match decode_spec(op) {
        Some(i) => exists|rnd: u8| instr_step(pre, i, rnd, post, r),
        None => r == Err::<(), Fault>(Fault::UnknownOpcode) && post == pre,
    }
}

/// The instruction word at `pc`: the byte at `pc` is the high byte, the byte
/// at `pc + 1` the low byte.
pub open spec fn word_at(mem: Seq<u8>, pc: u16) -> u16 {
    ((mem[pc as int] as u16) << 8) | (mem[pc as int + 1] as u16)
}

/// One full fetch-decode-execute step from `pre`: fetching advances the
/// program counter by 2 before the instruction runs; a program counter whose
/// word would cross the end of memory is an addressing fault.
pub open spec fn tick_spec(pre: MachineView, post: MachineView, r: Result<(), Fault>) -> bool {
    if pre.pc as int + 1 < 4096 {
        step_spec(
            MachineView { pc: (pre.pc + 2) as u16, ..pre },
            word_at(pre.mem, pre.pc),
            post,
            r,
        )
    } else {
        r == Err::<(), Fault>(Fault::AddressOutOfRange) && post == pre
    }
}

} // verus!
