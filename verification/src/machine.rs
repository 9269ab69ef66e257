//! The mathematical model of the machine: the ghost state that every
//! contract of the crate speaks about, the fatal faults, and the pristine
//! (just-reset) state with its built-in font table.

use vstd::prelude::*;

verus! {

/// A fatal condition.  Each one terminates the current step without leaving
/// the machine in a partially-updated state; the host decides whether to
/// halt or report.
#[derive(Clone, Copy, Debug, PartialEq, Eq, Structural)]
pub enum Fault {
    /// The fetched instruction word matches no entry of the instruction table.
    UnknownOpcode,
    /// A call instruction found the 16-entry call stack full.
    StackOverflow,
    /// A return instruction found the call stack empty.
    StackUnderflow,
    /// A computed memory reference fell outside the valid range 0..4096.
    AddressOutOfRange,
    /// A key-skip instruction named a key index outside 0..16.
    KeyOutOfRange,
    /// A program image too large to fit between 0x200 and the end of memory.
    RomTooLarge,
}

/// The abstract machine state: what one interpreter step reads and writes.
///
/// `mem` always has 4096 bytes, `screen` 64 x 32 = 2048 cells, `v` the 16
/// general registers V0..VF, `stack` the 16 call-stack slots of which the
/// first `sp` are live, and `keys` the 16 keypad latches.
#[verifier::ext_equal]
pub struct MachineView {
    /// Program counter: address of the next instruction byte pair.
    pub pc: u16,
    /// The 4096-byte memory.
    pub mem: Seq<u8>,
    /// The monochrome framebuffer, row-major, `true` = lit.
    pub screen: Seq<bool>,
    /// The general registers V0..VF; `v[15]` doubles as the flag register.
    pub v: Seq<u8>,
    /// The index register I, used as a memory pointer.
    pub index: u16,
    /// The call-stack slots; only the first `sp` hold live return addresses.
    pub stack: Seq<u16>,
    /// The stack pointer: the next free stack slot.
    pub sp: u16,
    /// The keypad latches, `true` = currently pressed.
    pub keys: Seq<bool>,
    /// The delay timer, counted down to zero by external ticks.
    pub delay: u8,
    /// The sound timer, counted down to zero by external ticks.
    pub sound: u8,
}

impl MachineView {
    /// Well-formedness: the fixed sizes of every component, and a stack
    /// pointer that never exceeds the stack's capacity.
    pub open spec fn wf(self) -> bool {
        &&& self.mem.len() == 4096
        &&& self.screen.len() == 2048
        &&& self.v.len() == 16
        &&& self.stack.len() == 16
        &&& self.keys.len() == 16
        &&& self.sp <= 16
    }
}

/// The built-in font table: 16 glyphs of 5 bytes each, one per hexadecimal
/// digit, occupying memory addresses 0x000..0x050.
pub open spec fn font_spec() -> Seq<u8> {
    seq![
        0xF0u8, 0x90, 0x90, 0x90, 0xF0, // 0
        0x20, 0x60, 0x20, 0x20, 0x70, // 1
        0xF0, 0x10, 0xF0, 0x80, 0xF0, // 2
        0xF0, 0x10, 0xF0, 0x10, 0xF0, // 3
        0x90, 0x90, 0xF0, 0x10, 0x10, // 4
        0xF0, 0x80, 0xF0, 0x10, 0xF0, // 5
        0xF0, 0x80, 0xF0, 0x90, 0xF0, // 6
        0xF0, 0x10, 0x20, 0x40, 0x40, // 7
        0xF0, 0x90, 0xF0, 0x90, 0xF0, // 8
        0xF0, 0x90, 0xF0, 0x10, 0xF0, // 9
        0xF0, 0x90, 0xF0, 0x90, 0x90, // A
        0xE0, 0x90, 0xE0, 0x90, 0xE0, // B
        0xF0, 0x80, 0x80, 0x80, 0xF0, // C
        0xE0, 0x90, 0x90, 0x90, 0xE0, // D
        0xF0, 0x80, 0xF0, 0x80, 0xF0, // E
        0xF0, 0x80, 0xF0, 0x80, 0x80, // F
    ]
}

/// The pristine machine: font table in low memory, everything else cleared,
/// program counter at the conventional program start 0x200.
pub open spec fn initial_view() -> MachineView {
    MachineView {
        pc: 0x200,
        mem: Seq::new(4096, |i: int| if i < 80 { font_spec()[i] } else { 0u8 }),
        screen: Seq::new(2048, |_i: int| false),
        v: Seq::new(16, |_i: int| 0u8),
        index: 0,
        stack: Seq::new(16, |_i: int| 0u16),
        sp: 0,
        keys: Seq::new(16, |_i: int| false),
        delay: 0,
        sound: 0,
    }
}

} // verus!
