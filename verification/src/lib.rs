//! A verified interpreter core for a small fixed instruction-set virtual
//! machine: an 8-bit-register, 16-bit-address CPU with a 4096-byte memory,
//! a 64 x 32 monochrome framebuffer, a 16-key keypad and two countdown
//! timers.
//!
//! The whole machine is modelled by the ghost struct [`machine::MachineView`];
//! every operation on the executable [`cpu::CPU`] carries a contract that pins
//! its effect on that model down exactly.  The host (display, input, ROM
//! loading) lives outside this crate and talks to the core through plain
//! values.

pub mod cpu;
pub mod isa;
pub mod laws;
pub mod machine;
