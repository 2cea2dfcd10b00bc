//! The decision logic of a small x86_64 kernel: the VGA text console, the COM1
//! byte stream, the programmable interrupt controller and timer programming,
//! the round-robin scheduler and the boot frame allocator.
//!
//! Hardware access (port I/O, memory-mapped VGA memory, control registers,
//! context switches) is performed by the caller; this crate decides what to
//! write and where, and states it in its contracts.

pub mod cpu;
pub mod port;
pub mod memory;
pub mod vga;
pub mod serial;
