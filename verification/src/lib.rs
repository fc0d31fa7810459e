//! Hardware-facing core of a small kernel, modelled over plain values so that
//! its invariants can be stated and checked: interrupt and exception dispatch
//! (descriptor tables, the chained interrupt controllers, the keyboard
//! decoder) and the virtual memory manager (physical frame allocation and
//! four-level page-table mapping).

pub mod interrupt;
pub mod keyboard;
pub mod logger;
pub mod memory;
pub mod vga;
