//! Verified x86_64 architecture layer of the moss kernel: page-table
//! descriptors and the mapping walk, descriptor tables (GDT, IDT, TSS),
//! exception decoding, system-call dispatch, and the register-level logic
//! of the interrupt controllers, timers and serial port.

pub mod error;
pub mod address;
pub mod permissions;
pub mod pg_descriptors;
pub mod pg_tables;
pub mod pg_walk;
pub mod range_map;
pub mod table_arena;
pub mod mmu;
pub mod boot;
pub mod gdt;
pub mod idt;
pub mod ptrace;
pub mod exceptions;
pub mod interrupts;
pub mod syscalls;
pub mod uaccess;
pub mod timers;
pub mod lapic;
pub mod process;
pub mod cpu;
pub mod page_alloc;
pub mod devices;
pub mod text;

