//! Task management and trap-driven scheduling for a single-hart teaching
//! kernel: task control blocks, PID and kernel-stack allocation, a FIFO ready
//! queue, a processor abstraction with the current-task slot, and a trap
//! dispatcher that routes system calls, faults and timer interrupts into
//! scheduling decisions.
//!
//! Hardware access (control registers, the register-level context switch, the
//! timer) lives outside this library; the functions here state and prove what
//! each event does to the kernel's state.

pub mod config;
pub mod context;
pub mod kernel;
pub mod manager;
pub mod mem;
pub mod pid;
pub mod processor;
pub mod task;
pub mod trap;
pub mod trap_context;
