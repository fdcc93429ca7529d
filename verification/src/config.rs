//! Layout constants of the kernel's address-space model.

use vstd::prelude::*;

verus! {

/// Size of one page of memory, in bytes.
pub const PAGE_SIZE: usize = 4096;

/// Size of the kernel stack given to each task, in bytes.
pub const KERNEL_STACK_SIZE: usize = 8192;

/// The highest page of the address space, shared by every task, holding the
/// trap entry and return stubs.
pub const TRAMPOLINE: usize = usize::MAX - 4096 + 1;

/// Virtual address of the page holding a task's trap frame, directly below
/// the trampoline.
pub const TRAP_CONTEXT: usize = TRAMPOLINE - 4096;

/// Top of the user stack of every task in this model, below the trap frame.
pub const USER_STACK_TOP: usize = TRAMPOLINE - 4096 - 4096;

/// Virtual address at which program images are placed, and so the entry point
/// of every loaded program.
pub const APP_BASE_ADDRESS: usize = 0x10000;

/// Kernel-text address of the routine that restores a trap frame and returns
/// to user mode; freshly built task contexts resume here.
pub const TRAP_RETURN_ENTRY: usize = 0x8020_1000;

/// Kernel-text address of the trap dispatcher, recorded in every trap frame
/// so the entry stub can reach it.
pub const TRAP_HANDLER_ENTRY: usize = 0x8020_0000;

/// Upper bound on the number of PIDs the allocator will issue; keeps every
/// kernel-stack position inside the kernel's address range.
pub const MAX_TASKS: usize = 4096;

} // verus!
