//! The trap frame: the user-mode register snapshot taken on trap entry.

use vstd::prelude::*;

verus! {

/// Fixed-layout snapshot of user-mode state, stored in a task's address
/// space. The entry stub saves the general-purpose registers and the faulting
/// program counter here; the kernel-side fields let the stub re-enter the
/// kernel safely from user mode.
pub struct TrapContext {
    /// The 32 general-purpose registers x0..x31.
    pub x: Vec<usize>,
    /// Whether the trap came from user privilege; set when the frame is
    /// built so trap return drops back to user mode.
    pub from_user: bool,
    /// Saved program counter: the instruction to resume at on trap return.
    pub sepc: usize,
    /// Activation token of the kernel's own address space.
    pub kernel_satp: usize,
    /// Top of the owning task's kernel stack, loaded on trap entry.
    pub kernel_sp: usize,
    /// Address of the kernel's trap dispatcher.
    pub trap_handler: usize,
}

/// The mathematical value of a trap frame: its registers as a sequence plus
/// the saved and kernel-side fields.
pub ghost struct TrapContextView {
    pub x: Seq<usize>,
    pub from_user: bool,
    pub sepc: usize,
    pub kernel_satp: usize,
    pub kernel_sp: usize,
    pub trap_handler: usize,
}

impl View for TrapContext {
    type V = TrapContextView;

    open spec fn view(&self) -> TrapContextView {
        TrapContextView {
            x: self.x@,
            from_user: self.from_user,
            sepc: self.sepc,
            kernel_satp: self.kernel_satp,
            kernel_sp: self.kernel_sp,
            trap_handler: self.trap_handler,
        }
    }
}

impl TrapContext {
    /// The frame holds exactly the 32 general-purpose registers.
    pub open spec fn wf(&self) -> bool {
        self.x@.len() == 32
    }

    /// The initial frame of a freshly loaded program: all registers zero but
    /// for the stack pointer (x2), resuming at the program's entry point.
    pub fn app_init_context(
        entry: usize,
        sp: usize,
        kernel_satp: usize,
        kernel_sp: usize,
        trap_handler: usize,
    ) -> (r: TrapContext)
        ensures
            r.wf(),
            r.x@[2] == sp,
            forall|i: int| 0 <= i < 32 && i != 2 ==> r.x@[i] == 0,
            r.from_user,
            r.sepc == entry,
            r.kernel_satp == kernel_satp,
            r.kernel_sp == kernel_sp,
            r.trap_handler == trap_handler,
    {
        let mut x: Vec<usize> = Vec::new();
        let mut i: usize = 0;
        while i < 32
            invariant
                i <= 32,
                x@.len() == i,
                forall|j: int| 0 <= j < i ==> x@[j] == 0,
            decreases 32 - i,
        {
            x.push(0);
            i = i + 1;
        }
        x[2] = sp;
        TrapContext { x, from_user: true, sepc: entry, kernel_satp, kernel_sp, trap_handler }
    }
}

} // verus!
