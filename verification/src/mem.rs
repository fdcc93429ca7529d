//! The per-task address space, modelled as owned data.
//!
//! The page-table machinery itself is an external collaborator of this
//! kernel core; what the scheduler and the process lifecycle rely on is
//! modelled here directly: the bytes a task's mapping holds, the trap-frame
//! page inside it, and the activation token that identifies the mapping to
//! the hardware. Programs are placed at a fixed base address, so loading
//! checks only that the image carries the loadable-image magic.

use vstd::prelude::*;
use crate::config::{APP_BASE_ADDRESS, USER_STACK_TOP};
use crate::trap_context::TrapContext;

verus! {

/// Why a program image could not be loaded.
#[derive(Clone, Copy, PartialEq, Eq, Structural, Debug)]
pub enum LoadError {
    /// The image is shorter than its magic number.
    TooShort,
    /// The image does not begin with the loadable-image magic.
    BadMagic,
}

/// An image is loadable when it begins with the four magic bytes.
pub open spec fn loadable(image: Seq<u8>) -> bool {
    &&& image.len() >= 4
    &&& image[0] == 0x7f
    &&& image[1] == 0x45
    &&& image[2] == 0x4c
    &&& image[3] == 0x46
}

/// The virtual-memory mapping owned by exactly one task: the user data it
/// maps, the trap-frame page, and the activation token the hardware uses to
/// select it.
pub struct MemorySet {
    /// Contents of the task's user memory.
    pub data: Vec<u8>,
    /// The user-mode register snapshot, held in the trap-frame page of this
    /// mapping.
    pub trap_cx: TrapContext,
    /// Opaque activation token identifying this mapping to the hardware.
    pub token: usize,
}

/// Decides whether an image is loadable, and if not, why. Succeeds exactly
/// on the loadable images.
pub fn check_image(elf_data: &[u8]) -> (r: Result<(), LoadError>)
    ensures
        r is Ok <==> loadable(elf_data@),
        r matches Err(e) ==> (e is TooShort <==> elf_data@.len() < 4),
{
    if elf_data.len() < 4 {
        return Err(LoadError::TooShort);
    }
    if !(elf_data[0] == 0x7f && elf_data[1] == 0x45 && elf_data[2] == 0x4c
        && elf_data[3] == 0x46) {
        return Err(LoadError::BadMagic);
    }
    Ok(())
}

impl MemorySet {
    /// Builds a fresh address space from a loadable program image: the
    /// image's bytes become the user data, the trap-frame page is mapped and
    /// zeroed, and the given token identifies the mapping. Also yields the
    /// initial user stack top and the program entry point. Callers surface
    /// a failure on other images by testing the image first.
    pub fn from_elf(elf_data: &[u8], token: usize) -> (r: (MemorySet, usize, usize))
        requires
            loadable(elf_data@),
        ensures
            r.0.data@ == elf_data@,
            r.0.token == token,
            r.0.trap_cx.wf(),
            r.1 == USER_STACK_TOP,
            r.2 == APP_BASE_ADDRESS,
    {
        let data = copy_bytes(elf_data);
        let trap_cx = TrapContext::app_init_context(0, 0, 0, 0, 0);
        (MemorySet { data, trap_cx, token }, USER_STACK_TOP, APP_BASE_ADDRESS)
    }

    /// Duplicates an existing user address space for a child task: a deep,
    /// independent copy of the user data and of the trap frame, under a new
    /// token. Mutating either copy afterwards cannot affect the other, since
    /// each task owns its mapping exclusively.
    pub fn from_existing_user(user_space: &MemorySet, token: usize) -> (r: MemorySet)
        requires
            user_space.trap_cx.wf(),
        ensures
            r.data@ == user_space.data@,
            r.trap_cx@ == user_space.trap_cx@,
            r.token == token,
            r.trap_cx.wf(),
    {
        let x = copy_words(&user_space.trap_cx.x);
        let trap_cx = TrapContext {
            x,
            from_user: user_space.trap_cx.from_user,
            sepc: user_space.trap_cx.sepc,
            kernel_satp: user_space.trap_cx.kernel_satp,
            kernel_sp: user_space.trap_cx.kernel_sp,
            trap_handler: user_space.trap_cx.trap_handler,
        };
        let data = copy_bytes(user_space.data.as_slice());
        MemorySet { data, trap_cx, token }
    }

    /// The activation token of this mapping.
    pub fn get_token(&self) -> (r: usize)
        ensures
            r == self.token,
    {
        self.token
    }

    /// The physical page backing the trap-frame region. Each mapping has its
    /// own frame; the token stands for it in this model.
    pub fn trap_context_ppn(&self) -> (r: usize)
        ensures
            r == self.token,
    {
        self.token
    }

    /// Releases the reclaimable user data of this mapping at once, keeping
    /// the record itself (and with it the trap frame and token) until the
    /// task is reaped.
    pub fn recycle_data_pages(&mut self)
        ensures
            final(self).data@.len() == 0,
            final(self).trap_cx@ == old(self).trap_cx@,
            final(self).token == old(self).token,
    {
        self.data = Vec::new();
    }

    /// Reads one byte of the task's user memory.
    pub fn read_byte(&self, offset: usize) -> (r: u8)
        requires
            offset < self.data@.len(),
        ensures
            r == self.data@[offset as int],
    {
        self.data[offset]
    }

    /// Writes one byte of the task's user memory.
    pub fn write_byte(&mut self, offset: usize, value: u8)
        requires
            offset < old(self).data@.len(),
        ensures
            final(self).data@ == old(self).data@.update(offset as int, value),
            final(self).trap_cx@ == old(self).trap_cx@,
            final(self).token == old(self).token,
    {
        self.data[offset] = value;
    }
}

/// Copies a byte slice into fresh owned storage.
pub(crate) fn copy_bytes(src: &[u8]) -> (r: Vec<u8>)
    ensures
        r@ == src@,
{
    let mut r: Vec<u8> = Vec::new();
    let mut i: usize = 0;
    while i < src.len()
        invariant
            i <= src@.len(),
            r@.len() == i,
            forall|j: int| 0 <= j < i ==> r@[j] == src@[j],
        decreases src@.len() - i,
    {
        r.push(src[i]);
        i = i + 1;
    }
    proof {
        assert(r@ =~= src@);
    }
    r
}

/// Copies a vector of machine words into fresh owned storage.
pub(crate) fn copy_words(src: &Vec<usize>) -> (r: Vec<usize>)
    ensures
        r@ == src@,
{
    let mut r: Vec<usize> = Vec::new();
    let mut i: usize = 0;
    while i < src.len()
        invariant
            i <= src@.len(),
            r@.len() == i,
            forall|j: int| 0 <= j < i ==> r@[j] == src@[j],
        decreases src@.len() - i,
    {
        r.push(src[i]);
        i = i + 1;
    }
    proof {
        assert(r@ =~= src@);
    }
    r
}

} // verus!
