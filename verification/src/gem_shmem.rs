//! GEM objects backed by pageable memory: their size, line length, mmap
//! node, and which page a mapping fault needs.
use vstd::prelude::*;
use crate::error::{DrmError, Errno};
use crate::vma_manager::{DrmVmaOffsetNode, PAGE_SIZE};

verus! {

/// A GEM object whose pages live in a memory object held by the caller.
pub struct DrmGemShmemObject {
    size: usize,
    pitch: u32,
    vma_node: DrmVmaOffsetNode,
}

/// The size of the pages that cover `size` bytes.
pub open spec fn mapped_size_spec(size: usize) -> int {
    (size / PAGE_SIZE + if size % PAGE_SIZE != 0 { 1int } else { 0int }) * PAGE_SIZE
}

/// Which page a fault at byte `offset` of an object of `size` bytes maps:
/// the offset must be page-aligned and inside the pages of the object.
pub open spec fn map_page_spec(size: usize, offset: usize) -> Result<usize, DrmError> {
    if offset % PAGE_SIZE != 0 {
        Err(DrmError::Invalid)
    } else if mapped_size_spec(size) > usize::MAX {
        Err(DrmError::NoMemory)
    } else if offset >= mapped_size_spec(size) {
        Err(DrmError::Invalid)
    } else {
        Ok((offset / PAGE_SIZE) as usize)
    }
}

impl DrmGemShmemObject {
    pub closed spec fn spec_size(&self) -> usize {
        self.size
    }

    pub closed spec fn spec_pitch(&self) -> u32 {
        self.pitch
    }

    pub closed spec fn spec_vma_node(&self) -> DrmVmaOffsetNode {
        self.vma_node
    }

    /// An object of `size` bytes with lines of `pitch` bytes and a fresh,
    /// unplaced mmap node.
    pub fn new(size: usize, pitch: u32) -> (o: Self)
        ensures
            o.spec_size() == size,
            o.spec_pitch() == pitch,
            o.spec_vma_node().wf(),
            o.spec_vma_node().allocation_spec() is None,
            o.spec_vma_node().allowed_spec() == Map::<u32, usize>::empty(),
    {
        DrmGemShmemObject { size, pitch, vma_node: DrmVmaOffsetNode::new() }
    }

    pub fn size(&self) -> (v: usize)
        ensures
            v == self.spec_size(),
    {
        self.size
    }

    pub fn pitch(&self) -> (v: u32)
        ensures
            v == self.spec_pitch(),
    {
        self.pitch
    }

    pub fn vma_node(&self) -> (n: &DrmVmaOffsetNode)
        ensures
            *n == self.spec_vma_node(),
    {
        &self.vma_node
    }

    /// The mmap node, to be placed in or taken out of the offset space.
    pub fn vma_node_mut(&mut self) -> (n: &mut DrmVmaOffsetNode)
        ensures
            *n == old(self).spec_vma_node(),
            final(self).spec_vma_node() == *final(n),
            final(self).spec_size() == old(self).spec_size(),
            final(self).spec_pitch() == old(self).spec_pitch(),
    {
        &mut self.vma_node
    }

    /// The index of the page a mapping fault at `offset` needs.
    pub fn map_page(&self, offset: usize) -> (r: Result<usize, DrmError>)
        ensures
            r == map_page_spec(self.spec_size(), offset),
    {
        if offset % PAGE_SIZE != 0 {
            return Err(DrmError::Invalid);
        }
        let pages = self.size / PAGE_SIZE + if self.size % PAGE_SIZE != 0 {
            1
        } else {
            0
        };
        let mapped_size = match pages.checked_mul(PAGE_SIZE) {
            Some(m) => m,
            None => {
                return Err(DrmError::NoMemory);
            },
        };
        if offset >= mapped_size {
            return Err(DrmError::Invalid);
        }
        Ok(offset / PAGE_SIZE)
    }
}

/// What a failure to commit a page is reported as.
pub open spec fn commit_error_spec(e: Errno) -> DrmError {
    match e {
        Errno::EINVAL => DrmError::Invalid,
        Errno::ENOMEM => DrmError::NoMemory,
        Errno::EBUSY => DrmError::Busy,
        Errno::EIO => DrmError::Busy,
        _ => DrmError::NoMemory,
    }
}

/// Maps a failure to commit a page of the memory object to a DRM error.
pub fn commit_error(e: Errno) -> (r: DrmError)
    ensures
        r == commit_error_spec(e),
{
    match e {
        Errno::EINVAL => DrmError::Invalid,
        Errno::ENOMEM => DrmError::NoMemory,
        Errno::EBUSY => DrmError::Busy,
        Errno::EIO => DrmError::Busy,
        _ => DrmError::NoMemory,
    }
}

} // verus!
