//! The segments of the one linear memory.
//!
//! The memory is divided into numbered regions that grow independently of
//! each other. An [`Allocator`] hands each number out once, so that no two
//! structures of one store are built over the same region.
//!
//! The memory is that of `ic_stable_structures`, and what is said here of the
//! structures in it is said of a memory that only they have written, and of
//! one allocator for each memory: the memory manager, the cell and the map
//! panic on an image that they cannot read.

use crate::error::{Error, ErrorView};
use ic_stable_structures::memory_manager::{MemoryId, MemoryManager, VirtualMemory};
use ic_stable_structures::DefaultMemoryImpl;
use vstd::prelude::*;

verus! {

/// The number of the segment that holds the identifier counter.
pub const COUNTER_SEGMENT: u8 = 0;

/// The number of the segment that holds the vehicles.
pub const CAR_SEGMENT: u8 = 1;

/// The number of the segment that holds the rental requests.
pub const RENTAL_SEGMENT: u8 = 2;

/// The number that names no segment: the memory manager marks free buckets
/// with it.
pub const NO_SEGMENT: u8 = 255;

/// The memory manager of `ic_stable_structures` over the default memory.
#[verifier::external_body]
pub struct Manager {
    inner: MemoryManager<DefaultMemoryImpl>,
}

/// One virtual memory of the memory manager.
#[verifier::external_body]
pub struct Region {
    pub(crate) inner: VirtualMemory<DefaultMemoryImpl>,
}

/// `MemoryManager::init` on `DefaultMemoryImpl::default()`: the manager of
/// the default memory, which finds the segments that the memory holds, or
/// lays the memory out anew where it holds none. Nothing is stated of what
/// the memory holds.
#[verifier::external_body]
fn manager_init() -> (m: Manager) {
    Manager { inner: MemoryManager::init(DefaultMemoryImpl::default()) }
}

/// `MemoryManager::get` on `MemoryId::new(handle)`: the virtual memory with
/// that number. `MemoryId::new` panics on 255, which is left out.
#[verifier::external_body]
fn manager_get(m: &Manager, handle: u8) -> (r: Region)
    requires
        handle != NO_SEGMENT,
{
    Region { inner: m.inner.get(MemoryId::new(handle)) }
}

/// A segment that was handed out, with its number.
pub struct Segment {
    handle: u8,
    region: Region,
}

impl Segment {
    /// The number of the segment.
    pub closed spec fn handle(&self) -> u8 {
        self.handle
    }

    /// The number of the segment.
    pub fn number(&self) -> (n: u8)
        ensures
            n == self.handle(),
    {
        self.handle
    }

    pub(crate) fn into_region(self) -> (r: (u8, Region))
        ensures
            r.0 == self.handle(),
    {
        (self.handle, self.region)
    }
}

/// Hands out the segments of one memory, each at most once.
pub struct Allocator {
    manager: Manager,
    taken: Vec<bool>,
}

impl Allocator {
    /// The allocator keeps one mark for each segment number.
    pub closed spec fn wf(&self) -> bool {
        self.taken@.len() == NO_SEGMENT as nat
    }

    /// The numbers that were handed out.
    pub closed spec fn claimed(&self) -> Set<u8> {
        Set::new(|h: u8| h < self.taken@.len() && self.taken@[h as int])
    }

    /// An allocator over the default memory, with no segment handed out yet.
    /// Where the default memory is the one memory of the process, build one
    /// allocator only.
    pub fn new() -> (a: Allocator)
        ensures
            a.wf(),
            a.claimed() == Set::<u8>::empty(),
    {
        let mut taken: Vec<bool> = Vec::new();
        let mut i: u8 = 0;
        while i < NO_SEGMENT
            invariant
                i <= NO_SEGMENT,
                taken@.len() == i as nat,
                forall|j: int| 0 <= j < taken@.len() ==> !taken@[j],
            decreases NO_SEGMENT - i,
        {
            taken.push(false);
            i = i + 1;
        }
        let a = Allocator { manager: manager_init(), taken };
        assert(a.claimed() =~= Set::<u8>::empty());
        a
    }

    /// Whether the segment `handle` was handed out.
    pub fn is_claimed(&self, handle: u8) -> (b: bool)
        requires
            self.wf(),
        ensures
            b == self.claimed().contains(handle),
    {
        handle != NO_SEGMENT && self.taken[handle as usize]
    }

    /// Hands out the segment `handle`. It fails, and changes nothing, where
    /// `handle` names no segment or the segment was handed out before.
    pub fn claim(&mut self, handle: u8) -> (r: Result<Segment, Error>)
        requires
            old(self).wf(),
        ensures
            final(self).wf(),
            match r {
                Ok(segment) => {
                    &&& handle != NO_SEGMENT
                    &&& !old(self).claimed().contains(handle)
                    &&& segment.handle() == handle
                    &&& final(self).claimed() == old(self).claimed().insert(handle)
                },
                Err(e) => {
                    &&& handle == NO_SEGMENT || old(self).claimed().contains(handle)
                    &&& final(self).claimed() == old(self).claimed()
                    &&& e@ == (ErrorView::InvalidInput { msg: "Segment is not available"@ })
                },
            },
    {
        if handle == NO_SEGMENT || self.taken[handle as usize] {
            return Err(Error::invalid_input("Segment is not available"));
        }
        self.taken.set(handle as usize, true);
        let region = manager_get(&self.manager, handle);
        assert(self.claimed() =~= old(self).claimed().insert(handle));
        Ok(Segment { handle, region })
    }
}

} // verus!
