//! The identifier counter: one number in a segment of its own.
//!
//! Every new record takes the number that follows the one stored, so
//! identifiers rise by one and are never given twice, whichever table the
//! record goes to.

use crate::error::{Error, ErrorView};
use crate::segment::{Region, Segment};
use ic_stable_structures::memory_manager::VirtualMemory;
use ic_stable_structures::{Cell, DefaultMemoryImpl};
use vstd::prelude::*;

verus! {

/// A cell of `ic_stable_structures` that holds one `u64`.
#[verifier::external_body]
pub struct IdCell {
    inner: Cell<u64, VirtualMemory<DefaultMemoryImpl>>,
}

/// The number that a cell holds.
pub uninterp spec fn cell_value(c: IdCell) -> u64;

/// `Cell::init`: the cell that the region holds, or a new one that holds
/// `start` where the region holds none; `None` where the cell found cannot be
/// read, or the new one cannot be written. Nothing is stated of the number
/// found.
#[verifier::external_body]
fn cell_init(region: Region, start: u64) -> (r: Option<IdCell>) {
    match Cell::init(region.inner, start) {
        Ok(inner) => Some(IdCell { inner }),
        Err(_) => None,
    }
}

/// `Cell::get`: the number that the cell holds.
#[verifier::external_body]
fn cell_get(c: &IdCell) -> (v: u64)
    ensures
        v == cell_value(*c),
{
    *c.inner.get()
}

/// `Cell::set`: where the write succeeds the cell holds `v`; where it fails
/// the cell holds what it held.
#[verifier::external_body]
fn cell_set(c: &mut IdCell, v: u64) -> (written: bool)
    ensures
        written ==> cell_value(*final(c)) == v,
        !written ==> cell_value(*final(c)) == cell_value(*old(c)),
{
    c.inner.set(v).is_ok()
}

/// The text of a counter that could not be attached.
pub open spec fn attach_failed_text() -> Seq<char> {
    "Cannot create a counter"@
}

/// The text of a counter that could not be advanced.
pub open spec fn increment_failed_text() -> Seq<char> {
    "Cannot increment id counter"@
}

/// The outcome of advancing a counter that holds `current`: the new number
/// where there is one and it was written, else the failure.
pub open spec fn increment_outcome(current: u64, written: bool) -> Result<u64, ErrorView> {
    if current < u64::MAX && written {
        Ok((current + 1) as u64)
    } else {
        Err(ErrorView::InvalidInput { msg: increment_failed_text() })
    }
}

/// Whether the counter never goes back along `history`, the numbers that it
/// held before and after each of a run of operations.
pub open spec fn never_goes_back(history: Seq<u64>) -> bool {
    forall|i: int| 0 <= i < history.len() - 1 ==> #[trigger] history[i] <= history[i + 1]
}

/// Whether the operation `i` of `history` gave out an identifier: the
/// counter went up by one, to that identifier.
pub open spec fn gave_out(history: Seq<u64>, i: int) -> bool {
    0 <= i < history.len() - 1 && history[i + 1] == history[i] + 1
}

proof fn lemma_rises(history: Seq<u64>, i: int, j: int)
    requires
        never_goes_back(history),
        0 <= i <= j < history.len(),
    ensures
        history[i] <= history[j],
    decreases j - i,
{
    if i < j {
        lemma_rises(history, i, j - 1);
        assert(history[j - 1] <= history[j - 1 + 1]);
    }
}

/// Identifiers rise: of two operations that each gave out an identifier, the
/// later gave out the greater one, whatever went on between them and
/// whichever tables the records went to. So none is given out twice.
pub proof fn lemma_identifiers_rise(history: Seq<u64>, i: int, j: int)
    requires
        never_goes_back(history),
        gave_out(history, i),
        gave_out(history, j),
        i < j,
    ensures
        history[i + 1] < history[j + 1],
{
    lemma_rises(history, i + 1, j);
}

/// The identifier counter of a store.
pub struct IdCounter {
    handle: u8,
    cell: IdCell,
}

impl IdCounter {
    /// The number of the segment that holds the counter.
    pub closed spec fn handle(&self) -> u8 {
        self.handle
    }

    /// The number that the counter holds: the last identifier given, or 0.
    pub closed spec fn value(&self) -> u64 {
        cell_value(self.cell)
    }

    /// The counter that `segment` holds; one that starts at 0 where the
    /// segment holds none. It fails where the segment cannot be read.
    pub fn attach(segment: Segment) -> (r: Result<IdCounter, Error>)
        ensures
            match r {
                Ok(counter) => counter.handle() == segment.handle(),
                Err(e) => e@ == (ErrorView::InvalidInput { msg: attach_failed_text() }),
            },
    {
        let (handle, region) = segment.into_region();
        match cell_init(region, 0) {
            Some(cell) => Ok(IdCounter { handle, cell }),
            None => Err(Error::invalid_input("Cannot create a counter")),
        }
    }

    /// The number of the segment that holds the counter.
    pub fn segment(&self) -> (n: u8)
        ensures
            n == self.handle(),
    {
        self.handle
    }

    /// The number that the counter holds.
    pub fn read(&self) -> (v: u64)
        ensures
            v == self.value(),
    {
        cell_get(&self.cell)
    }

    /// What advancing a counter that holds `current` gives, once the write
    /// of the next number has succeeded or failed.
    pub fn settle(current: u64, written: bool) -> (r: Result<u64, Error>)
        ensures
            match r {
                Ok(id) => increment_outcome(current, written) == Ok::<u64, ErrorView>(id),
                Err(e) => increment_outcome(current, written) == Err::<u64, ErrorView>(e@),
            },
    {
        if current < u64::MAX && written {
            Ok(current + 1)
        } else {
            Err(Error::invalid_input("Cannot increment id counter"))
        }
    }

    /// Advances the counter by one and gives the new number. Where the
    /// counter is at its greatest number, or the write fails, the counter
    /// keeps its number and the failure is returned.
    pub fn increment_and_get(&mut self) -> (r: Result<u64, Error>)
        ensures
            final(self).handle() == old(self).handle(),
            match r {
                Ok(id) => {
                    &&& old(self).value() < u64::MAX
                    &&& id == old(self).value() + 1
                    &&& final(self).value() == id
                },
                Err(e) => {
                    &&& final(self).value() == old(self).value()
                    &&& e@ == (ErrorView::InvalidInput { msg: increment_failed_text() })
                },
            },
            old(self).value() == u64::MAX ==> r.is_err(),
    {
        let current = cell_get(&self.cell);
        if current == u64::MAX {
            return IdCounter::settle(current, false);
        }
        let written = cell_set(&mut self.cell, current + 1);
        IdCounter::settle(current, written)
    }
}

} // verus!
