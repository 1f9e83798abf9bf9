//! Detecting a rewrite when the value may come back to what it was (the ABA
//! problem).
//!
//! Comparing a value with the one seen before misses a write that stores the
//! same value again. The writer here also raises a flag with every write, and
//! the reader lowers it when it reads; the flag, not the value, tells the
//! reader whether the cell was written since its last read.
//!
//! Each write and each read is one atomic step, taken under the lock that
//! guards the cell: a write stores the value and raises the flag together,
//! and a read takes the value and the flag and lowers the flag together, so
//! no write can fall between a read of the flag and its lowering.
use vstd::prelude::*;

verus! {

/// The state of the cell, as values.
pub struct CellState {
    /// The stored value.
    pub value: u8,
    /// Whether the cell was written since the last read.
    pub dirty: bool,
}

/// The cell after a write from the random `choice`: the value becomes
/// `choice % 2` and the flag is raised.
pub open spec fn written(s: CellState, choice: u64) -> CellState {
    CellState { value: (choice % 2) as u8, dirty: true }
}

/// The cell after a read: the flag is lowered.
pub open spec fn after_read(s: CellState) -> CellState {
    CellState { value: s.value, dirty: false }
}

/// A value with a flag that marks writes since the last read.
pub struct AbaCell {
    value: u8,
    dirty: bool,
}

impl View for AbaCell {
    type V = CellState;

    closed spec fn view(&self) -> CellState {
        CellState { value: self.value, dirty: self.dirty }
    }
}

impl AbaCell {
    /// A cell holding 0, not written yet.
    pub fn new() -> (c: AbaCell)
        ensures
            c@ == (CellState { value: 0, dirty: false }),
    {
        AbaCell { value: 0, dirty: false }
    }

    /// The writer stores `choice % 2` and raises the flag; returns the value
    /// stored.
    pub fn write(&mut self, choice: u64) -> (value: u8)
        ensures
            final(self)@ == written(old(self)@, choice),
            value == final(self)@.value,
            value as int == choice as int % 2,
            final(self)@.dirty,
    {
        let new_value: u8 = (choice % 2) as u8;
        self.value = new_value;
        self.dirty = true;
        new_value
    }

    /// The reader reads the value and learns whether it was rewritten since
    /// the last read; the flag is lowered.
    pub fn read(&mut self) -> (seen: (u8, bool))
        ensures
            seen.0 == old(self)@.value,
            seen.1 == old(self)@.dirty,
            final(self)@ == after_read(old(self)@),
            final(self)@.value == old(self)@.value,
            !final(self)@.dirty,
    {
        let read_value = self.value;
        let read_dirty = self.dirty;
        if read_dirty {
            self.dirty = false;
        }
        (read_value, read_dirty)
    }
}

/// A write stores the parity of the random choice: 1 for an odd choice, 0
/// for an even one, whatever the cell held before; two writes store the same
/// value exactly when their choices have the same parity. The write raises
/// the flag.
pub proof fn lemma_write_stores_parity(s: CellState, t: CellState, choice: u64, other: u64)
    ensures
        written(s, choice).value as int == choice as int % 2,
        written(s, choice).value == 1 <==> choice as int % 2 == 1,
        written(s, choice).value == 0 <==> choice as int % 2 == 0,
        written(s, choice).value == written(t, other).value <==> choice as int % 2 == other as int
            % 2,
        written(s, choice).dirty,
{
}

/// A read right after a write reports the rewrite, even when the write stored
/// the value that was there before.
pub proof fn lemma_read_sees_rewrite(s: CellState, choice: u64)
    ensures
        written(s, choice).dirty,
        after_read(written(s, choice)).value == written(s, choice).value,
{
}

/// A read right after a read, with no write between, reports no rewrite and
/// the same value.
pub proof fn lemma_second_read_clean(s: CellState)
    ensures
        !after_read(s).dirty,
        after_read(after_read(s)) == after_read(s),
{
}

} // verus!
