//! A cell that many handles share and any of them may change. Every access
//! is checked, at the moment it is made, against the accesses that are open:
//! one that would overlap them is refused.

use vstd::prelude::*;

verus! {

/// The failure of an access that would overlap one that is still open: a
/// second exclusive access, or an exclusive one beside a shared one.
#[derive(Clone, Copy, Debug, PartialEq, Eq, Structural)]
pub struct AliasingViolation;

/// What a cell is at one moment: its value and the accesses that are open.
pub struct CellState {
    pub value: int,
    pub readers: nat,
    pub writing: bool,
}

impl CellState {
    /// A cell as it is created: zero, with no access open.
    pub open spec fn fresh() -> CellState {
        CellState { value: 0, readers: 0, writing: false }
    }

    /// No access is open.
    pub open spec fn idle(self) -> bool {
        !self.writing && self.readers == 0
    }

    /// The cell after an increment, which needs the cell to itself.
    pub open spec fn try_increment(self) -> Option<CellState> {
        if self.idle() {
            Some(CellState { value: self.value + 1, ..self })
        } else {
            None
        }
    }

    /// The value that a read gives, which no exclusive access may overlap.
    pub open spec fn try_read(self) -> Option<int> {
        if self.writing {
            None
        } else {
            Some(self.value)
        }
    }

    /// The cell once an exclusive access is opened, which needs the cell to
    /// itself.
    pub open spec fn try_open_exclusive(self) -> Option<CellState> {
        if self.idle() {
            Some(CellState { writing: true, ..self })
        } else {
            None
        }
    }

    /// The cell once its exclusive access, if any, is closed.
    pub open spec fn close_exclusive(self) -> CellState {
        CellState { writing: false, ..self }
    }

    /// The cell once one more shared access is opened, which no exclusive
    /// access may overlap.
    pub open spec fn try_open_shared(self) -> Option<CellState> {
        if self.writing {
            None
        } else {
            Some(CellState { readers: self.readers + 1, ..self })
        }
    }

    /// The cell once one of its shared accesses, if any, is closed.
    pub open spec fn close_shared(self) -> CellState {
        if self.readers > 0 {
            CellState { readers: (self.readers - 1) as nat, ..self }
        } else {
            self
        }
    }

    /// The cell after `times` increments in a row, as long as none is
    /// refused.
    pub open spec fn try_increments(self, times: nat) -> Option<CellState>
        decreases times,
    {
        if times == 0 {
            Some(self)
        } else {
            match self.try_increments((times - 1) as nat) {
                Some(before) => before.try_increment(),
                None => None,
            }
        }
    }

    /// Increments add up: on a cell with no access open none of `times`
    /// increments in a row is refused, and a read then gives a value that is
    /// `times` higher.
    pub proof fn lemma_increments_add_up(self, times: nat)
        requires
            self.idle(),
        ensures
            self.try_increments(times) == Some(CellState { value: self.value + times, ..self }),
            self.try_increments(times).unwrap().try_read() == Some(self.value + times),
        decreases times,
    {
        if times > 0 {
            self.lemma_increments_add_up((times - 1) as nat);
        }
    }

    /// A fresh cell counts its increments: after `times` of them in a row a
    /// read gives `times`.
    pub proof fn lemma_fresh_cell_counts_increments(times: nat)
        ensures
            CellState::fresh().try_increments(times) is Some,
            CellState::fresh().try_increments(times).unwrap().try_read() == Some(times as int),
    {
        CellState::fresh().lemma_increments_add_up(times);
    }

    /// While an exclusive access is open, every other access is refused: a
    /// second exclusive one, an increment, a read and a shared one.
    pub proof fn lemma_exclusive_access_excludes(self)
        requires
            self.writing,
        ensures
            self.try_open_exclusive() is None,
            self.try_increment() is None,
            self.try_read() is None,
            self.try_open_shared() is None,
    {
    }

    /// An exclusive access that is opened and closed again leaves the cell
    /// as it was. In between an increment is refused and the value stays;
    /// afterwards an increment succeeds and adds exactly one.
    pub proof fn lemma_cell_works_after_exclusive_access(self)
        requires
            self.idle(),
        ensures
            self.try_open_exclusive() is Some,
            self.try_open_exclusive().unwrap().value == self.value,
            self.try_open_exclusive().unwrap().try_increment() is None,
            self.try_open_exclusive().unwrap().close_exclusive() == self,
            self.try_increment() == Some(CellState { value: self.value + 1, ..self }),
    {
    }

    /// While a shared access is open, reads and further shared accesses go
    /// on, and whatever would change the cell is refused.
    pub proof fn lemma_shared_access_excludes_change(self)
        requires
            !self.writing,
            self.readers > 0,
        ensures
            self.try_open_exclusive() is None,
            self.try_increment() is None,
            self.try_read() == Some(self.value),
            self.try_open_shared() is Some,
    {
    }
}

// A cell as it is stored.
struct Slot {
    value: i32,
    readers: usize,
    writing: bool,
}

impl Slot {
    spec fn state(self) -> CellState {
        CellState { value: self.value as int, readers: self.readers as nat, writing: self.writing }
    }
}

/// The cells that counters share. A counter is a handle on one of them, and
/// every access to a cell goes through the store, which checks it against
/// the accesses that are open at that moment.
pub struct CounterCells {
    slots: Vec<Slot>,
}

impl View for CounterCells {
    type V = Seq<CellState>;

    /// The cells in order of creation.
    closed spec fn view(&self) -> Seq<CellState> {
        Seq::new(self.slots@.len(), |slot: int| self.slots@[slot].state())
    }
}

impl CounterCells {
    /// A store without cells.
    pub fn new() -> (cells: CounterCells)
        ensures
            cells@ == Seq::<CellState>::empty(),
    {
        CounterCells { slots: Vec::new() }
    }

    /// The cell at `slot` is one of this store.
    pub open spec fn has(self, slot: int) -> bool {
        0 <= slot < self@.len()
    }

    /// Whether the cell of `counter` is one of this store.
    pub fn holds(&self, counter: &Counter) -> (held: bool)
        ensures
            held == self.has(counter.slot()),
    {
        counter.slot < self.slots.len()
    }
}

/// A handle on a cell that holds a count. Any number of handles may share one
/// cell; what one of them does to it, all of them see. A handle means
/// something only to the store that made its cell.
pub struct Counter {
    slot: usize,
}

impl Counter {
    /// The place in the store of the cell that this handle refers to.
    pub closed spec fn slot(self) -> int {
        self.slot as int
    }

    /// Handles that share a cell see what either of them does to it: after
    /// an increment through one, a read through either gives one more, and
    /// the store has no cell more than before.
    pub proof fn lemma_sharing_handles_see_one_cell(
        self,
        other: Counter,
        cells: Seq<CellState>,
    )
        requires
            other == self,
            0 <= self.slot() < cells.len(),
            cells[self.slot()].idle(),
        ensures
            cells[self.slot()].try_increment() matches Some(raised) && ({
                let after = cells.update(self.slot(), raised);
                &&& after.len() == cells.len()
                &&& after[self.slot()].try_read() == Some(cells[self.slot()].value + 1)
                &&& after[other.slot()].try_read() == Some(cells[other.slot()].value + 1)
            }),
    {
    }

    /// Creates a cell that holds zero and returns a handle on it.
    pub fn new(cells: &mut CounterCells) -> (counter: Counter)
        ensures
            final(cells)@ == old(cells)@.push(CellState::fresh()),
            counter.slot() == old(cells)@.len(),
    {
        let slot = cells.slots.len();
        cells.slots.push(Slot { value: 0, readers: 0, writing: false });
        Counter { slot }
    }

    /// Another handle on the same cell. Nothing of the cell is copied.
    pub fn share(&self) -> (shared: Counter)
        ensures
            shared == *self,
    {
        Counter { slot: self.slot }
    }

    /// Adds one to the cell under an exclusive access of its own, opened and
    /// closed within the call. While any other access to the cell is open
    /// this fails and leaves the cell as it is.
    pub fn increment(&self, cells: &mut CounterCells) -> (outcome: Result<(), AliasingViolation>)
        requires
            old(cells).has(self.slot()),
            old(cells)@[self.slot()].idle() ==> old(cells)@[self.slot()].value < i32::MAX,
        ensures
            outcome is Ok <==> old(cells)@[self.slot()].try_increment() is Some,
            final(cells)@ == match old(cells)@[self.slot()].try_increment() {
                Some(raised) => old(cells)@.update(self.slot(), raised),
                None => old(cells)@,
            },
    {
        let cell = &cells.slots[self.slot];
        if cell.writing || cell.readers > 0 {
            return Err(AliasingViolation);
        }
        let raised = Slot { value: cell.value + 1, readers: cell.readers, writing: cell.writing };
        cells.slots.set(self.slot, raised);
        Ok(())
    }

    /// Reads the cell under a shared access of its own. While an exclusive
    /// access to the cell is open this fails.
    pub fn get(&self, cells: &CounterCells) -> (outcome: Result<i32, AliasingViolation>)
        requires
            cells.has(self.slot()),
        ensures
            outcome is Ok <==> cells@[self.slot()].try_read() is Some,
            outcome matches Ok(value) ==> cells@[self.slot()].try_read() == Some(value as int),
    {
        let cell = &cells.slots[self.slot];
        if cell.writing {
            return Err(AliasingViolation);
        }
        Ok(cell.value)
    }

    /// Opens an exclusive access to the cell and leaves it open. While any
    /// other access to the cell is open this fails and leaves the cell as it
    /// is.
    pub fn open_exclusive(&self, cells: &mut CounterCells) -> (outcome: Result<
        (),
        AliasingViolation,
    >)
        requires
            old(cells).has(self.slot()),
        ensures
            outcome is Ok <==> old(cells)@[self.slot()].try_open_exclusive() is Some,
            final(cells)@ == match old(cells)@[self.slot()].try_open_exclusive() {
                Some(held) => old(cells)@.update(self.slot(), held),
                None => old(cells)@,
            },
    {
        let cell = &cells.slots[self.slot];
        if cell.writing || cell.readers > 0 {
            return Err(AliasingViolation);
        }
        let held = Slot { value: cell.value, readers: cell.readers, writing: true };
        cells.slots.set(self.slot, held);
        Ok(())
    }

    /// Closes the exclusive access to the cell. Where none is open nothing
    /// changes.
    pub fn close_exclusive(&self, cells: &mut CounterCells)
        requires
            old(cells).has(self.slot()),
        ensures
            final(cells)@ == old(cells)@.update(
                self.slot(),
                old(cells)@[self.slot()].close_exclusive(),
            ),
    {
        let cell = &cells.slots[self.slot];
        let freed = Slot { value: cell.value, readers: cell.readers, writing: false };
        cells.slots.set(self.slot, freed);
    }

    /// Opens one more shared access to the cell and leaves it open. While an
    /// exclusive access to the cell is open this fails and leaves the cell as
    /// it is.
    pub fn open_shared(&self, cells: &mut CounterCells) -> (outcome: Result<(), AliasingViolation>)
        requires
            old(cells).has(self.slot()),
            !old(cells)@[self.slot()].writing ==> old(cells)@[self.slot()].readers < usize::MAX,
        ensures
            outcome is Ok <==> old(cells)@[self.slot()].try_open_shared() is Some,
            final(cells)@ == match old(cells)@[self.slot()].try_open_shared() {
                Some(read) => old(cells)@.update(self.slot(), read),
                None => old(cells)@,
            },
    {
        let cell = &cells.slots[self.slot];
        if cell.writing {
            return Err(AliasingViolation);
        }
        let read = Slot { value: cell.value, readers: cell.readers + 1, writing: cell.writing };
        cells.slots.set(self.slot, read);
        Ok(())
    }

    /// Closes one shared access to the cell. Where none is open nothing
    /// changes.
    pub fn close_shared(&self, cells: &mut CounterCells)
        requires
            old(cells).has(self.slot()),
        ensures
            final(cells)@ == old(cells)@.update(
                self.slot(),
                old(cells)@[self.slot()].close_shared(),
            ),
    {
        let cell = &cells.slots[self.slot];
        if cell.readers > 0 {
            let read = Slot { value: cell.value, readers: cell.readers - 1, writing: cell.writing };
            cells.slots.set(self.slot, read);
        }
    }
}

} // verus!
