//! A buffer that owns its storage. Handing it on moves it; a second copy
//! comes only from `duplicate`. Every allocation and every release is
//! counted in counters that the caller brings along.

use vstd::prelude::*;

verus! {

/// The count that follows `count`. Like the machine's counters it starts
/// again at zero after the largest value.
pub open spec fn next_count(count: usize) -> usize {
    if count == usize::MAX {
        0
    } else {
        (count + 1) as usize
    }
}

/// How many buffers were allocated and how many were released.
pub struct AllocationCounts {
    allocations: usize,
    deallocations: usize,
}

impl AllocationCounts {
    /// The number of buffers allocated since the last reset.
    pub closed spec fn allocations(self) -> usize {
        self.allocations
    }

    /// The number of buffers released since the last reset.
    pub closed spec fn deallocations(self) -> usize {
        self.deallocations
    }

    /// Counters that stand at zero.
    pub fn new() -> (counts: AllocationCounts)
        ensures
            counts.allocations() == 0,
            counts.deallocations() == 0,
    {
        AllocationCounts { allocations: 0, deallocations: 0 }
    }

    // Counts one allocation.
    fn allocated(&mut self)
        ensures
            final(self).allocations() == next_count(old(self).allocations()),
            final(self).deallocations() == old(self).deallocations(),
    {
        self.allocations = self.allocations.wrapping_add(1);
    }

    // Counts one release.
    fn released(&mut self)
        ensures
            final(self).allocations() == old(self).allocations(),
            final(self).deallocations() == next_count(old(self).deallocations()),
    {
        self.deallocations = self.deallocations.wrapping_add(1);
    }
}

/// A buffer of integers that owns its storage.
pub struct LargeBuffer {
    data: Vec<i32>,
}

impl View for LargeBuffer {
    type V = Seq<i32>;

    /// What the buffer holds.
    closed spec fn view(&self) -> Seq<i32> {
        self.data@
    }
}

impl LargeBuffer {
    /// Allocates a buffer of `size` zeros, and counts the allocation.
    pub fn new(size: usize, counts: &mut AllocationCounts) -> (buffer: LargeBuffer)
        ensures
            buffer@ == Seq::new(size as nat, |i: int| 0i32),
            final(counts).allocations() == next_count(old(counts).allocations()),
            final(counts).deallocations() == old(counts).deallocations(),
    {
        counts.allocated();
        LargeBuffer { data: vec![0; size] }
    }

    /// The number of integers that the buffer holds.
    pub fn size(&self) -> (size: usize)
        ensures
            size == self@.len(),
    {
        self.data.len()
    }

    /// The integer at `index`, if the buffer has that many.
    pub fn get(&self, index: usize) -> (value: Option<i32>)
        ensures
            value == if index < self@.len() {
                Some(self@[index as int])
            } else {
                None
            },
    {
        if index < self.data.len() {
            Some(self.data[index])
        } else {
            None
        }
    }

    /// Overwrites every integer of the buffer with `value`.
    pub fn fill(&mut self, value: i32)
        ensures
            final(self)@ == Seq::new(old(self)@.len(), |i: int| value),
    {
        let size = self.data.len();
        let mut done: usize = 0;
        while done < size
            invariant
                done <= size,
                self.data.len() == size,
                forall|i: int| 0 <= i < done ==> self.data[i] == value,
            decreases size - done,
        {
            self.data.set(done, value);
            done = done + 1;
        }
    }

    /// A second buffer with the same contents, counted as an allocation.
    pub fn duplicate(&self, counts: &mut AllocationCounts) -> (copy: LargeBuffer)
        ensures
            copy@ == self@,
            final(counts).allocations() == next_count(old(counts).allocations()),
            final(counts).deallocations() == old(counts).deallocations(),
    {
        counts.allocated();
        LargeBuffer { data: self.data.clone() }
    }

    /// Gives the buffer's storage back, and counts the release.
    pub fn release(self, counts: &mut AllocationCounts)
        ensures
            final(counts).allocations() == old(counts).allocations(),
            final(counts).deallocations() == next_count(old(counts).deallocations()),
    {
        counts.released();
    }

    /// The number of buffers allocated since the last reset.
    pub fn alloc_count(counts: &AllocationCounts) -> (count: usize)
        ensures
            count == counts.allocations(),
    {
        counts.allocations
    }

    /// The number of buffers released since the last reset.
    pub fn dealloc_count(counts: &AllocationCounts) -> (count: usize)
        ensures
            count == counts.deallocations(),
    {
        counts.deallocations
    }

    /// Sets both counters back to zero.
    pub fn reset_counts(counts: &mut AllocationCounts)
        ensures
            final(counts).allocations() == 0,
            final(counts).deallocations() == 0,
    {
        counts.allocations = 0;
        counts.deallocations = 0;
    }
}

/// Allocates a buffer of `size` integers, each of them 42, and hands it to
/// the caller: one allocation, no copy.
pub fn create_buffer(size: usize, counts: &mut AllocationCounts) -> (buffer: LargeBuffer)
    ensures
        buffer@ == Seq::new(size as nat, |i: int| 42i32),
        final(counts).allocations() == next_count(old(counts).allocations()),
        final(counts).deallocations() == old(counts).deallocations(),
{
    let mut buffer = LargeBuffer::new(size, counts);
    buffer.fill(42);
    buffer
}

/// Takes a buffer over, overwrites it with 100s and hands it back: nothing
/// is allocated and nothing is released.
pub fn process_buffer(buf: LargeBuffer) -> (processed: LargeBuffer)
    ensures
        processed@ == Seq::new(buf@.len(), |i: int| 100i32),
{
    let mut buffer = buf;
    buffer.fill(100);
    buffer
}

} // verus!
