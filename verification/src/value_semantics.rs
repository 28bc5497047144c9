//! A value that is moved, not copied, when it is handed on.

use vstd::prelude::*;

verus! {

/// The sum of a sequence of integers: its first added to the sum of the rest.
pub open spec fn sum_of(values: Seq<i32>) -> int
    decreases values.len(),
{
    if values.len() == 0 {
        0
    } else {
        values[0] + sum_of(values.skip(1))
    }
}

/// A list of integers that owns its storage.
#[derive(Debug)]
pub struct Data {
    values: Vec<i32>,
}

impl View for Data {
    type V = Seq<i32>;

    /// The integers in their order.
    closed spec fn view(&self) -> Seq<i32> {
        self.values@
    }
}

// The sum of `count` integers lies within `count` times the range of one.
proof fn lemma_sum_bounds(values: Seq<i32>)
    ensures
        values.len() * i32::MIN <= sum_of(values) <= values.len() * i32::MAX,
    decreases values.len(),
{
    if values.len() > 0 {
        lemma_sum_bounds(values.skip(1));
    }
}

// One integer more at the end adds that integer to the sum.
proof fn lemma_sum_push(values: Seq<i32>, last: i32)
    ensures
        sum_of(values.push(last)) == sum_of(values) + last,
    decreases values.len(),
{
    let longer = values.push(last);
    if values.len() == 0 {
        assert(longer.skip(1) =~= Seq::<i32>::empty());
        assert(sum_of(Seq::<i32>::empty()) == 0);
    } else {
        lemma_sum_push(values.skip(1), last);
        assert(longer.skip(1) =~= values.skip(1).push(last));
    }
}

impl Clone for Data {
    /// A second list of the same integers, with storage of its own.
    fn clone(&self) -> (copy: Data)
        ensures
            copy@ == self@,
    {
        Data { values: self.values.clone() }
    }
}

impl Data {
    /// Takes `values` over.
    pub fn new(values: Vec<i32>) -> (data: Data)
        ensures
            data@ == values@,
    {
        Data { values }
    }

    /// The number of integers.
    pub fn len(&self) -> (len: usize)
        ensures
            len == self@.len(),
    {
        self.values.len()
    }

    /// The sum of the integers, or nothing where it does not fit in an `i32`.
    /// Sums along the way may lie beyond an `i32`.
    pub fn checked_sum(&self) -> (sum: Option<i32>)
        ensures
            sum == if i32::MIN <= sum_of(self@) <= i32::MAX {
                Some(sum_of(self@) as i32)
            } else {
                None
            },
    {
        let count = self.values.len();
        let mut total: i128 = 0;
        let mut index: usize = 0;
        while index < count
            invariant
                index <= count == self.values.len(),
                total == sum_of(self.values@.take(index as int)),
            decreases count - index,
        {
            proof {
                let summed = self.values@.take(index as int);
                lemma_sum_bounds(summed);
                lemma_sum_push(summed, self.values@[index as int]);
                assert(summed.push(self.values@[index as int]) =~= self.values@.take(
                    index as int + 1,
                ));
            }
            total = total + self.values[index] as i128;
            index = index + 1;
        }
        proof {
            assert(self.values@.take(count as int) =~= self.values@);
        }
        if -2147483648 <= total && total <= 2147483647 {
            Some(total as i32)
        } else {
            None
        }
    }

    /// The sum of the integers, which must fit in an `i32`.
    pub fn sum(&self) -> (sum: i32)
        requires
            i32::MIN <= sum_of(self@) <= i32::MAX,
        ensures
            sum == sum_of(self@),
    {
        self.checked_sum().unwrap()
    }
}

} // verus!
