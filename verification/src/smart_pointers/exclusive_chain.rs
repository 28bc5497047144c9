//! A chain of links in which every link owns the links behind it.

use vstd::prelude::*;

verus! {

/// A link of a chain. It owns the links behind it, so a chain has one owner
/// and no cycle, and goes as a whole when its head goes.
pub struct Node {
    value: i32,
    next: Option<Box<Node>>,
}

impl View for Node {
    type V = Seq<i32>;

    /// The values of the chain that starts at this link, in traversal order.
    open spec fn view(&self) -> Seq<i32> {
        self.values()
    }
}

/// The values of a chain that may be empty, in traversal order.
pub open spec fn chain_values(head: Option<Box<Node>>) -> Seq<i32> {
    match head {
        None => Seq::empty(),
        Some(node) => node@,
    }
}

impl Node {
    /// The value of this link, followed by the values of the links that it owns.
    pub closed spec fn values(self) -> Seq<i32>
        decreases self,
    {
        match self.next {
            None => seq![self.value],
            Some(rest) => seq![self.value] + rest.values(),
        }
    }

    /// A chain is never empty: it holds at least its head.
    pub proof fn lemma_view_nonempty(self)
        ensures
            self@.len() >= 1,
    {
    }

    /// A chain of one link.
    pub fn new(value: i32) -> (node: Node)
        ensures
            node@ == seq![value],
    {
        Node { value, next: None }
    }

    /// The value that this link holds.
    pub fn value(&self) -> (value: i32)
        ensures
            self@.len() >= 1,
            value == self@[0],
    {
        self.value
    }

    /// The link behind this one, if there is one.
    pub fn next(&self) -> (successor: Option<&Node>)
        ensures
            successor is None <==> self@.len() == 1,
            successor matches Some(rest) ==> rest@ == self@.skip(1),
    {
        match &self.next {
            None => None,
            Some(rest) => {
                proof {
                    assert(rest@ =~= self@.skip(1));
                }
                Some(&**rest)
            },
        }
    }

    /// Walks to the last link and attaches `node`, with whatever it owns,
    /// behind it.
    pub fn append(&mut self, node: Node)
        ensures
            final(self)@ == old(self)@ + node@,
    {
        let ghost before = *old(self);
        let ghost after = *final(self);
        let ghost mut walked: Seq<i32> = Seq::empty();
        let mut last: &mut Node = self;
        while last.next.is_some()
            invariant
                before@ == walked + last@,
                after@ == walked + final(last)@,
            decreases last@.len(),
        {
            proof {
                walked = walked.push(last.value);
            }
            last = &mut **last.next.as_mut().unwrap();
        }
        last.next = Some(Box::new(node));
    }
}

impl Drop for Node {
    /// Releases the links behind this one, one after the other from the
    /// front, so that a long chain needs no deeper stack than a short one.
    /// The link is left alone, with nothing behind it.
    fn drop(&mut self)
        ensures
            final(self)@ == old(self)@.take(1),
        opens_invariants none
        no_unwind
    {
        let mut rest: Option<Box<Node>> = None;
        std::mem::swap(&mut rest, &mut self.next);
        loop
            decreases rest,
        {
            match rest {
                None => {
                    break ;
                },
                Some(mut link) => {
                    rest = None;
                    std::mem::swap(&mut rest, &mut link.next);
                },
            }
        }
    }
}

/// Builds the chain that holds `values` in their order, or no chain from no
/// values. The caller alone owns what comes back.
pub fn create_list(values: &[i32]) -> (head: Option<Box<Node>>)
    ensures
        head is None <==> values@.len() == 0,
        chain_values(head) == values@,
{
    let mut head: Option<Box<Node>> = None;
    let mut remaining: usize = values.len();
    while remaining > 0
        invariant
            remaining <= values@.len(),
            head is None <==> remaining == values@.len(),
            chain_values(head) == values@.skip(remaining as int),
        decreases remaining,
    {
        remaining = remaining - 1;
        head = Some(Box::new(Node { value: values[remaining], next: head }));
    }
    head
}

/// A chain that holds `values` is not empty where `values` is not, has one
/// link for each of them, and gives them back one by one from its head on.
pub proof fn lemma_chain_holds_its_values(head: Option<Box<Node>>, values: Seq<i32>)
    requires
        values.len() > 0,
        chain_values(head) == values,
    ensures
        head matches Some(node) && node@.len() == values.len() && forall|i: int|
            0 <= i < values.len() ==> node@[i] == values[i],
{
}

/// Counts the links of a chain by walking it from its head.
pub fn count_nodes(head: Option<&Node>) -> (count: usize)
    requires
        head matches Some(node) ==> node@.len() <= usize::MAX,
    ensures
        count == match head {
            None => 0,
            Some(node) => node@.len(),
        },
{
    match head {
        None => 0,
        Some(node) => {
            let mut count: usize = 1;
            let mut current: &Node = node;
            loop
                invariant_except_break
                    count + current@.len() == node@.len() + 1,
                    node@.len() <= usize::MAX,
                ensures
                    count == node@.len(),
                decreases current@.len(),
            {
                match current.next() {
                    None => {
                        break ;
                    },
                    Some(next) => {
                        count = count + 1;
                        current = next;
                    },
                }
            }
            count
        },
    }
}

/// Takes a chain apart link by link, head first, without recursion, and
/// returns the values of the links released, in the order of their release.
/// Every link is released exactly once.
pub fn release_list(head: Option<Box<Node>>) -> (released: Vec<i32>)
    ensures
        released@ == chain_values(head),
{
    let ghost whole: Seq<i32> = chain_values(head);
    let mut released: Vec<i32> = Vec::new();
    let mut rest: Option<Box<Node>> = head;
    loop
        invariant_except_break
            whole == released@ + chain_values(rest),
        ensures
            released@ == whole,
        decreases rest,
    {
        match rest {
            None => {
                break ;
            },
            Some(mut link) => {
                released.push(link.value);
                rest = None;
                std::mem::swap(&mut rest, &mut link.next);
            },
        }
    }
    released
}

} // verus!
