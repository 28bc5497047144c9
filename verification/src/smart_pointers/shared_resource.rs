//! A resource that any number of handles may hold. The instance lives as
//! long as one handle does, and a pool keeps the books: how many handles
//! hold each instance, and how many instances are live.

use vstd::prelude::*;

verus! {

/// The number of handles on the instance at `slot`; none where there is no
/// such place.
pub open spec fn handles_on(handles: Seq<nat>, slot: int) -> nat {
    if 0 <= slot < handles.len() {
        handles[slot]
    } else {
        0
    }
}

/// The places whose instance is held by at least one handle.
pub open spec fn live_slots(handles: Seq<nat>) -> Set<int> {
    Set::new(|slot: int| 0 <= slot < handles.len() && handles[slot] > 0)
}

/// The number of instances that at least one handle holds.
pub open spec fn live_instances(handles: Seq<nat>) -> nat {
    live_slots(handles).len()
}

/// The counts once an instance is created: a new place with one handle.
pub open spec fn after_create(handles: Seq<nat>) -> Seq<nat> {
    handles.push(1)
}

/// The counts once `copies` more handles are made on the instance at `slot`.
/// A destroyed instance stays destroyed.
pub open spec fn after_share(handles: Seq<nat>, slot: int, copies: nat) -> Seq<nat> {
    if handles_on(handles, slot) > 0 {
        handles.update(slot, handles[slot] + copies)
    } else {
        handles
    }
}

/// The counts once a handle on the instance at `slot` is released. Nothing
/// is left to release of a destroyed instance.
pub open spec fn after_release(handles: Seq<nat>, slot: int) -> Seq<nat> {
    if handles_on(handles, slot) > 0 {
        handles.update(slot, (handles[slot] - 1) as nat)
    } else {
        handles
    }
}

/// The counts once every instance is forgotten.
pub open spec fn after_reset(handles: Seq<nat>) -> Seq<nat> {
    Seq::new(handles.len(), |slot: int| 0nat)
}

/// No more instances are live than were ever created.
pub proof fn lemma_live_instances_bounded(handles: Seq<nat>)
    ensures
        live_slots(handles).finite(),
        live_instances(handles) <= handles.len(),
{
    let places = vstd::set_lib::set_int_range(0, handles.len() as int);
    vstd::set_lib::lemma_int_range(0, handles.len() as int);
    vstd::set_lib::lemma_len_subset(live_slots(handles), places);
}

// A changed count changes the number of live instances only where it
// reaches zero or leaves it.
proof fn lemma_live_instances_update(handles: Seq<nat>, slot: int, count: nat)
    requires
        0 <= slot < handles.len(),
    ensures
        live_instances(handles.update(slot, count)) == live_instances(handles) + (if count
            > 0 {
            1int
        } else {
            0int
        }) - (if handles[slot] > 0 {
            1int
        } else {
            0int
        }),
{
    lemma_live_instances_bounded(handles);
    let after = handles.update(slot, count);
    if count > 0 {
        assert(live_slots(after) =~= live_slots(handles).insert(slot));
    } else {
        assert(live_slots(after) =~= live_slots(handles).remove(slot));
    }
}

/// Creating an instance makes one more live instance.
pub proof fn lemma_create_adds_an_instance(handles: Seq<nat>)
    ensures
        live_instances(after_create(handles)) == live_instances(handles) + 1,
{
    lemma_live_instances_bounded(handles);
    assert(live_slots(after_create(handles)) =~= live_slots(handles).insert(
        handles.len() as int,
    ));
}

/// Sharing a handle, however often, leaves the number of live instances as
/// it is: a live instance gets that many handles more, and a destroyed one
/// stays destroyed.
pub proof fn lemma_share_keeps_instances(handles: Seq<nat>, slot: int, copies: nat)
    ensures
        live_instances(after_share(handles, slot, copies)) == live_instances(handles),
        handles_on(after_share(handles, slot, copies), slot) == if handles_on(handles, slot) > 0 {
            handles_on(handles, slot) + copies
        } else {
            0
        },
{
    if handles_on(handles, slot) > 0 {
        lemma_live_instances_update(handles, slot, handles[slot] + copies);
    }
}

/// Releasing a handle takes a live instance away exactly where the handle
/// was the last one on its instance. Where it was not, the instance stays
/// with one handle less.
pub proof fn lemma_release_ends_an_instance_with_its_last_handle(handles: Seq<nat>, slot: int)
    ensures
        live_instances(after_release(handles, slot)) == live_instances(handles) - if handles_on(
            handles,
            slot,
        ) == 1 {
            1int
        } else {
            0int
        },
        handles_on(after_release(handles, slot), slot) == if handles_on(handles, slot) > 0 {
            handles_on(handles, slot) - 1
        } else {
            0
        },
{
    if handles_on(handles, slot) > 0 {
        lemma_live_instances_update(handles, slot, (handles[slot] - 1) as nat);
    }
}

/// Once every instance is forgotten, none is live.
pub proof fn lemma_reset_leaves_no_instance(handles: Seq<nat>)
    ensures
        live_instances(after_reset(handles)) == 0,
{
    assert(live_slots(after_reset(handles)) =~= Set::<int>::empty());
}

// The counts of a pool: the handles on each instance, and the instances
// that are live.
struct Ledger {
    strong: Vec<usize>,
    live: usize,
}

impl Ledger {
    // The handle counts as numbers.
    spec fn counts(self) -> Seq<nat> {
        Seq::new(self.strong@.len(), |slot: int| self.strong@[slot] as nat)
    }

    // The counts of a pool without instances.
    fn empty() -> (ledger: Ledger)
        ensures
            ledger.counts() == Seq::<nat>::empty(),
            ledger.live == live_instances(ledger.counts()),
    {
        let ledger = Ledger { strong: Vec::new(), live: 0 };
        proof {
            assert(ledger.counts() =~= Seq::<nat>::empty());
            lemma_live_instances_bounded(Seq::<nat>::empty());
        }
        ledger
    }
}

/// The bookkeeping of shared resources. Each instance has a place in the pool
/// that records how many handles hold it; an instance is destroyed when its
/// last handle is released. Beside that the pool keeps count of the live
/// instances, which at every moment is the number of instances that some
/// handle holds.
pub struct ResourcePool {
    ledger: Ledger,
}

impl View for ResourcePool {
    type V = Seq<nat>;

    /// For each instance ever created, in order of creation, the number of
    /// handles that hold it now.
    closed spec fn view(&self) -> Seq<nat> {
        self.ledger.counts()
    }
}

impl ResourcePool {
    #[verifier::type_invariant]
    spec fn balanced(self) -> bool {
        self.ledger.live == live_instances(self.ledger.counts())
    }

    /// A pool without instances.
    pub fn new() -> (pool: ResourcePool)
        ensures
            pool@ == Seq::<nat>::empty(),
    {
        ResourcePool { ledger: Ledger::empty() }
    }

    // Takes the counts out, leaving the pool empty until they are put back.
    fn take_ledger(&mut self) -> (ledger: Ledger)
        ensures
            ledger == old(self).ledger,
            ledger.live == live_instances(ledger.counts()),
            final(self)@ == Seq::<nat>::empty(),
    {
        proof {
            use_type_invariant(&*self);
        }
        let mut ledger = Ledger::empty();
        std::mem::swap(&mut ledger, &mut self.ledger);
        ledger
    }
}

/// A handle on a shared resource. Handles are made by `Resource::new` and
/// `share_resource` and given back by `Resource::release`; a handle that is
/// merely dropped keeps its instance alive for good. A handle means
/// something only to the pool that made it.
pub struct Resource {
    id: i32,
    slot: usize,
}

impl Resource {
    /// The place in the pool of the instance that this handle refers to.
    pub closed spec fn slot(self) -> int {
        self.slot as int
    }

    /// The identity that the instance was created with.
    pub closed spec fn identity(self) -> i32 {
        self.id
    }

    /// Creates an instance and returns the first handle on it.
    pub fn new(id: i32, pool: &mut ResourcePool) -> (handle: Resource)
        ensures
            final(pool)@ == after_create(old(pool)@),
            handle.slot() == old(pool)@.len(),
            handle.identity() == id,
            live_instances(final(pool)@) == live_instances(old(pool)@) + 1,
    {
        let mut ledger = pool.take_ledger();
        let ghost before = ledger.counts();
        let slot = ledger.strong.len();
        ledger.strong.push(1);
        proof {
            assert(ledger.counts() =~= after_create(before));
            lemma_create_adds_an_instance(before);
            lemma_live_instances_bounded(ledger.counts());
            assert(ledger.strong@.len() == ledger.strong.len());
        }
        ledger.live = ledger.live + 1;
        pool.ledger = ledger;
        Resource { id, slot }
    }

    /// The identity of the instance behind this handle.
    pub fn id(&self) -> (id: i32)
        ensures
            id == self.identity(),
    {
        self.id
    }

    /// The number of handles that hold this handle's instance; zero once the
    /// instance is destroyed.
    pub fn strong_count(&self, pool: &ResourcePool) -> (count: usize)
        ensures
            count == handles_on(pool@, self.slot()),
    {
        if self.slot < pool.ledger.strong.len() {
            pool.ledger.strong[self.slot]
        } else {
            0
        }
    }

    /// Gives this handle back. The instance is destroyed with its last handle,
    /// and only then does the number of live instances go down. Releasing a
    /// handle whose instance is destroyed already does nothing.
    pub fn release(self, pool: &mut ResourcePool)
        ensures
            final(pool)@ == after_release(old(pool)@, self.slot()),
            live_instances(final(pool)@) == live_instances(old(pool)@) - if handles_on(
                old(pool)@,
                self.slot(),
            ) == 1 {
                1int
            } else {
                0int
            },
    {
        let mut ledger = pool.take_ledger();
        let ghost before = ledger.counts();
        proof {
            lemma_release_ends_an_instance_with_its_last_handle(before, self.slot as int);
        }
        if self.slot < ledger.strong.len() && ledger.strong[self.slot] > 0 {
            let left: usize = ledger.strong[self.slot] - 1;
            ledger.strong.set(self.slot, left);
            if left == 0 {
                ledger.live = ledger.live - 1;
            }
        }
        assert(ledger.counts() =~= after_release(before, self.slot as int));
        pool.ledger = ledger;
    }

    /// The number of live instances: those that at least one handle holds.
    pub fn instance_count(pool: &ResourcePool) -> (count: usize)
        ensures
            count == live_instances(pool@),
    {
        proof {
            use_type_invariant(pool);
        }
        pool.ledger.live
    }

    /// Forgets every instance: each loses all its handles and is destroyed, so
    /// that none is live. The handles given out before refer to destroyed
    /// instances from then on.
    pub fn reset_count(pool: &mut ResourcePool)
        ensures
            final(pool)@ == after_reset(old(pool)@),
            live_instances(final(pool)@) == 0,
    {
        let ledger = pool.take_ledger();
        let places = ledger.strong.len();
        let mut strong: Vec<usize> = Vec::new();
        while strong.len() < places
            invariant
                strong.len() <= places,
                forall|slot: int| 0 <= slot < strong.len() ==> strong[slot] == 0,
            decreases places - strong.len(),
        {
            strong.push(0);
        }
        let cleared = Ledger { strong, live: 0 };
        proof {
            lemma_reset_leaves_no_instance(ledger.counts());
            assert(cleared.counts() =~= after_reset(ledger.counts()));
        }
        pool.ledger = cleared;
    }
}

/// Makes `copies` more handles on the instance of `resource` and returns
/// them. The instance then has that many handles more, unless it is destroyed
/// already: handles on a destroyed instance are counted nowhere. Either way
/// the number of live instances stays as it is.
pub fn share_resource(resource: &Resource, copies: usize, pool: &mut ResourcePool) -> (handles:
    Vec<Resource>)
    requires
        handles_on(old(pool)@, resource.slot()) + copies <= usize::MAX,
    ensures
        final(pool)@ == after_share(old(pool)@, resource.slot(), copies as nat),
        handles@.len() == copies,
        forall|i: int| 0 <= i < copies ==> handles@[i] == *resource,
        live_instances(final(pool)@) == live_instances(old(pool)@),
{
    let mut ledger = pool.take_ledger();
    let ghost before = ledger.counts();
    proof {
        lemma_share_keeps_instances(before, resource.slot as int, copies as nat);
    }
    if resource.slot < ledger.strong.len() && ledger.strong[resource.slot] > 0 {
        let held: usize = ledger.strong[resource.slot] + copies;
        ledger.strong.set(resource.slot, held);
    }
    assert(ledger.counts() =~= after_share(before, resource.slot as int, copies as nat));
    pool.ledger = ledger;
    let mut handles: Vec<Resource> = Vec::new();
    while handles.len() < copies
        invariant
            handles.len() <= copies,
            forall|i: int| 0 <= i < handles.len() ==> handles@[i] == *resource,
        decreases copies - handles.len(),
    {
        handles.push(Resource { id: resource.id, slot: resource.slot });
    }
    handles
}

} // verus!
