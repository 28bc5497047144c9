use ferric_continuum::smart_pointers::{
    count_nodes, create_list, release_list, share_resource, AliasingViolation, Counter,
    CounterCells, FileGuard, Node, Resource, ResourcePool,
};

fn values_of(head: Option<&Node>) -> Vec<i32> {
    let mut values = Vec::new();
    let mut current = head;
    while let Some(node) = current {
        values.push(node.value());
        current = node.next();
    }
    values
}

#[test]
fn test_box_exclusive_ownership() {
    let list = create_list(&[1, 2, 3, 4, 5]);
    assert_eq!(count_nodes(list.as_ref().map(|b| b.as_ref())), 5);

    // Ownership transfer: list is moved to list2 and no longer accessible
    let list2 = list;
    assert!(list2.is_some());
}

#[test]
fn test_rc_shared_ownership() {
    let mut pool = ResourcePool::new();
    Resource::reset_count(&mut pool);

    let resource = Resource::new(42, &mut pool);
    assert_eq!(resource.strong_count(&pool), 1);
    assert_eq!(Resource::instance_count(&pool), 1);

    {
        let shared = share_resource(&resource, 3, &mut pool);
        assert_eq!(resource.strong_count(&pool), 4); // The first handle + 3 more
        assert_eq!(Resource::instance_count(&pool), 1); // Still only 1 Resource
        for handle in shared {
            handle.release(&mut pool);
        }
    }

    assert_eq!(resource.strong_count(&pool), 1); // Back to 1
}

#[test]
fn test_automatic_drop() {
    let mut pool = ResourcePool::new();
    Resource::reset_count(&mut pool);

    {
        let r1 = Resource::new(1, &mut pool);
        let r2 = Resource::new(2, &mut pool);
        assert_eq!(Resource::instance_count(&pool), 2);
        r2.release(&mut pool);
        r1.release(&mut pool);
    }

    assert_eq!(Resource::instance_count(&pool), 0);
}

#[test]
fn test_interior_mutability() {
    let mut cells = CounterCells::new();
    let counter = Counter::new(&mut cells);

    let c1 = counter.share();
    let c2 = counter.share();

    assert_eq!(c1.increment(&mut cells), Ok(()));
    assert_eq!(c2.increment(&mut cells), Ok(()));

    assert_eq!(counter.get(&cells), Ok(2));
}

#[test]
fn chain_reads_back_in_order() {
    let list = create_list(&[7, -3, 0, 7]);
    assert_eq!(values_of(list.as_deref()), vec![7, -3, 0, 7]);
    assert_eq!(count_nodes(list.as_deref()), 4);
}

#[test]
fn chain_of_one_value() {
    let list = create_list(&[9]);
    let head = list.as_deref().unwrap();
    assert_eq!(head.value(), 9);
    assert!(head.next().is_none());
    assert_eq!(count_nodes(Some(head)), 1);
}

#[test]
fn chain_of_no_values_is_empty() {
    let list = create_list(&[]);
    assert!(list.is_none());
    assert_eq!(count_nodes(None), 0);
}

#[test]
fn new_node_has_no_successor() {
    let node = Node::new(5);
    assert_eq!(node.value(), 5);
    assert!(node.next().is_none());
    assert_eq!(count_nodes(Some(&node)), 1);
}

#[test]
fn append_attaches_at_the_tail() {
    let mut head = Node::new(1);
    head.append(Node::new(2));
    head.append(Node::new(3));
    assert_eq!(values_of(Some(&head)), vec![1, 2, 3]);
    assert_eq!(count_nodes(Some(&head)), 3);
}

#[test]
fn append_takes_a_whole_chain() {
    let mut head = *create_list(&[1, 2]).unwrap();
    let tail = *create_list(&[3, 4, 5]).unwrap();
    head.append(tail);
    assert_eq!(values_of(Some(&head)), vec![1, 2, 3, 4, 5]);
}

#[test]
fn next_steps_through_the_chain() {
    let list = create_list(&[10, 20, 30]);
    let first = list.as_deref().unwrap();
    let second = first.next().unwrap();
    let third = second.next().unwrap();
    assert_eq!((first.value(), second.value(), third.value()), (10, 20, 30));
    assert!(third.next().is_none());
}

#[test]
fn release_list_releases_every_link_once() {
    let released = release_list(create_list(&[4, 5, 6, 4]));
    assert_eq!(released, vec![4, 5, 6, 4]);
    assert_eq!(release_list(None), Vec::<i32>::new());
    assert_eq!(release_list(create_list(&[1])), vec![1]);
}

#[test]
fn release_list_handles_a_long_chain() {
    let values: Vec<i32> = (0..200_000).collect();
    let list = create_list(&values);
    assert_eq!(count_nodes(list.as_deref()), 200_000);
    assert_eq!(release_list(list), values);
}

#[test]
fn long_chain_goes_with_its_head() {
    let values = vec![1; 300_000];
    let list = create_list(&values);
    assert_eq!(count_nodes(list.as_deref()), 300_000);
    drop(list);
}

#[test]
fn append_walks_a_long_chain() {
    let values = vec![2; 300_000];
    let mut head = create_list(&values).unwrap();
    head.append(Node::new(3));
    assert_eq!(count_nodes(Some(&*head)), 300_001);
    let released = release_list(Some(head));
    assert_eq!(released.len(), 300_001);
    assert_eq!(released.last(), Some(&3));
}

#[test]
fn new_pool_has_no_instances() {
    let pool = ResourcePool::new();
    assert_eq!(Resource::instance_count(&pool), 0);
}

#[test]
fn resource_keeps_its_id() {
    let mut pool = ResourcePool::new();
    let resource = Resource::new(42, &mut pool);
    assert_eq!(resource.id(), 42);
    let shared = share_resource(&resource, 2, &mut pool);
    assert_eq!(shared.len(), 2);
    assert_eq!(shared[0].id(), 42);
    assert_eq!(shared[1].id(), 42);
}

#[test]
fn shared_handles_keep_the_instance_alive() {
    let mut pool = ResourcePool::new();
    Resource::reset_count(&mut pool);
    let resource = Resource::new(42, &mut pool);
    let mut shared = share_resource(&resource, 3, &mut pool);
    assert_eq!(Resource::instance_count(&pool), 1);

    resource.release(&mut pool);
    assert_eq!(Resource::instance_count(&pool), 1);
    while shared.len() > 1 {
        shared.pop().unwrap().release(&mut pool);
        assert_eq!(Resource::instance_count(&pool), 1);
    }
    let last = shared.pop().unwrap();
    assert_eq!(last.strong_count(&pool), 1);
    last.release(&mut pool);
    assert_eq!(Resource::instance_count(&pool), 0);
}

#[test]
fn sharing_never_changes_the_instance_count() {
    let mut pool = ResourcePool::new();
    let a = Resource::new(1, &mut pool);
    let b = Resource::new(2, &mut pool);
    for copies in [0usize, 1, 5] {
        let before = Resource::instance_count(&pool);
        let handles = share_resource(&a, copies, &mut pool);
        assert_eq!(handles.len(), copies);
        assert_eq!(Resource::instance_count(&pool), before);
    }
    assert_eq!(a.strong_count(&pool), 7);
    assert_eq!(b.strong_count(&pool), 1);
    assert_eq!(Resource::instance_count(&pool), 2);
}

#[test]
fn instances_are_counted_separately() {
    let mut pool = ResourcePool::new();
    let a = Resource::new(1, &mut pool);
    let b = Resource::new(2, &mut pool);
    let a2 = share_resource(&a, 1, &mut pool).pop().unwrap();
    a.release(&mut pool);
    assert_eq!(Resource::instance_count(&pool), 2);
    b.release(&mut pool);
    assert_eq!(Resource::instance_count(&pool), 1);
    assert_eq!(a2.strong_count(&pool), 1);
    a2.release(&mut pool);
    assert_eq!(Resource::instance_count(&pool), 0);
}

#[test]
fn reset_count_forgets_live_instances() {
    let mut pool = ResourcePool::new();
    let a = Resource::new(1, &mut pool);
    let b = Resource::new(2, &mut pool);
    assert_eq!(Resource::instance_count(&pool), 2);
    Resource::reset_count(&mut pool);
    assert_eq!(Resource::instance_count(&pool), 0);
    assert_eq!(a.strong_count(&pool), 0);

    // Releasing a handle on a destroyed instance does nothing.
    a.release(&mut pool);
    b.release(&mut pool);
    assert_eq!(Resource::instance_count(&pool), 0);

    let c = Resource::new(3, &mut pool);
    assert_eq!(Resource::instance_count(&pool), 1);
    assert_eq!(c.strong_count(&pool), 1);
}

#[test]
fn guard_is_open_until_closed() {
    let mut guard = FileGuard::new("data.txt");
    assert!(guard.is_open());
    assert_eq!(guard.filename(), "data.txt");
    guard.close();
    assert!(!guard.is_open());
    assert_eq!(guard.filename(), "data.txt");
}

#[test]
fn guard_close_twice_is_safe() {
    let mut guard = FileGuard::new("");
    guard.close();
    guard.close();
    assert!(!guard.is_open());
    assert_eq!(guard.filename(), "");
}

#[test]
fn guard_moves_as_a_unit() {
    let guard = FileGuard::new("log");
    let moved = guard;
    assert!(moved.is_open());
    assert_eq!(moved.filename(), "log");
}

#[test]
fn new_counter_reads_zero() {
    let mut cells = CounterCells::new();
    let counter = Counter::new(&mut cells);
    assert_eq!(counter.get(&cells), Ok(0));
}

#[test]
fn three_increments_read_three() {
    let mut cells = CounterCells::new();
    let counter = Counter::new(&mut cells);
    for _ in 0..3 {
        assert_eq!(counter.increment(&mut cells), Ok(()));
    }
    assert_eq!(counter.get(&cells), Ok(3));
}

#[test]
fn sharing_handles_see_the_same_value() {
    let mut cells = CounterCells::new();
    let first = Counter::new(&mut cells);
    let second = first.share();
    assert_eq!(first.increment(&mut cells), Ok(()));
    assert_eq!(first.get(&cells), second.get(&cells));
    assert_eq!(second.increment(&mut cells), Ok(()));
    assert_eq!(first.get(&cells), Ok(2));
    assert_eq!(second.get(&cells), Ok(2));
}

#[test]
fn counters_of_different_cells_are_independent() {
    let mut cells = CounterCells::new();
    let first = Counter::new(&mut cells);
    let second = Counter::new(&mut cells);
    assert_eq!(first.increment(&mut cells), Ok(()));
    assert_eq!(first.get(&cells), Ok(1));
    assert_eq!(second.get(&cells), Ok(0));
    assert_eq!(first.open_exclusive(&mut cells), Ok(()));
    assert_eq!(second.increment(&mut cells), Ok(()));
}

#[test]
fn nested_exclusive_access_is_an_aliasing_violation() {
    let mut cells = CounterCells::new();
    let counter = Counter::new(&mut cells);
    let other = counter.share();
    assert_eq!(counter.increment(&mut cells), Ok(()));

    assert_eq!(counter.open_exclusive(&mut cells), Ok(()));
    assert_eq!(counter.open_exclusive(&mut cells), Err(AliasingViolation));
    assert_eq!(other.increment(&mut cells), Err(AliasingViolation));
    assert_eq!(other.get(&cells), Err(AliasingViolation));
    assert_eq!(other.open_shared(&mut cells), Err(AliasingViolation));

    // The cell is as it was and works again once the access is closed.
    counter.close_exclusive(&mut cells);
    assert_eq!(other.get(&cells), Ok(1));
    assert_eq!(other.increment(&mut cells), Ok(()));
    assert_eq!(counter.get(&cells), Ok(2));
}

#[test]
fn exclusive_access_beside_a_shared_one_is_an_aliasing_violation() {
    let mut cells = CounterCells::new();
    let counter = Counter::new(&mut cells);
    assert_eq!(counter.open_shared(&mut cells), Ok(()));
    assert_eq!(counter.open_shared(&mut cells), Ok(()));
    assert_eq!(counter.get(&cells), Ok(0));
    assert_eq!(counter.increment(&mut cells), Err(AliasingViolation));
    assert_eq!(counter.open_exclusive(&mut cells), Err(AliasingViolation));

    counter.close_shared(&mut cells);
    assert_eq!(counter.increment(&mut cells), Err(AliasingViolation));
    counter.close_shared(&mut cells);
    assert_eq!(counter.increment(&mut cells), Ok(()));
    assert_eq!(counter.get(&cells), Ok(1));
}

#[test]
fn closing_what_is_not_open_changes_nothing() {
    let mut cells = CounterCells::new();
    let counter = Counter::new(&mut cells);
    counter.close_exclusive(&mut cells);
    counter.close_shared(&mut cells);
    assert_eq!(counter.increment(&mut cells), Ok(()));
    assert_eq!(counter.get(&cells), Ok(1));
}

#[test]
fn store_knows_its_counters() {
    let mut cells = CounterCells::new();
    let mut others = CounterCells::new();
    let first = Counter::new(&mut cells);
    let second = Counter::new(&mut cells);
    assert!(cells.holds(&first));
    assert!(cells.holds(&second));
    assert!(cells.holds(&second.share()));
    assert!(!others.holds(&first));
    let third = Counter::new(&mut others);
    assert!(others.holds(&third));
    assert!(!others.holds(&second));
}
