//! Four ownership disciplines, each in its smallest form: a chain whose links
//! own their successors, a resource shared by counted handles, a guard that
//! closes, and a cell whose accesses are checked when they are made.

pub mod checked_cell;
pub mod exclusive_chain;
pub mod scoped_guard;
pub mod shared_resource;

pub use checked_cell::{AliasingViolation, CellState, Counter, CounterCells};
pub use exclusive_chain::{
    chain_values, count_nodes, create_list, lemma_chain_holds_its_values, release_list, Node,
};
pub use scoped_guard::FileGuard;
pub use shared_resource::{
    after_create, after_release, after_reset, after_share, handles_on,
    lemma_create_adds_an_instance, lemma_live_instances_bounded,
    lemma_release_ends_an_instance_with_its_last_handle, lemma_reset_leaves_no_instance,
    lemma_share_keeps_instances, live_instances, live_slots, share_resource, Resource,
    ResourcePool,
};
