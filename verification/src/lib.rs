//! Small, self-contained studies of ownership disciplines: greeting and
//! number utilities, buffers that move, values that are moved, exclusive
//! chains, shared resources, scoped guards and checked cells.

pub mod hello_lib;
pub mod move_semantics;
pub mod smart_pointers;
pub mod value_semantics;
