//! Ordered-search primitives: four variants of boundary search over a sorted
//! slice, driven either by a three-way comparator or by a monotonic boolean
//! predicate, with verified contracts pinning the returned index.

pub mod contract;
pub mod element;
pub mod laws;
pub mod search;

pub use element::Slow;
pub use search::logic1;
pub use search::logic2;
pub use search::logic3;
pub use search::logic4;
pub use search::partition_point_logic1;
pub use search::partition_point_logic2;
pub use search::partition_point_logic3;
pub use search::partition_point_logic4;
