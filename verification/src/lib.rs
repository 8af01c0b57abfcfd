//! A resizable container that stores its values contiguously and hands out,
//! for each inserted value, a handle that stays valid while other values come
//! and go.
//!
//! Every stored record shares a position cell with the handles issued for it.
//! Removal moves the last record into the vacated place and writes the new
//! position into that record's cell, so the handles of the moved value keep
//! resolving to it. There are no gaps and no tombstones.
//!
//! * `capacity`: the capacity tracker and the rule by which capacity follows
//!   the number of stored values.
//! * `slot`: position cells, stored records and handles.
//! * `model`: the mathematical model of a bucket and its laws.
//! * `bucket`: the container itself.
//!
//! A handle whose value has been removed is stale. `Bucket::remove` checks the
//! position that a handle's cell holds against the length of the bucket and
//! nothing more, so a stale handle may still point at an occupied position.
//! `Bucket::get` and `Bucket::remove_unchecked` ask for a live handle.

pub mod bucket;
pub mod capacity;
pub mod model;
pub mod slot;

pub use crate::bucket::Bucket;
pub use crate::capacity::Capacity;
pub use crate::model::BucketView;
pub use crate::slot::Value;
pub use crate::slot::ValueIndex;
pub use crate::slot::ValueRef;
