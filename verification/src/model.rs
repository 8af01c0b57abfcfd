//! The mathematical model of a bucket, and the laws that hold of it.
//!
//! A bucket is a sequence of values in storage order. Beside each value stands
//! the identity of the position cell that the value's record shares with its
//! handles. A handle is live while its cell stands in that sequence, and it
//! resolves to the value stored beside the cell.

use vstd::prelude::*;
use crate::capacity::capacity_after_insert;
use crate::capacity::capacity_after_remove;
use crate::capacity::capacity_fits;
use crate::capacity::lemma_fitting_capacity_is_unique;
use crate::capacity::lemma_insert_keeps_capacity_fitting;
use crate::capacity::lemma_remove_keeps_capacity_fitting;

verus! {

/// The abstract state of a bucket.
#[verifier::ext_equal]
pub struct BucketView<T> {
    /// The stored values, in storage order.
    pub values: Seq<T>,
    /// The identity of the position cell of each stored value, in the same order.
    pub cells: Seq<int>,
    /// The fixed unit of capacity.
    pub block_size: nat,
    /// The capacity currently accounted for.
    pub capacity: nat,
}

impl<T> BucketView<T> {
    /// The bucket as created: no values, one block of capacity.
    pub open spec fn empty(block_size: nat) -> Self {
        BucketView { values: Seq::empty(), cells: Seq::empty(), block_size, capacity: block_size }
    }

    /// The number of stored values.
    pub open spec fn len(self) -> nat {
        self.values.len()
    }

    /// The cell belongs to a stored value: its handles are live.
    pub open spec fn contains(self, cell: int) -> bool {
        self.cells.contains(cell)
    }

    /// The position at which the value of a live cell is stored.
    pub open spec fn position(self, cell: int) -> int {
        self.cells.index_of(cell)
    }

    /// The value that the handles of a live cell resolve to.
    pub open spec fn value_of(self, cell: int) -> T {
        self.values[self.position(cell)]
    }

    /// Every handle that is live in `self`, except those to `cell`, is live
    /// in `after` too and resolves to the same value there.
    pub open spec fn handles_survive(self, after: Self, cell: int) -> bool {
        forall|other: int|
            #![trigger after.contains(other)]
            #![trigger after.value_of(other)]
            self.contains(other) && other != cell ==> after.contains(other) && after.value_of(
                other,
            ) == self.value_of(other)
    }

    /// Every stored value has a cell of its own, and the capacity fits.
    pub open spec fn wf(self) -> bool {
        &&& self.cells.len() == self.values.len()
        &&& self.cells.no_duplicates()
        &&& capacity_fits(self.block_size, self.capacity, self.len())
    }

    /// Appends `value` with the cell `cell`. A full bucket grows by one block
    /// first.
    pub open spec fn insert(self, value: T, cell: int) -> Self {
        BucketView {
            values: self.values.push(value),
            cells: self.cells.push(cell),
            block_size: self.block_size,
            capacity: capacity_after_insert(self.block_size, self.capacity, self.len()),
        }
    }

    /// Removes the value at the occupied position `position` by moving the
    /// last value, with its cell, into its place. The capacity gives back one
    /// block when the remaining values exactly fill the blocks below the last
    /// one.
    pub open spec fn swap_remove(self, position: int) -> Self
        recommends
            0 <= position < self.len(),
    {
        let last: int = self.len() - 1;
        BucketView {
            values: self.values.update(position, self.values[last]).drop_last(),
            cells: self.cells.update(position, self.cells[last]).drop_last(),
            block_size: self.block_size,
            capacity: capacity_after_remove(self.block_size, self.capacity, self.len()),
        }
    }

    /// Removes the value at `position` if that position is occupied, and
    /// yields the bucket afterwards together with the value taken out.
    /// Otherwise yields the bucket as it is, and no value.
    pub open spec fn remove_at(self, position: int) -> (Self, Option<T>) {
        if 0 <= position < self.len() {
            (self.swap_remove(position), Some(self.values[position]))
        } else {
            (self, None)
        }
    }
}

/// A new bucket is well formed and empty.
pub proof fn lemma_empty<T>(block_size: nat)
    ensures
        BucketView::<T>::empty(block_size).wf(),
        BucketView::<T>::empty(block_size).len() == 0,
        BucketView::<T>::empty(block_size).capacity == block_size,
{
}

/// In a well-formed bucket a live cell stands at exactly one position, and
/// its handles resolve to the value stored there.
pub proof fn lemma_positions<T>(bucket: BucketView<T>)
    requires
        bucket.wf(),
    ensures
        forall|i: int|
            0 <= i < bucket.len() ==> bucket.contains(#[trigger] bucket.cells[i])
                && bucket.position(bucket.cells[i]) == i && bucket.value_of(bucket.cells[i])
                == bucket.values[i],
        forall|cell: int|
            bucket.contains(cell) ==> 0 <= #[trigger] bucket.position(cell) < bucket.len()
                && bucket.cells[bucket.position(cell)] == cell,
{
    assert forall|i: int| 0 <= i < bucket.len() implies bucket.contains(#[trigger] bucket.cells[i])
        && bucket.position(bucket.cells[i]) == i by {
        // The position chosen for the cell at `i` holds the same cell, and no
        // two positions do.
        let j: int = bucket.cells.index_of(bucket.cells[i]);
        assert(bucket.cells.contains(bucket.cells[i]));
        assert(bucket.cells[j] == bucket.cells[i]);
    }
}

/// With a positive block size, the capacity of a well-formed bucket is a
/// positive multiple of the block size and covers every stored value.
pub proof fn lemma_capacity_bounds<T>(bucket: BucketView<T>)
    requires
        bucket.wf(),
        bucket.block_size > 0,
    ensures
        bucket.capacity >= bucket.len(),
        bucket.capacity > 0,
        bucket.capacity % bucket.block_size == 0,
{
}

/// The capacity of a well-formed bucket depends on nothing but its block size
/// and the number of stored values, whatever insertions and removals led
/// there. An empty bucket accounts for exactly one block.
pub proof fn lemma_capacity_is_determined<T>(first: BucketView<T>, second: BucketView<T>)
    requires
        first.wf(),
        second.wf(),
        first.block_size == second.block_size,
        first.len() == second.len(),
    ensures
        first.capacity == second.capacity,
        first.len() == 0 ==> first.capacity == first.block_size,
{
    lemma_fitting_capacity_is_unique(
        first.block_size,
        first.capacity,
        second.capacity,
        first.len(),
    );
}

/// Insertion with a cell that belongs to no stored value keeps a bucket well
/// formed. The new handle is live and resolves to the inserted value; every
/// handle that was live still is, and resolves to the same value at the same
/// position; no other handle becomes live.
pub proof fn lemma_insert<T>(bucket: BucketView<T>, value: T, cell: int)
    requires
        bucket.wf(),
        !bucket.contains(cell),
    ensures
        bucket.insert(value, cell).wf(),
        bucket.insert(value, cell).len() == bucket.len() + 1,
        bucket.insert(value, cell).contains(cell),
        bucket.insert(value, cell).position(cell) == bucket.len(),
        bucket.insert(value, cell).value_of(cell) == value,
        bucket.handles_survive(bucket.insert(value, cell), cell),
        forall|other: int|
            other != cell ==> (#[trigger] bucket.insert(value, cell).contains(other)
                <==> bucket.contains(other)),
        forall|other: int|
            bucket.contains(other) ==> #[trigger] bucket.insert(value, cell).position(other)
                == bucket.position(other),
{
    let after = bucket.insert(value, cell);
    lemma_insert_keeps_capacity_fitting(bucket.block_size, bucket.capacity, bucket.len());
    assert(after.cells[bucket.len() as int] == cell);
    assert forall|i: int, j: int|
        0 <= i < after.cells.len() && 0 <= j < after.cells.len() && i != j implies after.cells[i]
        != after.cells[j] by {
        // The cells that were there are live in `bucket`, and `cell` is not.
        if i < bucket.len() {
            assert(bucket.contains(bucket.cells[i]));
        }
        if j < bucket.len() {
            assert(bucket.contains(bucket.cells[j]));
        }
    }
    lemma_positions(bucket);
    lemma_positions(after);
    assert forall|other: int| bucket.contains(other) implies #[trigger] after.contains(other)
        && after.position(other) == bucket.position(other) by {
        let i: int = bucket.position(other);
        assert(after.cells[i] == other);
    }
    assert forall|other: int| other != cell && #[trigger] after.contains(other)
        implies bucket.contains(other) by {
        let i: int = after.position(other);
        assert(bucket.cells[i] == other);
    }
}

/// A full bucket grows by exactly one block on insertion, and a bucket with
/// room left does not grow at all.
pub proof fn lemma_insert_grows_once<T>(bucket: BucketView<T>, value: T, cell: int)
    ensures
        bucket.len() == bucket.capacity ==> bucket.insert(value, cell).capacity == bucket.capacity
            + bucket.block_size,
        bucket.len() != bucket.capacity ==> bucket.insert(value, cell).capacity
            == bucket.capacity,
        bucket.insert(value, cell).block_size == bucket.block_size,
{
}

/// Removal at an occupied position keeps a bucket well formed and takes
/// exactly the value at that position, with its cell, out of it: the handles
/// of the removed value are stale. Every other handle that was live still is,
/// and resolves to the same value; the value that was stored last now stands
/// at the vacated position, and every other value where it stood.
pub proof fn lemma_swap_remove<T>(bucket: BucketView<T>, position: int)
    requires
        bucket.wf(),
        0 <= position < bucket.len(),
    ensures
        bucket.swap_remove(position).wf(),
        bucket.swap_remove(position).len() == bucket.len() - 1,
        !bucket.swap_remove(position).contains(bucket.cells[position]),
        bucket.handles_survive(bucket.swap_remove(position), bucket.cells[position]),
        forall|other: int|
            #[trigger] bucket.swap_remove(position).contains(other) ==> bucket.contains(other),
        forall|other: int|
            bucket.contains(other) && other != bucket.cells[position]
                ==> #[trigger] bucket.swap_remove(position).position(other) == if other
                == bucket.cells[bucket.len() - 1] {
                position
            } else {
                bucket.position(other)
            },
{
    let after = bucket.swap_remove(position);
    let last: int = bucket.len() - 1;
    lemma_remove_keeps_capacity_fitting(bucket.block_size, bucket.capacity, bucket.len());
    assert(after.cells.no_duplicates());
    lemma_positions(bucket);
    lemma_positions(after);
    assert forall|other: int| #[trigger] after.contains(other) implies bucket.contains(other)
        && other != bucket.cells[position] by {
        let i: int = after.position(other);
        if i == position {
            assert(bucket.cells[last] == other);
        } else {
            assert(bucket.cells[i] == other);
        }
    }
    assert forall|other: int| bucket.contains(other) && other != bucket.cells[position]
        implies #[trigger] after.contains(other) && after.position(other) == if other
        == bucket.cells[last] {
        position
    } else {
        bucket.position(other)
    } by {
        let i: int = bucket.position(other);
        if i == last {
            assert(after.cells[position] == other);
        } else {
            assert(after.cells[i] == other);
        }
    }
}

/// A removal gives back one block of capacity or none, and never the last
/// block.
pub proof fn lemma_remove_shrinks_at_most_once<T>(bucket: BucketView<T>, position: int)
    requires
        bucket.wf(),
        0 <= position < bucket.len(),
    ensures
        bucket.swap_remove(position).capacity == bucket.capacity || bucket.swap_remove(
            position,
        ).capacity == bucket.capacity - bucket.block_size,
        bucket.swap_remove(position).capacity >= bucket.block_size,
        bucket.swap_remove(position).block_size == bucket.block_size,
{
    lemma_remove_keeps_capacity_fitting(bucket.block_size, bucket.capacity, bucket.len());
}

/// `remove_at` keeps a bucket well formed whatever the position. It yields no
/// value exactly when the position is not occupied, and then it changes
/// nothing.
pub proof fn lemma_remove_at<T>(bucket: BucketView<T>, position: int)
    requires
        bucket.wf(),
    ensures
        bucket.remove_at(position).0.wf(),
        bucket.remove_at(position).1 is None <==> !(0 <= position < bucket.len()),
        bucket.remove_at(position).1 is None ==> bucket.remove_at(position).0 == bucket,
        bucket.remove_at(position).1 is Some ==> bucket.remove_at(position).0.len() == bucket.len()
            - 1,
{
    if 0 <= position < bucket.len() {
        lemma_swap_remove(bucket, position);
    }
}

/// Removing at the position of a live cell takes out the value that the
/// cell's handles resolve to, and leaves them stale.
pub proof fn lemma_remove_live_handle<T>(bucket: BucketView<T>, cell: int)
    requires
        bucket.wf(),
        bucket.contains(cell),
    ensures
        bucket.remove_at(bucket.position(cell)).1 == Some(bucket.value_of(cell)),
        bucket.remove_at(bucket.position(cell)).0 == bucket.swap_remove(bucket.position(cell)),
        !bucket.remove_at(bucket.position(cell)).0.contains(cell),
{
    lemma_positions(bucket);
    lemma_swap_remove(bucket, bucket.position(cell));
}

/// Removing twice at the same position, as happens when a handle is presented
/// again whose cell still holds the position from which its value was
/// removed: the second removal yields nothing, and changes nothing, if the
/// value was stored last, for then the position is no longer occupied.
/// Otherwise it takes out the value that was moved there.
pub proof fn lemma_remove_at_same_position_again<T>(bucket: BucketView<T>, position: int)
    requires
        bucket.wf(),
        0 <= position < bucket.len(),
    ensures
        ({
            let first = bucket.remove_at(position);
            let second = first.0.remove_at(position);
            &&& first.1 == Some(bucket.values[position])
            &&& position == bucket.len() - 1 ==> second.1 is None && second.0 == first.0
            &&& position < bucket.len() - 1 ==> second.1 == Some(bucket.values[bucket.len() - 1])
        }),
{
    lemma_swap_remove(bucket, position);
}

/// Once the only stored value has been removed through its handle, a further
/// removal yields nothing and changes nothing, whatever position it is made
/// at.
pub proof fn lemma_remove_twice_of_only_value<T>(bucket: BucketView<T>, cell: int, position: int)
    requires
        bucket.wf(),
        bucket.len() == 1,
        bucket.contains(cell),
    ensures
        ({
            let first = bucket.remove_at(bucket.position(cell));
            let second = first.0.remove_at(position);
            &&& first.1 == Some(bucket.value_of(cell))
            &&& second.1 is None
            &&& second.0 == first.0
        }),
{
    lemma_positions(bucket);
    lemma_swap_remove(bucket, bucket.position(cell));
}

} // verus!
