//! The bucket: contiguous storage with stable handles.

use vstd::prelude::*;
use crate::capacity::Capacity;
use crate::model::lemma_insert;
use crate::model::lemma_positions;
use crate::model::lemma_swap_remove;
use crate::model::BucketView;
use crate::slot::new_cell;
use crate::slot::Slot;
use crate::slot::Value;
use crate::slot::ValueIndex;
use crate::slot::ValueRef;

verus! {

/// A resizable container that stores its values contiguously.
///
/// `insert` hands out a handle for each value. The handle stays valid for
/// `get` and `remove` until that value is removed, although the removal of
/// other values may move the value to another position.
///
/// The capacity is accounted for in blocks of the size given to `new`.
#[derive(Debug)]
pub struct Bucket<T> {
    data: Vec<Value<T>>,
    /// The capacity tracker. A bucket whose tracker has been changed from
    /// outside is no longer known to be well formed.
    pub capacity: Capacity,
}

impl<T> View for Bucket<T> {
    type V = BucketView<T>;

    closed spec fn view(&self) -> BucketView<T> {
        BucketView {
            values: Seq::new(self.data@.len(), |i: int| self.data@[i].value()),
            cells: Seq::new(self.data@.len(), |i: int| self.data@[i].cell()),
            block_size: self.capacity.block_size() as nat,
            capacity: self.capacity.current() as nat,
        }
    }
}

/// Gives back spare backing storage of `vec` with `Vec::shrink_to`.
///
/// Trusted: the elements of the vector stay as they are; only its spare
/// storage may be released, down to room for `min_capacity` elements.
#[verifier::external_body]
fn shrink_to<T>(vec: &mut Vec<T>, min_capacity: usize)
    ensures
        final(vec)@ == old(vec)@,
{
    vec.shrink_to(min_capacity);
}

impl<T> Bucket<T> {
    /// The position held by the cell of the record stored at `i`.
    pub closed spec fn slot_position(&self, i: int) -> usize {
        self.data@[i].position()
    }

    /// The cell of every stored record holds the record's position.
    pub closed spec fn slots_in_place(&self) -> bool {
        forall|i: int| 0 <= i < self.data@.len() ==> #[trigger] self.slot_position(i) == i
    }

    /// The model is well formed, and the cell of every stored record holds the
    /// record's position.
    ///
    /// `new` and `default` establish this, and every function that changes a
    /// bucket preserves it: it holds in every state that they can reach.
    pub open spec fn wf(&self) -> bool {
        &&& self@.wf()
        &&& self.slots_in_place()
    }

    /// In a well-formed bucket, the cell of the record at position `i` holds
    /// `i`.
    pub proof fn lemma_slot_positions(&self)
        requires
            self.wf(),
        ensures
            forall|i: int| 0 <= i < self@.len() ==> #[trigger] self.slot_position(i) == i,
    {
    }

    /// The record that owns a live cell is stored at the position that the
    /// cell holds.
    proof fn lemma_live_cell(&self, cell: int)
        requires
            self.wf(),
            self@.contains(cell),
        ensures
            0 <= self@.position(cell) < self.data@.len(),
            self.data@[self@.position(cell)].cell() == cell,
            self.data@[self@.position(cell)].position() == self@.position(cell),
            self.data@[self@.position(cell)].value() == self@.value_of(cell),
    {
        lemma_positions(self@);
        assert(self.slot_position(self@.position(cell)) == self@.position(cell));
    }

    /// Creates an empty bucket whose block size and first capacity are
    /// `capacity`.
    pub fn new(capacity: usize) -> (bucket: Self)
        ensures
            bucket.wf(),
            bucket@ == BucketView::<T>::empty(capacity as nat),
    {
        Self { data: Vec::with_capacity(capacity), capacity: Capacity::new(capacity) }
    }

    /// The number of stored values.
    pub fn len(&self) -> (len: usize)
        ensures
            len == self@.len(),
    {
        self.data.len()
    }

    /// The capacity currently accounted for.
    pub fn capacity(&self) -> (capacity: usize)
        ensures
            capacity == self@.capacity,
    {
        self.capacity.current()
    }

    /// Whether no value is stored.
    pub fn is_empty(&self) -> (empty: bool)
        ensures
            empty <==> self@.len() == 0,
    {
        self.data.is_empty()
    }

    /// A borrowed view of every stored record, in storage order.
    ///
    /// Each call reflects the contents at that time. The order is not stable
    /// across removals, which move the last record into the gap.
    pub fn iter(&self) -> (records: Vec<ValueRef<'_, T>>)
        ensures
            records@.len() == self@.len(),
            forall|i: int|
                0 <= i < records@.len() ==> (#[trigger] records@[i]).value() == self@.values[i]
                    && records@[i].cell() == self@.cells[i],
    {
        let mut records: Vec<ValueRef<'_, T>> = Vec::with_capacity(self.data.len());
        let mut i: usize = 0;
        while i < self.data.len()
            invariant
                i <= self.data@.len(),
                records@.len() == i,
                forall|j: int|
                    0 <= j < i ==> (#[trigger] records@[j]).value() == self@.values[j]
                        && records@[j].cell() == self@.cells[j],
            decreases self.data@.len() - i,
        {
            records.push(self.data[i].as_value_ref());
            i += 1;
        }
        records
    }

    /// The value that a live handle resolves to.
    pub fn get(&self, index: &ValueIndex) -> (value: &T)
        requires
            self.wf(),
            self@.contains(index@),
        ensures
            *value == self@.value_of(index@),
    {
        proof {
            self.lemma_live_cell(index@);
        }
        let position: usize = index.read(&self.data);
        &self.data[position]
    }

    /// Appends `data` and returns a handle to it.
    ///
    /// A full bucket first grows by exactly one block, which must not take
    /// the capacity past `usize::MAX`; a bucket with room left keeps its
    /// capacity. The handles that were live stay live and keep resolving to
    /// the same values.
    pub fn insert(&mut self, data: T) -> (index: ValueIndex)
        requires
            old(self).wf(),
            old(self)@.len() < old(self)@.capacity || old(self)@.capacity + old(self)@.block_size
                <= usize::MAX,
        ensures
            final(self).wf(),
            !old(self)@.contains(index@),
            final(self)@ == old(self)@.insert(data, index@),
            final(self)@.contains(index@),
            final(self)@.position(index@) == old(self)@.len(),
            final(self)@.value_of(index@) == data,
            old(self)@.handles_survive(final(self)@, index@),
            final(self)@.capacity == if old(self)@.len() == old(self)@.capacity {
                old(self)@.capacity + old(self)@.block_size
            } else {
                old(self)@.capacity
            },
    {
        let n: usize = self.len();
        if n == self.capacity() {
            self.grow();
        }
        let slot = Slot::new(new_cell(&self.data, n));
        let index = slot.index();
        proof {
            assert(!old(self)@.contains(index@)) by {
                if old(self)@.contains(index@) {
                    old(self).lemma_live_cell(index@);
                }
            }
            lemma_insert(old(self)@, data, index@);
        }
        self.data.push(Value::new(data, slot));
        proof {
            assert(self@.cells =~= old(self)@.cells.push(index@));
            assert forall|i: int| 0 <= i < self.data@.len() implies #[trigger] self.slot_position(
                i,
            ) == i by {
                if i < n {
                    assert(old(self).slot_position(i) == i);
                }
            }
        }
        index
    }

    /// Removes the value at the position that the handle's cell holds, if
    /// that position is occupied, and returns it.
    ///
    /// A live handle always removes the value it resolves to. What the cell of
    /// a stale handle holds, the bucket does not know: the outcome is that of
    /// `remove_at` for some position. It is `None`, with the bucket unchanged,
    /// when the position is not occupied; when another value is stored there,
    /// that value is removed.
    pub fn remove(&mut self, index: ValueIndex) -> (value: Option<T>)
        requires
            old(self).wf(),
        ensures
            final(self).wf(),
            exists|reading: int|
                final(self)@ == (#[trigger] old(self)@.remove_at(reading)).0 && value == old(
                    self,
                )@.remove_at(reading).1,
            old(self)@.contains(index@) ==> value == Some(old(self)@.value_of(index@))
                && final(self)@ == old(self)@.swap_remove(old(self)@.position(index@))
                && !final(self)@.contains(index@) && old(self)@.handles_survive(
                final(self)@,
                index@,
            ),
    {
        proof {
            if self@.contains(index@) {
                self.lemma_live_cell(index@);
                lemma_swap_remove(self@, self@.position(index@));
            }
        }
        let reading: usize = index.read(&self.data);
        self.remove_at(reading)
    }

    /// Removes the value stored at `position`, if there is one, and returns
    /// it. Otherwise the bucket stays as it is.
    pub fn remove_at(&mut self, position: usize) -> (value: Option<T>)
        requires
            old(self).wf(),
        ensures
            final(self).wf(),
            final(self)@ == old(self)@.remove_at(position as int).0,
            value == old(self)@.remove_at(position as int).1,
            position < old(self)@.len() ==> old(self)@.handles_survive(
                final(self)@,
                old(self)@.cells[position as int],
            ),
    {
        if position < self.data.len() {
            Some(self.swap_remove(position))
        } else {
            None
        }
    }

    /// Removes the value that a live handle resolves to and returns it,
    /// without checking the position that the handle's cell holds.
    pub fn remove_unchecked(&mut self, index: ValueIndex) -> (value: T)
        requires
            old(self).wf(),
            old(self)@.contains(index@),
        ensures
            final(self).wf(),
            value == old(self)@.value_of(index@),
            final(self)@ == old(self)@.swap_remove(old(self)@.position(index@)),
            !final(self)@.contains(index@),
            old(self)@.handles_survive(final(self)@, index@),
    {
        proof {
            self.lemma_live_cell(index@);
            lemma_swap_remove(self@, self@.position(index@));
        }
        let position: usize = index.read(&self.data);
        self.swap_remove(position)
    }

    /// Removes the record at an occupied position by moving the last record
    /// into its place, writes the new position into the cell of the moved
    /// record, and gives back one block of capacity when the remaining
    /// records exactly fill the blocks below the last one.
    fn swap_remove(&mut self, position: usize) -> (value: T)
        requires
            old(self).wf(),
            position < old(self)@.len(),
        ensures
            final(self).wf(),
            value == old(self)@.values[position as int],
            final(self)@ == old(self)@.swap_remove(position as int),
            old(self)@.handles_survive(final(self)@, old(self)@.cells[position as int]),
    {
        proof {
            lemma_swap_remove(self@, position as int);
        }
        let last: usize = self.len() - 1;
        let record = self.data.swap_remove(position);
        if position < last {
            self.data[position].set_position(position);
        }
        if last > 0 && last == self.capacity.current() - self.capacity.block_size() {
            self.shrink();
        }
        proof {
            assert(self@.values =~= old(self)@.swap_remove(position as int).values);
            assert(self@.cells =~= old(self)@.swap_remove(position as int).cells);
            assert forall|i: int| 0 <= i < self.data@.len() implies #[trigger] self.slot_position(
                i,
            ) == i by {
                if i != position {
                    assert(old(self).slot_position(i) == i);
                }
            }
        }
        record.into_data()
    }

    /// Accounts for one more block and reserves backing storage for it.
    fn grow(&mut self)
        requires
            old(self).capacity.current() + old(self).capacity.block_size() <= usize::MAX,
        ensures
            final(self).data@ == old(self).data@,
            final(self).capacity.block_size() == old(self).capacity.block_size(),
            final(self).capacity.current() == old(self).capacity.current()
                + old(self).capacity.block_size(),
    {
        self.capacity.grow();
        self.data.reserve(self.capacity.block_size());
    }

    /// Accounts for one block less and releases backing storage down to the
    /// new capacity.
    fn shrink(&mut self)
        requires
            old(self).capacity.current() >= old(self).capacity.block_size(),
        ensures
            final(self).data@ == old(self).data@,
            final(self).capacity.block_size() == old(self).capacity.block_size(),
            final(self).capacity.current() == old(self).capacity.current()
                - old(self).capacity.block_size(),
    {
        self.capacity.shrink();
        shrink_to(&mut self.data, self.capacity.current());
    }
}

impl<T> Default for Bucket<T> {
    /// An empty bucket with block size 32.
    fn default() -> (bucket: Self)
        ensures
            bucket.wf(),
            bucket@ == BucketView::<T>::empty(32),
    {
        Self::new(32)
    }
}

} // verus!
