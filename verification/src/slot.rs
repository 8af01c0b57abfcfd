//! Position cells, the records that own them and the handles that share them.
//!
//! A position cell is a reference-counted atomic integer. It has two kinds of
//! owners. The stored record holds it as a `Slot` and is its only writer: it
//! writes through an exclusive borrow, so in contracts the position is part
//! of the slot's value. Handles (`ValueIndex`) share the cell read-only, and
//! in contracts they carry nothing but the cell's identity: what a handle
//! reads is known only by way of the record that owns the same cell.
//!
//! Nothing outside this module can reach a cell itself, so nothing but
//! `Slot::write` ever changes what a cell holds.

use vstd::prelude::*;
use std::rc::Rc;
use std::sync::atomic::AtomicUsize;
use std::sync::atomic::Ordering;

verus! {

/// The identity of a position cell: the same for every owner that shares the
/// cell, and never the same for two cells that exist side by side.
pub uninterp spec fn cell_id(cell: AtomicUsize) -> int;

/// The position that a cell holds, as seen by the slot that writes it.
pub uninterp spec fn cell_position(cell: AtomicUsize) -> usize;

/// The writing side of a position cell, owned by a stored record.
#[derive(Debug)]
pub(crate) struct Slot {
    cell: Rc<AtomicUsize>,
}

/// A handle to a stored value: a read-only share of the value's position cell.
///
/// Its view is the identity of that cell. A handle is live while the bucket
/// that issued it still stores the value, and stale afterwards.
#[derive(Debug)]
pub struct ValueIndex(Rc<AtomicUsize>);

impl View for ValueIndex {
    type V = int;

    closed spec fn view(&self) -> int {
        cell_id(*self.0)
    }
}

impl Clone for ValueIndex {
    /// Another handle to the same value: it shares the cell, not a copy of it.
    fn clone(&self) -> (index: Self)
        ensures
            index@ == self@,
    {
        ValueIndex(self.0.clone())
    }
}

/// Creates a position cell with `AtomicUsize::new`.
///
/// Trusted: the new cell holds `position`, and it is a cell of its own, none
/// of those that `records` own.
#[verifier::external_body]
#[allow(unused_variables)]
pub(crate) fn new_cell<T>(records: &Vec<Value<T>>, position: usize) -> (cell: AtomicUsize)
    ensures
        cell_position(cell) == position,
        forall|i: int|
            0 <= i < records@.len() ==> (#[trigger] records@[i]).cell() != cell_id(cell),
{
    AtomicUsize::new(position)
}

impl ValueIndex {
    /// Reads the position that the handle's cell holds, with
    /// `AtomicUsize::load`, relaxed.
    ///
    /// Trusted: if one of `records` owns the cell that the handle shares, the
    /// position read is the one that this record's slot holds. The two are
    /// owners of one cell, and the record is its only writer. Of a handle
    /// whose cell none of `records` owns, nothing is claimed.
    #[verifier::external_body]
    #[allow(unused_variables)]
    pub(crate) fn read<T>(&self, records: &Vec<Value<T>>) -> (position: usize)
        ensures
            forall|i: int|
                0 <= i < records@.len() && (#[trigger] records@[i]).cell() == self@ ==> position
                    == records@[i].position(),
    {
        self.0.load(Ordering::Relaxed)
    }
}

impl Slot {
    /// The identity of the slot's cell.
    pub(crate) closed spec fn id(&self) -> int {
        cell_id(*self.cell)
    }

    /// The position that the slot's cell holds.
    pub(crate) closed spec fn position(&self) -> usize {
        cell_position(*self.cell)
    }

    /// Takes ownership of a cell that nobody shares yet.
    pub(crate) fn new(cell: AtomicUsize) -> (slot: Slot)
        ensures
            slot.id() == cell_id(cell),
            slot.position() == cell_position(cell),
    {
        Slot { cell: Rc::new(cell) }
    }

    /// Writes `position` into the cell with `AtomicUsize::store`, relaxed.
    ///
    /// Trusted: afterwards the cell holds `position`, and it is still the same
    /// cell. The store itself needs no exclusive borrow; the slot asks for
    /// one so that every change of the position is a change of the slot.
    #[verifier::external_body]
    pub(crate) fn write(&mut self, position: usize)
        ensures
            final(self).position() == position,
            final(self).id() == old(self).id(),
    {
        self.cell.store(position, Ordering::Relaxed);
    }

    /// A new handle that shares the slot's cell.
    pub(crate) fn index(&self) -> (index: ValueIndex)
        ensures
            index@ == self.id(),
    {
        ValueIndex(self.cell.clone())
    }
}

/// A stored record: a value together with the slot whose cell holds the
/// value's position in the bucket.
#[derive(Debug)]
pub struct Value<T> {
    data: T,
    slot: Slot,
}

impl<T> Value<T> {
    /// The stored value.
    pub closed spec fn value(&self) -> T {
        self.data
    }

    /// The identity of the record's position cell.
    pub closed spec fn cell(&self) -> int {
        self.slot.id()
    }

    /// The position that the record's cell holds.
    pub closed spec fn position(&self) -> usize {
        self.slot.position()
    }

    /// The record that stores `data` under `slot`.
    pub(crate) fn new(data: T, slot: Slot) -> (record: Self)
        ensures
            record.value() == data,
            record.cell() == slot.id(),
            record.position() == slot.position(),
    {
        Value { data, slot }
    }

    /// Takes the value out of the record and lets go of the cell.
    pub(crate) fn into_data(self) -> (data: T)
        ensures
            data == self.value(),
    {
        self.data
    }

    /// Writes the record's new position into its cell.
    pub(crate) fn set_position(&mut self, position: usize)
        ensures
            final(self).position() == position,
            final(self).cell() == old(self).cell(),
            final(self).value() == old(self).value(),
    {
        self.slot.write(position);
    }

    /// Borrows the record's value and slot.
    pub fn as_value_ref(&self) -> (borrowed: ValueRef<'_, T>)
        ensures
            borrowed.value() == self.value(),
            borrowed.cell() == self.cell(),
    {
        ValueRef { data: &self.data, slot: &self.slot }
    }
}

impl<T> std::ops::Deref for Value<T> {
    type Target = T;

    fn deref(&self) -> (data: &T)
        ensures
            *data == self.value(),
    {
        &self.data
    }
}

impl<T> std::ops::DerefMut for Value<T> {
    fn deref_mut(&mut self) -> (data: &mut T)
        ensures
            *data == old(self).value(),
            final(self).value() == *final(data),
            final(self).cell() == old(self).cell(),
            final(self).position() == old(self).position(),
    {
        &mut self.data
    }
}

/// A borrowed view of a stored record, as iteration yields it.
#[derive(Debug)]
pub struct ValueRef<'a, T> {
    data: &'a T,
    slot: &'a Slot,
}

impl<'a, T> ValueRef<'a, T> {
    /// The stored value.
    pub closed spec fn value(&self) -> T {
        *self.data
    }

    /// The identity of the record's position cell.
    pub closed spec fn cell(&self) -> int {
        self.slot.id()
    }

    /// A new handle to the borrowed record's value.
    pub fn index(&self) -> (index: ValueIndex)
        ensures
            index@ == self.cell(),
    {
        self.slot.index()
    }
}

impl<'a, T> std::ops::Deref for ValueRef<'a, T> {
    type Target = &'a T;

    fn deref(&self) -> (data: &&'a T)
        ensures
            **data == self.value(),
    {
        &self.data
    }
}

impl<'a, T> std::ops::DerefMut for ValueRef<'a, T> {
    fn deref_mut(&mut self) -> (data: &mut &'a T)
        ensures
            **data == old(self).value(),
            final(self).value() == **final(data),
            final(self).cell() == old(self).cell(),
    {
        &mut self.data
    }
}

} // verus!
