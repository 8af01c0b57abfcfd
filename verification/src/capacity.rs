//! The capacity tracker: a fixed block size and the capacity that a bucket
//! currently accounts for, which moves one block at a time.

use vstd::prelude::*;
use vstd::arithmetic::div_mod::lemma_mod_add_multiples_vanish;
use vstd::arithmetic::div_mod::lemma_mod_sub_multiples_vanish;
use vstd::arithmetic::div_mod::lemma_small_mod;
use vstd::arithmetic::div_mod::lemma_sub_mod_noop;

verus! {

/// Tracks the block size a bucket was created with and its current capacity.
///
/// The tracker is plain bookkeeping: `grow` adds one block, `shrink` takes one
/// away. Keeping the capacity a positive multiple of the block size, and never
/// below the number of stored elements, is the duty of the bucket that owns the
/// tracker (see `capacity_fits`).
#[derive(Debug)]
pub struct Capacity {
    block_size: usize,
    current: usize,
}

impl Clone for Capacity {
    fn clone(&self) -> (copy: Self)
        ensures
            copy == *self,
    {
        Self { block_size: self.block_size, current: self.current }
    }
}

impl Capacity {
    /// The fixed unit by which the capacity grows and shrinks.
    pub closed spec fn spec_block_size(&self) -> usize {
        self.block_size
    }

    /// The capacity currently accounted for.
    pub closed spec fn spec_current(&self) -> usize {
        self.current
    }

    /// A tracker whose block size and whose capacity are both `block_size`.
    pub fn new(block_size: usize) -> (capacity: Self)
        ensures
            capacity.block_size() == block_size,
            capacity.current() == block_size,
    {
        Self { block_size, current: block_size }
    }

    /// The fixed unit by which the capacity grows and shrinks.
    #[verifier::when_used_as_spec(spec_block_size)]
    pub fn block_size(&self) -> (block_size: usize)
        ensures
            block_size == self.spec_block_size(),
    {
        self.block_size
    }

    /// The capacity currently accounted for.
    #[verifier::when_used_as_spec(spec_current)]
    pub fn current(&self) -> (current: usize)
        ensures
            current == self.spec_current(),
    {
        self.current
    }

    /// Takes one block away from the current capacity, which must hold at
    /// least one.
    pub fn shrink(&mut self)
        requires
            old(self).current() >= old(self).block_size(),
        ensures
            final(self).current() == old(self).current() - old(self).block_size(),
            final(self).block_size() == old(self).block_size(),
    {
        self.current -= self.block_size;
    }

    /// Adds one block to the current capacity, which must stay within
    /// `usize::MAX`.
    pub fn grow(&mut self)
        requires
            old(self).current() + old(self).block_size() <= usize::MAX,
        ensures
            final(self).current() == old(self).current() + old(self).block_size(),
            final(self).block_size() == old(self).block_size(),
    {
        self.current += self.block_size;
    }
}

/// The capacity that a bucket of the given block size accounts for while it
/// holds `len` elements.
///
/// With a positive block size the capacity is a positive multiple of the block
/// size, covers every element, and is tight: a whole block stands empty only
/// when it is the last one left. With block size zero nothing is ever
/// accounted for.
pub open spec fn capacity_fits(block_size: nat, capacity: nat, len: nat) -> bool {
    if block_size == 0 {
        capacity == 0
    } else {
        &&& capacity % block_size == 0
        &&& capacity >= block_size
        &&& len <= capacity
        &&& (capacity - block_size < len || capacity == block_size)
    }
}

/// The capacity after one more element has been appended to `len` elements:
/// one block more if the bucket was full, unchanged otherwise.
pub open spec fn capacity_after_insert(block_size: nat, capacity: nat, len: nat) -> nat {
    if len == capacity {
        capacity + block_size
    } else {
        capacity
    }
}

/// The capacity after one of `len` elements has been removed: one block less
/// if the remaining elements, at least one, exactly fill the blocks below the
/// last one, unchanged otherwise.
pub open spec fn capacity_after_remove(block_size: nat, capacity: nat, len: nat) -> nat {
    if len - 1 > 0 && len - 1 == capacity - block_size {
        (capacity - block_size) as nat
    } else {
        capacity
    }
}

/// The fitting capacity is a function of the block size and the number of
/// elements: it does not depend on the insertions and removals that led
/// there. In particular an empty bucket accounts for exactly one block.
pub proof fn lemma_fitting_capacity_is_unique(block_size: nat, first: nat, second: nat, len: nat)
    requires
        capacity_fits(block_size, first, len),
        capacity_fits(block_size, second, len),
    ensures
        first == second,
        len == 0 ==> first == block_size,
{
    if block_size > 0 && first != second {
        // Two multiples of the block size that both cover `len` tightly lie
        // less than one block apart.
        let low: nat = if first < second { first } else { second };
        let high: nat = if first < second { second } else { first };
        let gap: nat = (high - low) as nat;
        assert(0 < gap < block_size);
        lemma_small_mod(gap, block_size);
        assert(gap % block_size == 0) by {
            lemma_sub_mod_noop(high as int, low as int, block_size as int);
            lemma_small_mod(0, block_size);
        }
    }
}

/// A fitting capacity still fits after an insertion.
pub proof fn lemma_insert_keeps_capacity_fitting(block_size: nat, capacity: nat, len: nat)
    requires
        capacity_fits(block_size, capacity, len),
    ensures
        capacity_fits(block_size, capacity_after_insert(block_size, capacity, len), len + 1),
{
    if block_size > 0 && len == capacity {
        lemma_mod_add_multiples_vanish(capacity as int, block_size as int);
    }
}

/// A fitting capacity still fits after a removal, and never drops below one
/// block.
pub proof fn lemma_remove_keeps_capacity_fitting(block_size: nat, capacity: nat, len: nat)
    requires
        capacity_fits(block_size, capacity, len),
        len > 0,
    ensures
        capacity_fits(
            block_size,
            capacity_after_remove(block_size, capacity, len),
            (len - 1) as nat,
        ),
        capacity_after_remove(block_size, capacity, len) >= block_size,
{
    if block_size > 0 && len - 1 > 0 && len - 1 == capacity - block_size {
        let rest: nat = (capacity - block_size) as nat;
        lemma_mod_sub_multiples_vanish(capacity as int, block_size as int);
        assert(rest % block_size == 0);
        if rest < block_size {
            lemma_small_mod(rest, block_size);
        }
    }
}

} // verus!
