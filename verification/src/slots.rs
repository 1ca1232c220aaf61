//! Allocation of device image slots.
//!
//! A session keeps an optional rotating counter.  On first use the counter
//! is seeded with a pseudo-random start so that writes spread across the 16
//! slots; afterwards each request returns the counter and advances it by one
//! modulo 16.  Nothing survives a session: a new allocator starts unseeded.

use vstd::prelude::*;
use crate::codec::SLOT_COUNT;

verus! {

/// Relies on rand::random: draws a value from the thread-local generator.
/// Nothing can be promised of a random value.
#[verifier::external_body]
fn random_u64() -> u64 {
    rand::random::<u64>()
}

/// The slot counter of one device session.
pub struct SlotAllocator {
    counter: Option<u8>,
}

impl SlotAllocator {
    /// The counter the allocator currently holds, if it was ever seeded.
    pub closed spec fn spec_counter(self) -> Option<u8> {
        self.counter
    }

    /// A seeded allocator always holds a counter below the slot count.
    pub closed spec fn wf(self) -> bool {
        self.counter is Some ==> self.counter->0 < SLOT_COUNT
    }

    /// A fresh allocator is unseeded: slot choice never carries over from
    /// an earlier device session.
    pub fn new() -> (r: SlotAllocator)
        ensures
            r.spec_counter() is None,
            r.wf(),
    {
        SlotAllocator { counter: None }
    }

    /// Seeds the counter with a pseudo-random slot if it is still unseeded.
    pub fn seed_if_fresh(&mut self)
        requires
            old(self).wf(),
        ensures
            final(self).wf(),
            final(self).spec_counter() is Some,
            old(self).spec_counter() is Some ==> final(self).spec_counter() == old(
                self,
            ).spec_counter(),
    {
        if self.counter.is_none() {
            let start = (random_u64() % (SLOT_COUNT as u64)) as u8;
            self.counter = Some(start);
        }
    }

    /// Whether the allocator has handed out no slot yet in this session.
    pub fn is_fresh(&self) -> (r: bool)
        ensures
            r == (self.spec_counter() is None),
    {
        self.counter.is_none()
    }

    /// Returns the current slot and advances the counter by one modulo the
    /// slot count.
    pub fn take_next(&mut self) -> (r: u8)
        requires
            old(self).wf(),
            old(self).spec_counter() is Some,
        ensures
            final(self).wf(),
            r == old(self).spec_counter()->0,
            r < SLOT_COUNT,
            final(self).spec_counter() == Some((((r as int) + 1) % (SLOT_COUNT as int)) as u8),
    {
        let r = match self.counter {
            Some(c) => c,
            None => 0,
        };
        self.counter = Some((r + 1) % SLOT_COUNT);
        r
    }
}

/// The slot that the allocator hands out `k` requests after holding `start`.
pub open spec fn spec_slot_after(start: u8, k: nat) -> u8
    recommends
        start < SLOT_COUNT,
{
    (((start as int) + (k as int)) % (SLOT_COUNT as int)) as u8
}

/// Within one session the allocator round-robins modulo 16: from a seeded
/// counter `s`, successive requests yield `s, s+1, ..., s+15` modulo 16 and
/// the seventeenth request yields `s` again.
pub proof fn lemma_round_robin(start: u8, k: nat)
    requires
        start < SLOT_COUNT,
    ensures
        spec_slot_after(start, k + 1) == (((spec_slot_after(start, k) as int) + 1) % (
            SLOT_COUNT as int)) as u8,
        spec_slot_after(start, k + 16) == spec_slot_after(start, k),
        spec_slot_after(start, 0) == start,
{
    assert(((start + k) % 16 + 1) % 16 == (start + k + 1) % 16) by (nonlinear_arith)
        requires
            start < 16,
    ;
    assert((start + (k + 16)) % 16 == (start + k) % 16) by (nonlinear_arith);
    assert((start + 0) % 16 == start as int % 16);
    assert(start as int % 16 == start as int) by (nonlinear_arith)
        requires
            0 <= start < 16,
    ;
}

} // verus!
