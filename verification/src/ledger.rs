//! The nullifier ledger: which nullifiers have been consumed, poll by poll.
//! A consumed nullifier stays consumed; the same nullifier may be consumed
//! in several polls.

use vstd::prelude::*;
use crate::types::same_bytes;

verus! {

/// One consumed nullifier of one poll.
pub struct NullifierRecord {
    pub poll_id: u32,
    pub nullifier: [u8; 32],
}

/// The set of consumed (poll, nullifier) pairs.
pub struct NullifierLedger {
    records: Vec<NullifierRecord>,
}

impl View for NullifierLedger {
    type V = Set<(u32, Seq<u8>)>;

    closed spec fn view(&self) -> Set<(u32, Seq<u8>)> {
        Set::new(
            |k: (u32, Seq<u8>)|
                exists|i: int|
                    0 <= i < self.records@.len() && (#[trigger] self.records@[i]).poll_id == k.0
                        && self.records@[i].nullifier@ == k.1,
        )
    }
}

impl NullifierLedger {
    /// A ledger in which nothing is consumed.
    pub fn new() -> (r: NullifierLedger)
        ensures
            r@ == Set::<(u32, Seq<u8>)>::empty(),
    {
        let r = NullifierLedger { records: Vec::new() };
        assert(r@ =~= Set::<(u32, Seq<u8>)>::empty());
        r
    }

    /// Whether `nullifier` is consumed for poll `poll_id`.
    pub fn is_used(&self, poll_id: u32, nullifier: &[u8; 32]) -> (r: bool)
        ensures
            r == self@.contains((poll_id, nullifier@)),
    {
        let mut i: usize = 0;
        while i < self.records.len()
            invariant
                i <= self.records@.len(),
                forall|j: int|
                    0 <= j < i ==> !((#[trigger] self.records@[j]).poll_id == poll_id
                        && self.records@[j].nullifier@ == nullifier@),
            decreases self.records.len() - i,
        {
            if self.records[i].poll_id == poll_id && same_bytes(
                &self.records[i].nullifier,
                nullifier,
            ) {
                return true;
            }
            i += 1;
        }
        false
    }

    /// Consumes `nullifier` for poll `poll_id`. Consuming it again changes nothing.
    pub fn mark_used(&mut self, poll_id: u32, nullifier: &[u8; 32])
        ensures
            final(self)@ == old(self)@.insert((poll_id, nullifier@)),
    {
        if !self.is_used(poll_id, nullifier) {
            self.records.push(NullifierRecord { poll_id, nullifier: *nullifier });
            proof {
                let before = old(self).records@;
                let after = self.records@;
                assert forall|k: (u32, Seq<u8>)|
                    self@.contains(k) == old(self)@.insert((poll_id, nullifier@)).contains(
                        k,
                    ) by {
                    if old(self)@.contains(k) {
                        let i = choose|i: int|
                            0 <= i < before.len() && (#[trigger] before[i]).poll_id == k.0
                                && before[i].nullifier@ == k.1;
                        assert(after[i] == before[i]);
                    }
                    if k == (poll_id, nullifier@) {
                        assert(after[before.len() as int].poll_id == poll_id);
                    }
                    if self@.contains(k) {
                        let i = choose|i: int|
                            0 <= i < after.len() && (#[trigger] after[i]).poll_id == k.0
                                && after[i].nullifier@ == k.1;
                        if i < before.len() {
                            assert(after[i] == before[i]);
                        }
                    }
                }
            }
            assert(self@ =~= old(self)@.insert((poll_id, nullifier@)));
        } else {
            assert(self@ =~= old(self)@.insert((poll_id, nullifier@)));
        }
    }
}

} // verus!
