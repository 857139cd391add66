//! The vote tally: one 32-bit counter per (poll, option). A counter that was
//! never incremented reads 0; counters only grow, and never wrap.

use vstd::prelude::*;
use crate::error::Error;

verus! {

/// The count stored for one option of one poll.
pub struct ResultCounter {
    pub poll_id: u32,
    pub option: u32,
    pub count: u32,
}

/// The counters of all polls.
pub struct VoteTally {
    counters: Vec<ResultCounter>,
}

/// The count that the first `n` counters hold for (`poll_id`, `option`): that
/// of the last of them with this key, 0 where there is none.
pub open spec fn stored_count(counters: Seq<ResultCounter>, n: int, poll_id: u32, option: u32) -> u32
    decreases n,
{
    if n <= 0 {
        0
    } else if counters[n - 1].poll_id == poll_id && counters[n - 1].option == option {
        counters[n - 1].count
    } else {
        stored_count(counters, n - 1, poll_id, option)
    }
}

/// Two lists that agree on their first `n` counters hold the same count there.
proof fn lemma_same_prefix(a: Seq<ResultCounter>, b: Seq<ResultCounter>, n: int, p: u32, o: u32)
    requires
        n <= a.len(),
        n <= b.len(),
        forall|k: int| 0 <= k < n ==> a[k] == b[k],
    ensures
        stored_count(a, n, p, o) == stored_count(b, n, p, o),
    decreases n,
{
    if n > 0 {
        lemma_same_prefix(a, b, n - 1, p, o);
    }
}

/// Replacing the count of the last counter of a key changes that key's count
/// and no other.
proof fn lemma_replaced(
    a: Seq<ResultCounter>,
    b: Seq<ResultCounter>,
    at: int,
    n: int,
    p: u32,
    o: u32,
)
    requires
        0 <= at < a.len(),
        a.len() == b.len(),
        n <= a.len(),
        forall|k: int| 0 <= k < a.len() && k != at ==> a[k] == b[k],
        b[at].poll_id == a[at].poll_id,
        b[at].option == a[at].option,
        forall|k: int|
            at < k < a.len() ==> !(a[k].poll_id == a[at].poll_id && a[k].option == a[at].option),
    ensures
        stored_count(b, n, p, o) == if n > at && p == a[at].poll_id && o == a[at].option {
            b[at].count
        } else {
            stored_count(a, n, p, o)
        },
    decreases n,
{
    if n > 0 {
        lemma_replaced(a, b, at, n - 1, p, o);
    }
}

impl View for VoteTally {
    type V = Map<(u32, u32), u32>;

    closed spec fn view(&self) -> Map<(u32, u32), u32> {
        Map::total(
            |k: (u32, u32)| stored_count(self.counters@, self.counters@.len() as int, k.0, k.1),
        )
    }
}

impl VoteTally {
    /// A tally in which every counter reads 0.
    pub fn new() -> (r: VoteTally)
        ensures
            r@ == Map::<(u32, u32), u32>::total(|k: (u32, u32)| 0u32),
    {
        let r = VoteTally { counters: Vec::new() };
        assert(r@ =~= Map::<(u32, u32), u32>::total(|k: (u32, u32)| 0u32));
        r
    }

    /// The tally that a list of stored counters stands for. Where a key occurs
    /// more than once, its last counter holds its count.
    pub fn from_counters(counters: Vec<ResultCounter>) -> (r: VoteTally)
        ensures
            forall|k: (u32, u32)|
                r@.contains_key(k) && #[trigger] r@[k] == stored_count(
                    counters@,
                    counters@.len() as int,
                    k.0,
                    k.1,
                ),
    {
        VoteTally { counters }
    }

    /// Position and count of the last counter stored for a key.
    fn find(&self, poll_id: u32, option: u32) -> (r: (Option<usize>, u32))
        ensures
            r.1 == self@[(poll_id, option)],
            r.1 == stored_count(self.counters@, self.counters@.len() as int, poll_id, option),
            match r.0 {
                Some(at) => {
                    &&& at < self.counters@.len()
                    &&& self.counters@[at as int].poll_id == poll_id
                    &&& self.counters@[at as int].option == option
                    &&& forall|k: int|
                        at < k < self.counters@.len() ==> !(self.counters@[k].poll_id == poll_id
                            && self.counters@[k].option == option)
                },
                None => forall|k: int|
                    0 <= k < self.counters@.len() ==> !(self.counters@[k].poll_id == poll_id
                        && self.counters@[k].option == option),
            },
    {
        let mut found: Option<usize> = None;
        let mut count: u32 = 0;
        let mut i: usize = 0;
        while i < self.counters.len()
            invariant
                i <= self.counters@.len(),
                count == stored_count(self.counters@, i as int, poll_id, option),
                match found {
                    Some(at) => {
                        &&& at < i
                        &&& self.counters@[at as int].poll_id == poll_id
                        &&& self.counters@[at as int].option == option
                        &&& forall|k: int|
                            at < k < i ==> !(self.counters@[k].poll_id == poll_id
                                && self.counters@[k].option == option)
                    },
                    None => forall|k: int|
                        0 <= k < i ==> !(self.counters@[k].poll_id == poll_id
                            && self.counters@[k].option == option),
                },
            decreases self.counters.len() - i,
        {
            if self.counters[i].poll_id == poll_id && self.counters[i].option == option {
                found = Some(i);
                count = self.counters[i].count;
            }
            i += 1;
        }
        (found, count)
    }

    /// The count of `option` in poll `poll_id`.
    pub fn get_count(&self, poll_id: u32, option: u32) -> (r: u32)
        ensures
            r == self@[(poll_id, option)],
    {
        self.find(poll_id, option).1
    }

    /// Adds one vote to `option` of poll `poll_id` and returns the new count.
    /// A counter at the 32-bit maximum is left as it is and the call fails.
    pub fn increment(&mut self, poll_id: u32, option: u32) -> (r: Result<u32, Error>)
        ensures
            old(self)@[(poll_id, option)] < u32::MAX ==> r == Ok::<u32, Error>(
                (old(self)@[(poll_id, option)] + 1) as u32,
            ) && final(self)@ == old(self)@.insert(
                (poll_id, option),
                (old(self)@[(poll_id, option)] + 1) as u32,
            ),
            old(self)@[(poll_id, option)] == u32::MAX ==> r == Err::<u32, Error>(
                Error::ArithmeticOverflow,
            ) && final(self)@ == old(self)@,
    {
        let (found, count) = self.find(poll_id, option);
        if count == u32::MAX {
            return Err(Error::ArithmeticOverflow);
        }
        let next: u32 = count + 1;
        let ghost before = self.counters@;
        match found {
            Some(at) => {
                self.counters.set(at, ResultCounter { poll_id, option, count: next });
                proof {
                    let after = self.counters@;
                    assert forall|k: (u32, u32)|
                        stored_count(after, after.len() as int, k.0, k.1) == (if k == (
                            poll_id,
                            option,
                        ) {
                            next
                        } else {
                            stored_count(before, before.len() as int, k.0, k.1)
                        }) by {
                        lemma_replaced(before, after, at as int, before.len() as int, k.0, k.1);
                    }
                }
            },
            None => {
                self.counters.push(ResultCounter { poll_id, option, count: next });
                proof {
                    let after = self.counters@;
                    assert forall|k: (u32, u32)|
                        stored_count(after, after.len() as int, k.0, k.1) == (if k == (
                            poll_id,
                            option,
                        ) {
                            next
                        } else {
                            stored_count(before, before.len() as int, k.0, k.1)
                        }) by {
                        lemma_same_prefix(before, after, before.len() as int, k.0, k.1);
                    }
                }
            },
        }
        assert(self@ =~= old(self)@.insert((poll_id, option), next));
        Ok(next)
    }
}

} // verus!
