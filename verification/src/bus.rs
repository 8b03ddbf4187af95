//! Bounded single-producer / multi-subscriber broadcast.
//!
//! A [`BroadcastBus`] keeps a ring of the most recently published values
//! and one read cursor per subscriber. Publishing never waits for anyone:
//! when the ring is full the oldest value is dropped. A subscriber that
//! has fallen more than its backlog depth behind is advanced to the oldest
//! value still retained for it — delivery is lossy under load, but what a
//! subscriber sees is always a subsequence of the published values in
//! publish order: last-value-monotonic, never reordered, never repeated.
//!
//! Reading is non-blocking here: [`BroadcastBus::try_next`] returns `None`
//! when the subscriber has seen everything, and the surrounding event loop
//! decides how to wait for the next publish. Because delivery starts at
//! subscription time, an adapter that needs the state from before it
//! subscribed must cache it itself (see [`crate::adc_keypad::KeypadButton`]).

use vstd::arithmetic::div_mod::lemma_mod_division_less_than_divisor;
use vstd::arithmetic::div_mod::lemma_mod_equivalence;
use vstd::arithmetic::div_mod::lemma_small_mod;
use vstd::prelude::*;

verus! {

/// Construction failure: the bus was built for a fixed number of
/// subscriber slots and they are all taken. This indicates a static
/// configuration bug and must not be ignored.
#[derive(Debug, Clone, Copy, PartialEq, Eq, Structural)]
pub enum BusError {
    /// No subscriber slot is left.
    TooManySubscribers,
}

/// Well-formedness of one subscriber's observation record: the indices of
/// the published values it has seen are valid, strictly increasing, and
/// all lie before its read cursor.
pub open spec fn observations_wf(obs: Seq<int>, cursor: int, published: int) -> bool {
    &&& forall|k: int| 0 <= k < obs.len() ==> 0 <= #[trigger] obs[k] < published
    &&& forall|k1: int, k2: int|
        0 <= k1 < k2 < obs.len() ==> #[trigger] obs[k1] < #[trigger] obs[k2]
    &&& obs.len() > 0 ==> obs[obs.len() - 1] < cursor
}

/// The history index a subscriber reads next: its own cursor, unless it
/// has fallen more than `backlog` values behind, in which case it is
/// advanced to the oldest value still retained for it.
pub open spec fn next_read_index(cursor: int, published: int, backlog: int) -> int {
    if published - backlog > cursor {
        published - backlog
    } else {
        cursor
    }
}

/// A fixed-capacity broadcast ring with one publisher and up to
/// `max_subscribers` independent read cursors.
///
/// `history()` is the (ghost) sequence of everything ever published;
/// `cursor(s)` is the history index subscriber `s` reads next; and
/// `observed(s)` records, as history indices, every value `s` has read.
pub struct BroadcastBus<T: Copy> {
    ring: Vec<T>,
    capacity: usize,
    backlog: usize,
    max_subscribers: usize,
    published: usize,
    cursors: Vec<usize>,
    history: Ghost<Seq<T>>,
    observed: Ghost<Seq<Seq<int>>>,
}

impl<T: Copy> BroadcastBus<T> {
    /// Everything ever published, oldest first.
    pub closed spec fn history(&self) -> Seq<T> {
        self.history@
    }

    /// How many values were ever published.
    pub closed spec fn published(&self) -> int {
        self.published as int
    }

    /// The number of retained values the ring was built for.
    pub closed spec fn capacity(&self) -> int {
        self.capacity as int
    }

    /// The per-subscriber backlog depth the bus was built with.
    pub closed spec fn backlog(&self) -> int {
        self.backlog as int
    }

    /// The fixed number of subscriber slots.
    pub closed spec fn max_subscribers(&self) -> int {
        self.max_subscribers as int
    }

    /// How many subscriber slots are taken.
    pub closed spec fn num_subscribers(&self) -> int {
        self.cursors.len() as int
    }

    /// The history index subscriber `s` reads next.
    pub closed spec fn cursor(&self, s: int) -> int {
        self.cursors@[s] as int
    }

    /// The history indices subscriber `s` has read, in reading order.
    pub closed spec fn observed(&self, s: int) -> Seq<int> {
        self.observed@[s]
    }

    /// Internal consistency: the ring mirrors the retained tail of the
    /// history, and every subscriber's cursor and observation record are
    /// in range and ordered.
    pub closed spec fn wf(&self) -> bool {
        &&& self.capacity > 0
        &&& 0 < self.backlog <= self.capacity
        &&& self.cursors@.len() <= self.max_subscribers
        &&& self.history@.len() == self.published
        &&& self.ring@.len() == if self.published < self.capacity {
            self.published as int
        } else {
            self.capacity as int
        }
        &&& forall|j: int|
            self.published - self.ring@.len() <= j < self.published
                ==> self.ring@[j % (self.capacity as int)] == #[trigger] self.history@[j]
        &&& self.observed@.len() == self.cursors@.len()
        &&& forall|s: int|
            0 <= s < self.cursors@.len() ==> #[trigger] self.cursors@[s] <= self.published
        &&& forall|s: int|
            0 <= s < self.cursors@.len() ==> observations_wf(
                #[trigger] self.observed@[s],
                self.cursors@[s] as int,
                self.published as int,
            )
    }

    /// A new bus that retains the last `capacity` published values, serves
    /// at most `max_subscribers` subscribers, and lets each fall at most
    /// `backlog` values behind before advancing it.
    pub fn new(capacity: usize, max_subscribers: usize, backlog: usize) -> (bus: Self)
        requires
            capacity > 0,
            0 < backlog <= capacity,
        ensures
            bus.wf(),
            bus.history() == Seq::<T>::empty(),
            bus.published() == 0,
            bus.capacity() == capacity,
            bus.backlog() == backlog,
            bus.max_subscribers() == max_subscribers,
            bus.num_subscribers() == 0,
    {
        BroadcastBus {
            ring: Vec::new(),
            capacity,
            backlog,
            max_subscribers,
            published: 0,
            cursors: Vec::new(),
            history: Ghost(Seq::empty()),
            observed: Ghost(Seq::empty()),
        }
    }

    /// How many values were ever published (for callers that must keep the
    /// count below `usize::MAX` before publishing).
    pub fn published_count(&self) -> (n: usize)
        ensures
            n as int == self.published(),
    {
        self.published
    }

    /// How many subscriber slots are taken.
    pub fn subscriber_count(&self) -> (n: usize)
        ensures
            n as int == self.num_subscribers(),
    {
        self.cursors.len()
    }

    /// Takes the next free subscriber slot, if any, and returns its index.
    /// A new subscriber starts at the current end of the history: it is
    /// delivered only values published after it subscribed. Fails if and
    /// only if all slots are taken.
    pub fn subscribe(&mut self) -> (r: Result<usize, BusError>)
        requires
            old(self).wf(),
        ensures
            final(self).wf(),
            final(self).history() == old(self).history(),
            final(self).published() == old(self).published(),
            final(self).capacity() == old(self).capacity(),
            final(self).backlog() == old(self).backlog(),
            final(self).max_subscribers() == old(self).max_subscribers(),
            r is Ok <==> old(self).num_subscribers() < old(self).max_subscribers(),
            r matches Ok(id) ==> {
                &&& id as int == old(self).num_subscribers()
                &&& final(self).num_subscribers() == old(self).num_subscribers() + 1
                &&& final(self).cursor(id as int) == old(self).published()
                &&& final(self).observed(id as int) == Seq::<int>::empty()
                &&& forall|s: int|
                    0 <= s < old(self).num_subscribers() ==> #[trigger] final(self).cursor(s)
                        == old(self).cursor(s) && final(self).observed(s) == old(self).observed(
                        s,
                    )
            },
            r is Err ==> *final(self) == *old(self),
    {
        if self.cursors.len() < self.max_subscribers {
            let id = self.cursors.len();
            self.cursors.push(self.published);
            self.observed = Ghost(self.observed@.push(Seq::empty()));
            Ok(id)
        } else {
            Err(BusError::TooManySubscribers)
        }
    }

    /// Publishes one value. Publishing never waits: when the ring is full
    /// the oldest retained value is dropped, and no subscriber's cursor is
    /// touched — a slow subscriber is advanced when it next reads.
    pub fn publish(&mut self, value: T)
        requires
            old(self).wf(),
            old(self).published() < usize::MAX,
        ensures
            final(self).wf(),
            final(self).history() == old(self).history().push(value),
            final(self).published() == old(self).published() + 1,
            final(self).capacity() == old(self).capacity(),
            final(self).backlog() == old(self).backlog(),
            final(self).max_subscribers() == old(self).max_subscribers(),
            final(self).num_subscribers() == old(self).num_subscribers(),
            forall|s: int|
                0 <= s < old(self).num_subscribers()
                    ==> #[trigger] final(self).cursor(s) == old(self).cursor(s)
                    && final(self).observed(s) == old(self).observed(s),
    {
        proof {
            lemma_mod_division_less_than_divisor(self.published as int, self.capacity as int);
        }
        if self.ring.len() < self.capacity {
            self.ring.push(value);
            proof {
                lemma_small_mod(self.published as nat, self.capacity as nat);
            }
        } else {
            let idx = self.published % self.capacity;
            self.ring.set(idx, value);
        }
        self.published = self.published + 1;
        self.history = Ghost(self.history@.push(value));
        proof {
            let cap = self.capacity as int;
            let pub_old = old(self).published as int;
            let pub_new = self.published as int;
            assert forall|j: int|
                pub_new - self.ring@.len() <= j < pub_new implies self.ring@[j % cap]
                == #[trigger] self.history@[j] by {
                lemma_mod_division_less_than_divisor(j, cap);
                lemma_mod_division_less_than_divisor(pub_old, cap);
                if j == pub_old {
                    // The newly published value sits in the slot written above.
                    if pub_old < cap {
                        lemma_small_mod(pub_old as nat, cap as nat);
                    }
                    assert(self.ring@[j % cap] == value);
                } else {
                    // An older retained value: its history entry is
                    // unchanged, and its slot is untouched because two
                    // distinct indices of the retained window never share
                    // a ring slot.
                    assert(self.history@[j] == old(self).history@[j]);
                    assert(old(self).ring@[j % cap] == old(self).history@[j]);
                    if old(self).ring@.len() < old(self).capacity {
                        lemma_small_mod(j as nat, cap as nat);
                        assert(self.ring@[j % cap] == old(self).ring@[j % cap]);
                    } else {
                        lemma_mod_equivalence(pub_old, j, cap);
                        lemma_small_mod((pub_old - j) as nat, cap as nat);
                        assert((pub_old - j) % cap != 0);
                        assert(j % cap != pub_old % cap);
                        assert(self.ring@[j % cap] == old(self).ring@[j % cap]);
                    }
                }
            }
        }
    }

    /// Reads the next value for subscriber `sub`, without blocking.
    ///
    /// Returns `None` when the subscriber has seen every published value.
    /// Otherwise it returns the history entry at [`next_read_index`]: the
    /// subscriber's own cursor, or — if it has fallen more than the
    /// backlog depth behind — the oldest value still retained for it, so
    /// a publisher is never held back by a slow reader.
    pub fn try_next(&mut self, sub: usize) -> (r: Option<T>)
        requires
            old(self).wf(),
            (sub as int) < old(self).num_subscribers(),
        ensures
            final(self).wf(),
            final(self).history() == old(self).history(),
            final(self).published() == old(self).published(),
            final(self).capacity() == old(self).capacity(),
            final(self).backlog() == old(self).backlog(),
            final(self).max_subscribers() == old(self).max_subscribers(),
            final(self).num_subscribers() == old(self).num_subscribers(),
            forall|s: int|
                0 <= s < old(self).num_subscribers() && s != sub as int
                    ==> #[trigger] final(self).cursor(s) == old(self).cursor(s)
                    && final(self).observed(s) == old(self).observed(s),
            old(self).cursor(sub as int) == old(self).published() ==> {
                &&& r is None
                &&& final(self).cursor(sub as int) == old(self).cursor(sub as int)
                &&& final(self).observed(sub as int) == old(self).observed(sub as int)
            },
            old(self).cursor(sub as int) < old(self).published() ==> ({
                let j = next_read_index(
                    old(self).cursor(sub as int),
                    old(self).published(),
                    old(self).backlog(),
                );
                &&& r == Some(old(self).history()[j])
                &&& final(self).cursor(sub as int) == j + 1
                &&& final(self).observed(sub as int) == old(self).observed(sub as int).push(j)
            }),
    {
        let cur = self.cursors[sub];
        if cur == self.published {
            None
        } else {
            let behind = self.published - cur;
            let j = if behind > self.backlog {
                self.published - self.backlog
            } else {
                cur
            };
            proof {
                lemma_mod_division_less_than_divisor(j as int, self.capacity as int);
                if (self.published as int) < self.capacity as int {
                    lemma_small_mod(j as nat, self.capacity as nat);
                }
            }
            let idx = j % self.capacity;
            let v = self.ring[idx];
            self.cursors.set(sub, j + 1);
            self.observed = Ghost(
                self.observed@.update(
                    sub as int,
                    self.observed@[sub as int].push(j as int),
                ),
            );
            proof {
                let obs_new = self.observed@[sub as int];
                let obs_old = old(self).observed@[sub as int];
                assert(obs_new == obs_old.push(j as int));
                assert forall|k1: int, k2: int|
                    0 <= k1 < k2 < obs_new.len() implies #[trigger] obs_new[k1]
                    < #[trigger] obs_new[k2] by {
                    if k2 < obs_new.len() - 1 {
                    } else {
                        if obs_old.len() > 0 {
                            assert(obs_old[obs_old.len() - 1] < cur as int);
                        }
                    }
                }
            }
            Some(v)
        }
    }
}

/// **Observations are in publish order.** Whatever a subscriber has read,
/// an earlier read returned an earlier publish: the observation indices
/// are strictly increasing positions of the published history, so a
/// subscriber may miss values under load but never sees them reordered or
/// repeated.
pub proof fn lemma_observations_in_publish_order<T: Copy>(
    bus: &BroadcastBus<T>,
    s: int,
    k1: int,
    k2: int,
)
    requires
        bus.wf(),
        0 <= s < bus.num_subscribers(),
        0 <= k1 < k2 < bus.observed(s).len(),
    ensures
        0 <= bus.observed(s)[k1] < bus.observed(s)[k2] < bus.history().len(),
{
}

} // verus!
