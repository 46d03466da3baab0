//! Bounded memory of the transitions already accepted, for replay protection.
use crate::transition::TransitionId;
use std::collections::{HashSet, VecDeque};
use vstd::prelude::*;

verus! {

broadcast use vstd::std_specs::hash::group_hash_axioms;

/// The default maximum number of transitions to track for replay protection.
/// 4096 frames represents ~68 seconds of history at 60Hz.
pub const DEFAULT_MAX_REPLAY_HISTORY: usize = 4096;

/// The remembered identifiers after recording `id`: nothing changes when
/// `id` is remembered already; otherwise, when the history holds `capacity`
/// or more identifiers the oldest is forgotten, and `id` is appended.
pub open spec fn history_after_insert(h: Seq<u64>, capacity: nat, id: u64) -> Seq<u64> {
    if h.contains(id) {
        h
    } else if h.len() >= capacity && h.len() > 0 {
        h.drop_first().push(id)
    } else {
        h.push(id)
    }
}

/// A bounded cache of seen transitions: a queue for evicting the oldest
/// identifier and a set for membership checks.
#[derive(Debug)]
pub struct ReplayBuffer {
    capacity: usize,
    history: VecDeque<TransitionId>,
    set: HashSet<u64>,
}

impl Clone for ReplayBuffer {
    /// A copy with the same capacity and the same identifiers, in the same
    /// order.
    fn clone(&self) -> (r: Self)
        ensures
            r.history_view() == self.history_view(),
            r.capacity_view() == self.capacity_view(),
            self.wf() ==> r.wf(),
    {
        let mut history: VecDeque<TransitionId> = VecDeque::new();
        let mut set: HashSet<u64> = HashSet::new();
        let mut i: usize = 0;
        while i < self.history.len()
            invariant
                i <= self.history@.len(),
                history@ == self.history@.take(i as int),
                set@ == history@.map_values(|t: TransitionId| t.0).to_set(),
            decreases self.history@.len() - i,
        {
            let id = self.history[i];
            proof {
                assert(self.history@.take(i + 1) =~= history@.push(id));
                assert(history@.push(id).map_values(|t: TransitionId| t.0) =~= history@.map_values(
                    |t: TransitionId| t.0,
                ).push(id.0));
                let a = history@.map_values(|t: TransitionId| t.0);
                assert(a.push(id.0)[a.len() as int] == id.0);
                assert forall|x: u64| a.push(id.0).contains(x) == a.contains(x) || x == id.0 by {
                    if a.contains(x) {
                        let k = choose|k: int| 0 <= k < a.len() && a[k] == x;
                        assert(a.push(id.0)[k] == x);
                    }
                    if a.push(id.0).contains(x) && x != id.0 {
                        let k = choose|k: int| 0 <= k < a.len() + 1 && a.push(id.0)[k] == x;
                        assert(a[k] == x);
                    }
                }
                assert(a.push(id.0).to_set() =~= a.to_set().insert(id.0));
            }
            history.push_back(id);
            set.insert(id.0);
            i = i + 1;
        }
        assert(self.history@.take(self.history@.len() as int) =~= self.history@);
        ReplayBuffer { capacity: self.capacity, history, set }
    }
}

impl ReplayBuffer {
    /// The remembered identifiers, oldest first.
    pub closed spec fn history_view(&self) -> Seq<u64> {
        self.history@.map_values(|t: TransitionId| t.0)
    }

    /// The capacity limit.
    pub closed spec fn capacity_view(&self) -> nat {
        self.capacity as nat
    }

    /// The set mirrors the queue, and the queue holds no identifier twice.
    pub closed spec fn wf(&self) -> bool {
        &&& self.set@ == self.history_view().to_set()
        &&& self.history_view().no_duplicates()
    }

    /// Creates a new replay buffer with a specific capacity limit.
    pub fn new(capacity: usize) -> (r: Self)
        ensures
            r.wf(),
            r.history_view() == Seq::<u64>::empty(),
            r.capacity_view() == capacity,
    {
        let r = ReplayBuffer {
            capacity,
            history: VecDeque::with_capacity(capacity),
            set: HashSet::with_capacity(capacity),
        };
        assert(r.history_view() =~= Seq::<u64>::empty());
        assert(r.history_view().to_set() =~= Set::<u64>::empty());
        r
    }

    /// Checks if a transition ID has already been processed.
    pub fn contains(&self, id: &TransitionId) -> (r: bool)
        requires
            self.wf(),
        ensures
            r == self.history_view().contains(id.0),
    {
        self.set.contains(&id.0)
    }

    /// Records a new transition ID. When the buffer is at capacity, the
    /// oldest transition is evicted. Returns true if the ID was newly
    /// inserted, false if it was already present.
    pub fn insert(&mut self, id: TransitionId) -> (r: bool)
        requires
            old(self).wf(),
        ensures
            final(self).wf(),
            r == !old(self).history_view().contains(id.0),
            final(self).history_view() == history_after_insert(
                old(self).history_view(),
                old(self).capacity_view(),
                id.0,
            ),
            final(self).capacity_view() == old(self).capacity_view(),
    {
        let ghost h0 = self.history_view();
        if self.set.contains(&id.0) {
            return false;
        }
        if self.history.len() >= self.capacity {
            match self.history.pop_front() {
                Some(oldest) => {
                    self.set.remove(&oldest.0);
                    proof {
                        assert(self.history_view() =~= h0.drop_first());
                        assert(h0[0] == oldest.0);
                        assert forall|x: u64| #[trigger] self.set@.contains(x)
                            == self.history_view().to_set().contains(x) by {
                            if self.history_view().contains(x) {
                                let k = choose|k: int| 0 <= k < self.history_view().len()
                                    && self.history_view()[k] == x;
                                assert(h0[k + 1] == x);
                                assert(x != h0[0]);
                            }
                            if h0.contains(x) && x != oldest.0 {
                                let k = choose|k: int| 0 <= k < h0.len() && h0[k] == x;
                                assert(k != 0);
                                assert(self.history_view()[k - 1] == x);
                            }
                        }
                        assert(self.set@ =~= self.history_view().to_set());
                    }
                },
                None => {
                    assert(self.history_view() =~= h0);
                },
            }
        }
        let ghost h1 = self.history_view();
        self.history.push_back(id);
        self.set.insert(id.0);
        proof {
            assert(self.history_view() =~= h1.push(id.0));
            h1.lemma_push_to_set_commute(id.0);
            assert(!h1.contains(id.0));
        }
        true
    }

    /// Clears the replay buffer entirely.
    pub fn clear(&mut self)
        requires
            old(self).wf(),
        ensures
            final(self).wf(),
            final(self).history_view() == Seq::<u64>::empty(),
            final(self).capacity_view() == old(self).capacity_view(),
    {
        self.history.clear();
        self.set.clear();
        assert(self.history_view() =~= Seq::<u64>::empty());
        assert(self.history_view().to_set() =~= Set::<u64>::empty());
    }
}

impl Default for ReplayBuffer {
    fn default() -> (r: Self)
        ensures
            r.wf(),
            r.history_view() == Seq::<u64>::empty(),
            r.capacity_view() == DEFAULT_MAX_REPLAY_HISTORY,
    {
        Self::new(DEFAULT_MAX_REPLAY_HISTORY)
    }
}

// ---------------------------------------------------------------------------
// Laws
// ---------------------------------------------------------------------------

/// After an insertion the identifier is recorded, and inserting an
/// identifier that is already recorded changes nothing.
pub proof fn lemma_insert_records(h: Seq<u64>, capacity: nat, id: u64)
    ensures
        history_after_insert(h, capacity, id).contains(id),
        h.contains(id) ==> history_after_insert(h, capacity, id) == h,
{
    let r = history_after_insert(h, capacity, id);
    if !h.contains(id) {
        assert(r[r.len() - 1] == id);
    }
}

/// A buffer never holds more identifiers than its capacity (one, for a
/// capacity of zero): when full, inserting a new identifier evicts the
/// oldest one and keeps the others in order.
pub proof fn lemma_insert_bounded(h: Seq<u64>, capacity: nat, id: u64)
    requires
        h.len() <= capacity || h.len() <= 1,
    ensures
        history_after_insert(h, capacity, id).len() <= capacity || history_after_insert(
            h,
            capacity,
            id,
        ).len() <= 1,
        !h.contains(id) && h.len() >= capacity && h.len() > 0 ==> history_after_insert(
            h,
            capacity,
            id,
        ) == h.drop_first().push(id),
{
}

/// Inserting keeps the identifiers distinct.
pub proof fn lemma_insert_distinct(h: Seq<u64>, capacity: nat, id: u64)
    requires
        h.no_duplicates(),
    ensures
        history_after_insert(h, capacity, id).no_duplicates(),
{
    let r = history_after_insert(h, capacity, id);
    if !h.contains(id) {
        let base = if h.len() >= capacity && h.len() > 0 {
            h.drop_first()
        } else {
            h
        };
        assert(base.no_duplicates()) by {
            assert forall|i: int, j: int|
                0 <= i < base.len() && 0 <= j < base.len() && i != j implies base[i] != base[j] by {
                if h.len() >= capacity && h.len() > 0 {
                    assert(base[i] == h[i + 1] && base[j] == h[j + 1]);
                }
            }
        }
        assert(!base.contains(id)) by {
            if base.contains(id) {
                let k = choose|k: int| 0 <= k < base.len() && base[k] == id;
                if h.len() >= capacity && h.len() > 0 {
                    assert(h[k + 1] == id);
                } else {
                    assert(h[k] == id);
                }
            }
        }
        assert(r == base.push(id));
        assert forall|i: int, j: int| 0 <= i < r.len() && 0 <= j < r.len() && i != j implies r[i]
            != r[j] by {
            if i < base.len() && j < base.len() {
                assert(r[i] == base[i] && r[j] == base[j]);
            } else if i < base.len() {
                assert(r[i] == base[i]);
            } else if j < base.len() {
                assert(r[j] == base[j]);
            }
        }
    }
}

} // verus!
