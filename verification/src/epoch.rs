//! Epochs: discrete segments of simulation time that bound the validity of
//! state transitions.
use crate::commitment::StateCommitment;
use crate::keyed::{
    keyed_map, keys_unique, lemma_keyed_dom, lemma_keyed_index, lemma_keyed_push, lemma_keyed_update,
    lemma_keys_unique_push,
};
use crate::wire::eq_bytes32;
use vstd::prelude::*;

verus! {

/// A unique identifier for a discrete segment of simulation time (Epoch).
#[derive(Debug, Clone, Copy, PartialEq, Eq, Hash)]
pub struct EpochId(pub [u8; 32]);

impl View for EpochId {
    type V = Seq<u8>;

    open spec fn view(&self) -> Seq<u8> {
        self.0@
    }
}

/// The lifecycle status of an Epoch.
#[derive(Debug, Clone, Copy, PartialEq, Eq, Structural)]
pub enum EpochStatus {
    /// Created but not yet the active authority.
    Pending,
    /// Currently accepting transitions.
    Active,
    /// Expired or explicitly finalized. No more transitions accepted.
    Closed,
}

/// An Epoch bounds the validity of state transitions in time.
/// It enforces sequencing so that transitions are accepted only during an
/// active, non-expired window.
#[derive(Debug, Clone, Copy, PartialEq, Eq)]
pub struct Epoch {
    pub id: EpochId,
    pub sequence: u64,
    pub start_time_ms: u64,
    pub expiration_time_ms: u64,
    pub status: EpochStatus,
    /// The deterministic state required at the very start of this epoch.
    pub initial_state: StateCommitment,
}

/// The epoch `e` with its status replaced by `s`.
pub open spec fn with_status(e: Epoch, s: EpochStatus) -> Epoch {
    Epoch { status: s, ..e }
}

pub open spec fn epoch_key() -> spec_fn(Epoch) -> Seq<u8> {
    |e: Epoch| e.id@
}

pub open spec fn epoch_val() -> spec_fn(Epoch) -> Epoch {
    |e: Epoch| e
}

/// The engine responsible for tracking and evaluating epoch transitions.
/// At most one epoch is the active one at any time.
#[derive(Debug, Default)]
pub struct EpochEngine {
    epochs: Vec<Epoch>,
    active_epoch_id: Option<EpochId>,
}

impl EpochEngine {
    /// The registered epochs, by identifier bytes.
    pub closed spec fn epochs_view(&self) -> Map<Seq<u8>, Epoch> {
        keyed_map(self.epochs@, epoch_key(), epoch_val())
    }

    /// The identifier of the active epoch, if any.
    pub closed spec fn active_view(&self) -> Option<EpochId> {
        self.active_epoch_id
    }

    /// Internal consistency: identifiers are unique, and the active
    /// identifier names the one registered epoch whose status is `Active`
    /// (see `one_active`).
    pub closed spec fn wf(&self) -> bool {
        &&& keys_unique(self.epochs@, epoch_key())
        &&& one_active(self.epochs_view(), self.active_epoch_id)
    }

    /// A well-formed engine has at most one active epoch: the one that its
    /// active identifier names, registered with status `Active`.
    pub proof fn lemma_wf_one_active(&self)
        requires
            self.wf(),
        ensures
            one_active(self.epochs_view(), self.active_view()),
    {
    }

    pub fn new() -> (r: Self)
        ensures
            r.wf(),
            r.epochs_view() == Map::<Seq<u8>, Epoch>::empty(),
            r.active_view() is None,
    {
        EpochEngine { epochs: Vec::new(), active_epoch_id: None }
    }

    fn find(&self, id: &EpochId) -> (r: Option<usize>)
        requires
            self.wf(),
        ensures
            match r {
                Some(i) => i < self.epochs@.len() && self.epochs@[i as int].id@ == id@
                    && self.epochs_view().dom().contains(id@)
                    && self.epochs_view()[id@] == self.epochs@[i as int],
                None => !self.epochs_view().dom().contains(id@),
            },
    {
        let mut i: usize = 0;
        while i < self.epochs.len()
            invariant
                self.wf(),
                i <= self.epochs@.len(),
                forall|j: int| 0 <= j < i ==> (#[trigger] self.epochs@[j]).id@ != id@,
            decreases self.epochs@.len() - i,
        {
            if eq_bytes32(&self.epochs[i].id.0, &id.0) {
                proof {
                    lemma_keyed_index(self.epochs@, epoch_key(), epoch_val(), i as int);
                }
                return Some(i);
            }
            i = i + 1;
        }
        proof {
            lemma_keyed_dom(self.epochs@, epoch_key(), epoch_val(), id@);
            assert forall|j: int| 0 <= j < self.epochs@.len() implies (#[trigger] epoch_key()(
                self.epochs@[j],
            )) != id@ by {}
        }
        None
    }

    /// Looks up a registered epoch.
    pub fn get(&self, id: &EpochId) -> (r: Option<&Epoch>)
        requires
            self.wf(),
        ensures
            match r {
                Some(e) => self.epochs_view().dom().contains(id@) && *e == self.epochs_view()[id@],
                None => !self.epochs_view().dom().contains(id@),
            },
    {
        match self.find(id) {
            Some(i) => Some(&self.epochs[i]),
            None => None,
        }
    }

    /// Registers a new epoch in the engine. It starts as `Pending`,
    /// whatever status it was given.
    ///
    /// # Errors
    /// Returns an error if an epoch with this ID already exists.
    pub fn register_epoch(&mut self, epoch: Epoch) -> (r: Result<(), &'static str>)
        requires
            old(self).wf(),
        ensures
            final(self).wf(),
            final(self).active_view() == old(self).active_view(),
            old(self).epochs_view().dom().contains(epoch.id@) ==> r == Err::<(), &'static str>(
                "Epoch ID already exists",
            ) && final(self).epochs_view() == old(self).epochs_view(),
            !old(self).epochs_view().dom().contains(epoch.id@) ==> r is Ok
                && final(self).epochs_view() == old(self).epochs_view().insert(
                epoch.id@,
                with_status(epoch, EpochStatus::Pending),
            ),
    {
        match self.find(&epoch.id) {
            Some(_) => Err("Epoch ID already exists"),
            None => {
                let epoch = Epoch { status: EpochStatus::Pending, ..epoch };
                proof {
                    lemma_keyed_push(self.epochs@, epoch_key(), epoch_val(), epoch);
                    lemma_keys_unique_push(self.epochs@, epoch_key(), epoch_val(), epoch);
                }
                self.epochs.push(epoch);
                Ok(())
            },
        }
    }

    /// Activates a pending epoch. Closes the currently active epoch, if it
    /// is a different one, so that at most one epoch is active.
    ///
    /// # Errors
    /// Returns an error if the requested epoch doesn't exist or is already closed.
    pub fn activate_epoch(&mut self, id: EpochId) -> (r: Result<(), &'static str>)
        requires
            old(self).wf(),
        ensures
            final(self).wf(),
            !old(self).epochs_view().dom().contains(id@) ==> r == Err::<(), &'static str>(
                "Epoch not found",
            ),
            old(self).epochs_view().dom().contains(id@) && old(self).epochs_view()[id@].status
                == EpochStatus::Closed ==> r == Err::<(), &'static str>(
                "Cannot activate a closed epoch",
            ),
            r is Err ==> final(self).epochs_view() == old(self).epochs_view()
                && final(self).active_view() == old(self).active_view(),
            r is Ok <==> old(self).epochs_view().dom().contains(id@)
                && old(self).epochs_view()[id@].status != EpochStatus::Closed,
            r is Ok ==> final(self).active_view() == Some(id),
            r is Ok ==> final(self).epochs_view() == activated(
                old(self).epochs_view(),
                old(self).active_view(),
                id,
            ),
    {
        let target = match self.find(&id) {
            Some(i) => i,
            None => {
                return Err("Epoch not found");
            },
        };
        if self.epochs[target].status == EpochStatus::Closed {
            return Err("Cannot activate a closed epoch");
        }
        let ghost m0 = self.epochs_view();
        let mut epochs = self.epochs.clone();
        assert(epochs@ =~= self.epochs@);
        let ghost mid;
        match self.active_epoch_id {
            Some(current_id) => {
                if !eq_bytes32(&current_id.0, &id.0) {
                    match self.find(&current_id) {
                        Some(ci) => {
                            let closed = Epoch { status: EpochStatus::Closed, ..epochs[ci] };
                            proof {
                                lemma_keyed_update(epochs@, epoch_key(), epoch_val(), ci as int, closed);
                            }
                            epochs.set(ci, closed);
                        },
                        None => {},
                    }
                }
            },
            None => {},
        }
        proof {
            mid = keyed_map(epochs@, epoch_key(), epoch_val());
        }
        assert(mid == closing(m0, self.active_epoch_id, id));
        assert(epochs@[target as int].id@ == id@);
        let opened = Epoch { status: EpochStatus::Active, ..epochs[target] };
        proof {
            lemma_keyed_index(epochs@, epoch_key(), epoch_val(), target as int);
            lemma_keyed_update(epochs@, epoch_key(), epoch_val(), target as int, opened);
        }
        epochs.set(target, opened);
        self.epochs = epochs;
        self.active_epoch_id = Some(id);
        Ok(())
    }

    /// Explicitly closes an epoch, preventing any further transitions.
    ///
    /// # Errors
    /// Returns an error if the epoch does not exist.
    pub fn close_epoch(&mut self, id: EpochId) -> (r: Result<(), &'static str>)
        requires
            old(self).wf(),
        ensures
            final(self).wf(),
            r is Ok <==> old(self).epochs_view().dom().contains(id@),
            r is Err ==> r == Err::<(), &'static str>("Epoch not found"),
            r is Err ==> final(self).epochs_view() == old(self).epochs_view(),
            r is Err ==> final(self).active_view() == old(self).active_view(),
            r is Ok ==> final(self).epochs_view() == old(self).epochs_view().insert(
                id@,
                with_status(old(self).epochs_view()[id@], EpochStatus::Closed),
            ),
            r is Ok ==> final(self).active_view() == active_after_close(old(self).active_view(), id),
    {
        let i = match self.find(&id) {
            Some(i) => i,
            None => {
                return Err("Epoch not found");
            },
        };
        let closed = Epoch { status: EpochStatus::Closed, ..self.epochs[i] };
        proof {
            lemma_keyed_update(self.epochs@, epoch_key(), epoch_val(), i as int, closed);
        }
        self.epochs.set(i, closed);
        match self.active_epoch_id {
            Some(a) => {
                if eq_bytes32(&a.0, &id.0) {
                    self.active_epoch_id = None;
                }
            },
            None => {},
        }
        Ok(())
    }

    /// Validates whether a transition is temporally and logically valid for
    /// the given epoch: the epoch must be the active one, have status
    /// `Active`, and the timestamp must lie in `[start, expiration)`.
    pub fn validate_transition_binding(
        &self,
        transition_epoch_id: &EpochId,
        transition_timestamp_ms: u64,
    ) -> (r: bool)
        requires
            self.wf(),
        ensures
            r == binding_valid(
                self.epochs_view(),
                self.active_view(),
                *transition_epoch_id,
                transition_timestamp_ms,
            ),
    {
        match self.active_epoch_id {
            Some(a) => {
                if !eq_bytes32(&a.0, &transition_epoch_id.0) {
                    return false;
                }
            },
            None => {
                return false;
            },
        }
        match self.find(transition_epoch_id) {
            Some(i) => {
                let epoch = &self.epochs[i];
                if epoch.status != EpochStatus::Active {
                    return false;
                }
                if transition_timestamp_ms < epoch.start_time_ms {
                    return false;
                }
                if transition_timestamp_ms >= epoch.expiration_time_ms {
                    return false;
                }
                true
            },
            None => false,
        }
    }
}

/// The active identifier names a registered epoch whose status is
/// `Active`, and no other registered epoch has that status.
pub open spec fn one_active(m: Map<Seq<u8>, Epoch>, active: Option<EpochId>) -> bool {
    &&& (active matches Some(a) ==> m.dom().contains(a@) && m[a@].status == EpochStatus::Active)
    &&& forall|k: Seq<u8>|
        #![trigger m[k]]
        m.dom().contains(k) && m[k].status == EpochStatus::Active ==> (active matches Some(a)
            && a@ == k)
}

/// The registry after closing the previously active epoch (when it differs
/// from `id`).
pub open spec fn closing(m: Map<Seq<u8>, Epoch>, active: Option<EpochId>, id: EpochId) -> Map<
    Seq<u8>,
    Epoch,
> {
    match active {
        Some(c) => if c@ != id@ && m.dom().contains(c@) {
            m.insert(c@, with_status(m[c@], EpochStatus::Closed))
        } else {
            m
        },
        None => m,
    }
}

/// The registry after activating `id`.
pub open spec fn activated(m: Map<Seq<u8>, Epoch>, active: Option<EpochId>, id: EpochId) -> Map<
    Seq<u8>,
    Epoch,
> {
    let mid = closing(m, active, id);
    mid.insert(id@, with_status(mid[id@], EpochStatus::Active))
}

/// The active identifier after closing `id`.
pub open spec fn active_after_close(active: Option<EpochId>, id: EpochId) -> Option<EpochId> {
    match active {
        Some(a) => if a@ == id@ {
            None
        } else {
            active
        },
        None => None,
    }
}

/// A transition bound to epoch `id` at time `ts` is acceptable.
pub open spec fn binding_valid(
    m: Map<Seq<u8>, Epoch>,
    active: Option<EpochId>,
    id: EpochId,
    ts: u64,
) -> bool {
    &&& active matches Some(a) && a@ == id@
    &&& m.dom().contains(id@)
    &&& m[id@].status == EpochStatus::Active
    &&& m[id@].start_time_ms <= ts
    &&& ts < m[id@].expiration_time_ms
}

// ---------------------------------------------------------------------------
// Laws
// ---------------------------------------------------------------------------

/// Activating a registered epoch that is not closed binds transitions to it
/// exactly within its time window: from its start time, up to but not
/// including its expiration time.
pub proof fn lemma_activation_binds(
    m: Map<Seq<u8>, Epoch>,
    active: Option<EpochId>,
    id: EpochId,
    ts: u64,
)
    requires
        m.dom().contains(id@),
        m[id@].status != EpochStatus::Closed,
    ensures
        binding_valid(activated(m, active, id), Some(id), id, ts) <==> (m[id@].start_time_ms <= ts
            && ts < m[id@].expiration_time_ms),
{
    let mid = closing(m, active, id);
    assert(mid.dom().contains(id@) && mid[id@] == m[id@]);
}

/// Activating an epoch closes the one that was active before it, which then
/// binds no transition.
pub proof fn lemma_activation_closes_previous(
    m: Map<Seq<u8>, Epoch>,
    previous: EpochId,
    id: EpochId,
    ts: u64,
)
    requires
        m.dom().contains(previous@),
        m.dom().contains(id@),
        previous@ != id@,
    ensures
        activated(m, Some(previous), id)[previous@].status == EpochStatus::Closed,
        !binding_valid(activated(m, Some(previous), id), Some(id), previous, ts),
{
}

/// A closed epoch binds no transition.
pub proof fn lemma_closed_epoch_binds_nothing(
    m: Map<Seq<u8>, Epoch>,
    active: Option<EpochId>,
    id: EpochId,
    ts: u64,
)
    requires
        m.dom().contains(id@),
    ensures
        !binding_valid(
            m.insert(id@, with_status(m[id@], EpochStatus::Closed)),
            active_after_close(active, id),
            id,
            ts,
        ),
{
}

/// No two epochs are active at once: in a consistent registry, two
/// registered epochs that both have status `Active` are the same epoch.
pub proof fn lemma_at_most_one_active(
    m: Map<Seq<u8>, Epoch>,
    active: Option<EpochId>,
    k1: Seq<u8>,
    k2: Seq<u8>,
)
    requires
        one_active(m, active),
        m.dom().contains(k1),
        m.dom().contains(k2),
        m[k1].status == EpochStatus::Active,
        m[k2].status == EpochStatus::Active,
    ensures
        k1 == k2,
{
}

/// Activation and closing keep the registry consistent: after either, at
/// most one epoch is active and it is the one named active.
pub proof fn lemma_transitions_keep_one_active(
    m: Map<Seq<u8>, Epoch>,
    active: Option<EpochId>,
    id: EpochId,
)
    requires
        one_active(m, active),
    ensures
        m.dom().contains(id@) ==> one_active(activated(m, active, id), Some(id)),
        m.dom().contains(id@) ==> one_active(
            m.insert(id@, with_status(m[id@], EpochStatus::Closed)),
            active_after_close(active, id),
        ),
{
}

/// Only the active epoch binds transitions: a binding names the active
/// epoch, and that epoch has the active status.
pub proof fn lemma_binding_is_to_active_epoch(
    m: Map<Seq<u8>, Epoch>,
    active: Option<EpochId>,
    id: EpochId,
    ts: u64,
)
    requires
        binding_valid(m, active, id, ts),
    ensures
        active matches Some(a) && a@ == id@,
        m[id@].status == EpochStatus::Active,
{
}

} // verus!
