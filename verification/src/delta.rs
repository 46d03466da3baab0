//! Semantic state deltas: engine-agnostic operations that mutate a state.
use vstd::prelude::*;

verus! {

/// The type of change applied to a collection.
#[derive(Debug, Clone, Copy, PartialEq, Eq, Structural)]
pub enum CollectionChangeType {
    /// An item was inserted.
    Insert,
    /// An item was removed.
    Remove,
    /// An item was modified in place.
    Update,
    /// The entire collection was cleared.
    Clear,
}

/// An abstract, semantic operation representing a state mutation.
#[derive(Debug, Clone, PartialEq, Eq)]
pub enum DeltaOp {
    /// Adds a new semantic entity (e.g., an Actor or ECS Entity) to the simulation.
    AddEntity { entity_id: u64, data: Vec<u8> },
    /// Removes an existing semantic entity from the simulation.
    RemoveEntity { entity_id: u64 },
    /// Updates a specific field inside an entity or component.
    UpdateField { entity_id: u64, component_id: u32, field_id: u32, data: Vec<u8> },
    /// Applies a change to a collection (array, list, map, etc.).
    CollectionChange {
        entity_id: u64,
        component_id: u32,
        collection_id: u32,
        change_type: CollectionChangeType,
        data: Vec<u8>,
    },
}

/// The content of a delta operation, with byte strings as sequences.
pub enum DeltaOpV {
    AddEntity { entity_id: u64, data: Seq<u8> },
    RemoveEntity { entity_id: u64 },
    UpdateField { entity_id: u64, component_id: u32, field_id: u32, data: Seq<u8> },
    CollectionChange {
        entity_id: u64,
        component_id: u32,
        collection_id: u32,
        change_type: CollectionChangeType,
        data: Seq<u8>,
    },
}

impl View for DeltaOp {
    type V = DeltaOpV;

    open spec fn view(&self) -> DeltaOpV {
        match self {
            DeltaOp::AddEntity { entity_id, data } => DeltaOpV::AddEntity {
                entity_id: *entity_id,
                data: data@,
            },
            DeltaOp::RemoveEntity { entity_id } => DeltaOpV::RemoveEntity {
                entity_id: *entity_id,
            },
            DeltaOp::UpdateField { entity_id, component_id, field_id, data } =>
                DeltaOpV::UpdateField {
                entity_id: *entity_id,
                component_id: *component_id,
                field_id: *field_id,
                data: data@,
            },
            DeltaOp::CollectionChange {
                entity_id,
                component_id,
                collection_id,
                change_type,
                data,
            } => DeltaOpV::CollectionChange {
                entity_id: *entity_id,
                component_id: *component_id,
                collection_id: *collection_id,
                change_type: *change_type,
                data: data@,
            },
        }
    }
}

/// Maximum allowed semantic delta operations per transition, bounding the
/// work a single delta can cause.
pub const MAX_DELTA_OPS: usize = 100_000;

/// A structured collection of semantic delta operations that together form
/// a state transition.
#[derive(Debug, Clone, PartialEq, Eq, Default)]
pub struct StateDelta {
    pub ops: Vec<DeltaOp>,
}

/// The contents of a list of operations.
pub open spec fn ops_view(ops: Seq<DeltaOp>) -> Seq<DeltaOpV> {
    ops.map_values(|o: DeltaOp| o@)
}

impl View for StateDelta {
    type V = Seq<DeltaOpV>;

    open spec fn view(&self) -> Seq<DeltaOpV> {
        ops_view(self.ops@)
    }
}

impl StateDelta {
    pub fn new(ops: Vec<DeltaOp>) -> (r: Self)
        ensures
            r.ops@ == ops@,
    {
        StateDelta { ops }
    }

    /// Whether the delta is within operational bounds: at most
    /// `MAX_DELTA_OPS` operations.
    pub fn validate_bounds(&self) -> (r: bool)
        ensures
            r == (self.ops@.len() <= MAX_DELTA_OPS),
    {
        self.ops.len() <= MAX_DELTA_OPS
    }
}

/// Errors that can occur during delta validation or application.
#[derive(Debug, Clone, PartialEq, Eq)]
pub enum DeltaError {
    /// An operation attempted to modify an entity that does not exist.
    EntityNotFound(u64),
    /// An operation attempted to add an entity that already exists.
    EntityAlreadyExists(u64),
    /// The data provided for a field or component update is malformed.
    MalformedData(&'static str),
    /// Operations within the delta inherently conflict with each other.
    ConflictingDelta(&'static str),
    /// The delta attempts an unauthorized or impossible operation on a collection.
    InvalidCollectionOperation(&'static str),
}

/// Applying semantic deltas to a domain-specific state representation.
/// The domain implements this to mutate its internal structures.
pub trait DeltaApplicable {
    /// Validates and applies a set of delta operations to the state.
    ///
    /// # Errors
    /// Returns `DeltaError` if operations conflict, reference missing
    /// entities, or contain malformed data.
    fn apply_delta(&mut self, delta: &StateDelta) -> Result<(), DeltaError>;
}

} // verus!
