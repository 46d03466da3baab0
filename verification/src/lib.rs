//! LAURN: a deterministic state-transition verification core.
//!
//! The crate holds the protocol data model, its binary wire format and
//! stream codec, the authority, epoch and policy engines, transition
//! verification, execution evidence, replay recording and divergence
//! analysis, a key-value domain state that applies semantic deltas,
//! fixed-point geometry, the library side of the C interface, and a
//! multi-server session simulation.

pub mod wire;
pub mod version;
pub mod commitment;
pub mod keyed;
pub mod epoch;
pub mod authority;
pub mod transition;
pub mod delta;
pub mod state;
pub mod policy;
pub mod verification;
pub mod replay;
pub mod protocol;
pub mod evidence;
pub mod math;
pub mod ffi;
pub mod simulation;
pub mod inspection;
