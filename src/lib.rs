//! A Poseidon duplex sponge over the BLS12-381 scalar field.
//!
//! The permutation and the absorb/squeeze state machine are stated as spec
//! functions over canonical field values and proved against them; field
//! arithmetic itself is delegated to `ark_ff`.

pub mod field;
pub mod parameters;
pub mod permutation;
pub mod sponge;
pub mod adapters;
pub mod laws;
pub mod packing;

pub use crate::adapters::FieldElementSize;
pub use crate::field::Fr;
pub use crate::parameters::{ParameterError, PoseidonParameters};
pub use crate::sponge::{DuplexSpongeMode, PoseidonSponge, PoseidonSpongeState, SnapshotError};
