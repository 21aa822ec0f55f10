//! Core of a collaborative proving pipeline: secret sharing of witnesses and
//! inputs, merging of partial inputs, and the garbling half of a three-party
//! garbled-circuit protocol.

pub mod entities;
pub mod error;
pub mod field;
pub mod garbler;
pub mod input;
pub mod names;
pub mod rep3;
pub mod shamir;
pub mod shared_input;
pub mod utils;
pub mod wire;
pub mod witness;
