//! Oblivious transfer protocols.
use ark_serialize::SerializationError;
use vstd::prelude::*;

pub mod co15;
pub mod extension;

verus! {

/// Why a step of a protocol failed.
#[derive(Debug)]
pub enum OTError {
    /// Bytes from the peer, or a value derived from them, do not encode a
    /// curve point or a scalar.
    Serialize { source: SerializationError },
    /// Bytes from the peer are fewer than the step needs.
    Framing,
}

} // verus!
