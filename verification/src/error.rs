//! The failure taxonomy shared by proving and verifying.

use vstd::prelude::*;

verus! {

#[verifier::external_type_specification]
#[verifier::external_body]
pub struct ExSerializationError(ark_serialize::SerializationError);

/// Everything that can go wrong while proving or verifying.
///
/// `InvalidResponse` is the one cryptographic rejection; the size variants
/// report violated length contracts before any arithmetic is attempted;
/// `Serialization` wraps a failure of the backend's canonical encoding;
/// `WrongRecursionLevel` and `FaultyParameterSize` are reserved for the
/// recursive compressed variant, which is future work.
pub enum SigmaError {
    InvalidResponse,
    VectorTooShort,
    VectorLenMismatch,
    NotPowerOfTwo,
    Serialization(ark_serialize::SerializationError),
    WrongRecursionLevel,
    FaultyParameterSize,
}

impl From<ark_serialize::SerializationError> for SigmaError {
    fn from(e: ark_serialize::SerializationError) -> (r: Self) {
        SigmaError::Serialization(e)
    }
}

impl vstd::std_specs::convert::FromSpecImpl<ark_serialize::SerializationError> for SigmaError {
    open spec fn obeys_from_spec() -> bool {
        true
    }

    open spec fn from_spec(e: ark_serialize::SerializationError) -> SigmaError {
        SigmaError::Serialization(e)
    }
}

} // verus!
