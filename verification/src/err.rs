//! The errors of encoding a value and of decoding one.

use vstd::prelude::*;
use vstd::std_specs::convert::FromSpecImpl;

verus! {

/// Why a value has no encoding.
#[derive(Debug, Clone, Copy, PartialEq, Eq, Structural)]
pub enum SerError {
    /// The value holds a zero byte at `index`, which an encoding that ends
    /// at the first zero byte cannot carry.
    InteriorNul { index: usize },
}

/// Why a buffer does not decode as the type that was asked for.
#[derive(Debug, Clone, Copy, PartialEq, Eq, Structural)]
pub enum DeError {
    /// The buffer ends before the value does.
    UnexpectedEOB,
    /// The value ends before the buffer does.
    BufferNotParsed,
    /// A zero byte stands at `index`, before the last byte of a terminated string.
    NullError { index: usize },
    /// The last byte of a terminated string is not zero.
    NoNullError,
}

/// The one error that attribute operations return: the failure of the
/// encoding or decoding step, with its cause.
#[derive(Debug, Clone, Copy, PartialEq, Eq, Structural)]
pub enum NlError {
    /// A value could not be encoded into payload bytes.
    Ser(SerError),
    /// The payload bytes could not be decoded as the requested type.
    De(DeError),
}

impl From<SerError> for NlError {
    fn from(e: SerError) -> (r: NlError) {
        NlError::Ser(e)
    }
}

impl FromSpecImpl<SerError> for NlError {
    open spec fn obeys_from_spec() -> bool {
        true
    }

    open spec fn from_spec(e: SerError) -> NlError {
        NlError::Ser(e)
    }
}

impl From<DeError> for NlError {
    fn from(e: DeError) -> (r: NlError) {
        NlError::De(e)
    }
}

impl FromSpecImpl<DeError> for NlError {
    open spec fn obeys_from_spec() -> bool {
        true
    }

    open spec fn from_spec(e: DeError) -> NlError {
        NlError::De(e)
    }
}

} // verus!
