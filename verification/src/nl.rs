//! The encoding between typed values and payload bytes.

use crate::buffer::Buffer;
use crate::err::{DeError, SerError};
use crate::little_endian::{
    decode_le, le_bytes, le_decoded, lemma_capacity_of_integers, lemma_le_bytes_len,
    lemma_le_value_bound, lemma_le_value_of_bytes, write_le,
};
use vstd::prelude::*;

verus! {

/// A type whose values can be written as bytes and read back from bytes.
///
/// The encoding is stated over the type's view. `encoded` and `decoded` say
/// what the bytes of a value are and what value a whole buffer stands for;
/// `serialize` and `deserialize` compute them. Every implementation proves
/// three facts about its encoding: that decoding undoes encoding, that a
/// buffer which decodes is exactly as long as the encoding of its value, and
/// that a type with a fixed size has encodings of that size only.
pub trait Nl: View + Sized {
    /// The length of every encoding of this type, if they all have one length.
    spec fn type_size() -> Option<nat>;

    /// The bytes that stand for `value`, or why it has none.
    spec fn encoded(value: Self::V) -> Result<Seq<u8>, SerError>;

    /// The value that `bytes`, taken whole, stand for, or why they stand for none.
    spec fn decoded(bytes: Seq<u8>) -> Result<Self::V, DeError>;

    /// Decoding the encoding of a value gives the value.
    proof fn lemma_round_trip(value: Self::V)
        ensures
            Self::encoded(value) matches Ok(bytes) ==> Self::decoded(bytes) == Ok::<
                Self::V,
                DeError,
            >(value),
    ;

    /// A buffer that decodes has the length of its value's encoding: nothing
    /// is left unread and nothing is made up.
    proof fn lemma_full_consumption(bytes: Seq<u8>)
        ensures
            Self::decoded(bytes) matches Ok(value) ==> (Self::encoded(value) matches Ok(again)
                && again.len() == bytes.len()),
    ;

    /// Where the type has a fixed size, each encoding has that length.
    proof fn lemma_type_size(value: Self::V)
        ensures
            Self::type_size() matches Some(size) ==> (Self::encoded(value) matches Ok(bytes)
                ==> bytes.len() == size),
    ;

    /// Appends the encoding of `self` to `mem`.
    ///
    /// When the value has no encoding, the error says why, and `mem` may be
    /// left holding whatever was written before the failure was found.
    fn serialize(&self, mem: &mut Buffer) -> (r: Result<(), SerError>)
        ensures
            match Self::encoded(self@) {
                Ok(bytes) => r is Ok && final(mem)@ == old(mem)@ + bytes,
                Err(e) => r == Err::<(), SerError>(e),
            },
    ;

    /// Decodes the whole of `mem`.
    fn deserialize(mem: &[u8]) -> (r: Result<Self, DeError>)
        ensures
            match Self::decoded(mem@) {
                Ok(value) => r matches Ok(v) && v@ == value,
                Err(e) => r == Err::<Self, DeError>(e),
            },
    ;
}

/// A `u8` travels as one byte.
impl Nl for u8 {
    open spec fn type_size() -> Option<nat> {
        Some(1)
    }

    open spec fn encoded(value: u8) -> Result<Seq<u8>, SerError> {
        Ok(le_bytes(value as nat, 1))
    }

    open spec fn decoded(bytes: Seq<u8>) -> Result<u8, DeError> {
        match le_decoded(bytes, 1) {
            Ok(value) => Ok(value as u8),
            Err(e) => Err(e),
        }
    }

    proof fn lemma_round_trip(value: u8) {
        lemma_capacity_of_integers();
        lemma_le_bytes_len(value as nat, 1);
        lemma_le_value_of_bytes(value as nat, 1);
    }

    proof fn lemma_full_consumption(bytes: Seq<u8>) {
        if let Ok(value) = Self::decoded(bytes) {
            lemma_le_bytes_len(value as nat, 1);
        }
    }

    proof fn lemma_type_size(value: u8) {
        lemma_le_bytes_len(value as nat, 1);
    }

    fn serialize(&self, mem: &mut Buffer) -> (r: Result<(), SerError>) {
        write_le(*self as u64, 1, mem);
        Ok(())
    }

    fn deserialize(mem: &[u8]) -> (r: Result<u8, DeError>) {
        proof {
            lemma_capacity_of_integers();
            lemma_le_value_bound(mem@);
        }
        match decode_le(mem, 1) {
            Ok(value) => Ok(value as u8),
            Err(e) => Err(e),
        }
    }
}

/// A `u16` travels as two bytes, least significant first.
impl Nl for u16 {
    open spec fn type_size() -> Option<nat> {
        Some(2)
    }

    open spec fn encoded(value: u16) -> Result<Seq<u8>, SerError> {
        Ok(le_bytes(value as nat, 2))
    }

    open spec fn decoded(bytes: Seq<u8>) -> Result<u16, DeError> {
        match le_decoded(bytes, 2) {
            Ok(value) => Ok(value as u16),
            Err(e) => Err(e),
        }
    }

    proof fn lemma_round_trip(value: u16) {
        lemma_capacity_of_integers();
        lemma_le_bytes_len(value as nat, 2);
        lemma_le_value_of_bytes(value as nat, 2);
    }

    proof fn lemma_full_consumption(bytes: Seq<u8>) {
        if let Ok(value) = Self::decoded(bytes) {
            lemma_le_bytes_len(value as nat, 2);
        }
    }

    proof fn lemma_type_size(value: u16) {
        lemma_le_bytes_len(value as nat, 2);
    }

    fn serialize(&self, mem: &mut Buffer) -> (r: Result<(), SerError>) {
        write_le(*self as u64, 2, mem);
        Ok(())
    }

    fn deserialize(mem: &[u8]) -> (r: Result<u16, DeError>) {
        proof {
            lemma_capacity_of_integers();
            lemma_le_value_bound(mem@);
        }
        match decode_le(mem, 2) {
            Ok(value) => Ok(value as u16),
            Err(e) => Err(e),
        }
    }
}

/// A `u32` travels as four bytes, least significant first.
impl Nl for u32 {
    open spec fn type_size() -> Option<nat> {
        Some(4)
    }

    open spec fn encoded(value: u32) -> Result<Seq<u8>, SerError> {
        Ok(le_bytes(value as nat, 4))
    }

    open spec fn decoded(bytes: Seq<u8>) -> Result<u32, DeError> {
        match le_decoded(bytes, 4) {
            Ok(value) => Ok(value as u32),
            Err(e) => Err(e),
        }
    }

    proof fn lemma_round_trip(value: u32) {
        lemma_capacity_of_integers();
        lemma_le_bytes_len(value as nat, 4);
        lemma_le_value_of_bytes(value as nat, 4);
    }

    proof fn lemma_full_consumption(bytes: Seq<u8>) {
        if let Ok(value) = Self::decoded(bytes) {
            lemma_le_bytes_len(value as nat, 4);
        }
    }

    proof fn lemma_type_size(value: u32) {
        lemma_le_bytes_len(value as nat, 4);
    }

    fn serialize(&self, mem: &mut Buffer) -> (r: Result<(), SerError>) {
        write_le(*self as u64, 4, mem);
        Ok(())
    }

    fn deserialize(mem: &[u8]) -> (r: Result<u32, DeError>) {
        proof {
            lemma_capacity_of_integers();
            lemma_le_value_bound(mem@);
        }
        match decode_le(mem, 4) {
            Ok(value) => Ok(value as u32),
            Err(e) => Err(e),
        }
    }
}

/// A `u64` travels as eight bytes, least significant first.
impl Nl for u64 {
    open spec fn type_size() -> Option<nat> {
        Some(8)
    }

    open spec fn encoded(value: u64) -> Result<Seq<u8>, SerError> {
        Ok(le_bytes(value as nat, 8))
    }

    open spec fn decoded(bytes: Seq<u8>) -> Result<u64, DeError> {
        match le_decoded(bytes, 8) {
            Ok(value) => Ok(value as u64),
            Err(e) => Err(e),
        }
    }

    proof fn lemma_round_trip(value: u64) {
        lemma_capacity_of_integers();
        lemma_le_bytes_len(value as nat, 8);
        lemma_le_value_of_bytes(value as nat, 8);
    }

    proof fn lemma_full_consumption(bytes: Seq<u8>) {
        if let Ok(value) = Self::decoded(bytes) {
            lemma_le_bytes_len(value as nat, 8);
        }
    }

    proof fn lemma_type_size(value: u64) {
        lemma_le_bytes_len(value as nat, 8);
    }

    fn serialize(&self, mem: &mut Buffer) -> (r: Result<(), SerError>) {
        write_le(*self, 8, mem);
        Ok(())
    }

    fn deserialize(mem: &[u8]) -> (r: Result<u64, DeError>) {
        proof {
            lemma_capacity_of_integers();
            lemma_le_value_bound(mem@);
        }
        match decode_le(mem, 8) {
            Ok(value) => Ok(value),
            Err(e) => Err(e),
        }
    }
}

/// Raw bytes: the encoding of a buffer is its content, and every payload
/// decodes as a buffer.
impl Nl for Buffer {
    open spec fn type_size() -> Option<nat> {
        None
    }

    open spec fn encoded(value: Seq<u8>) -> Result<Seq<u8>, SerError> {
        Ok(value)
    }

    open spec fn decoded(bytes: Seq<u8>) -> Result<Seq<u8>, DeError> {
        Ok(bytes)
    }

    proof fn lemma_round_trip(value: Seq<u8>) {
    }

    proof fn lemma_full_consumption(bytes: Seq<u8>) {
    }

    proof fn lemma_type_size(value: Seq<u8>) {
    }

    fn serialize(&self, mem: &mut Buffer) -> (r: Result<(), SerError>) {
        mem.extend_from_slice(self.as_slice());
        Ok(())
    }

    fn deserialize(mem: &[u8]) -> (r: Result<Buffer, DeError>) {
        Ok(Buffer::from_slice(mem))
    }
}

} // verus!
