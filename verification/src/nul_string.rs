//! Byte strings that travel with a zero byte after their last byte.

use crate::buffer::Buffer;
use crate::err::{DeError, SerError};
use crate::nl::Nl;
use vstd::prelude::*;

verus! {

/// Whether `at` is the place of the first zero byte of `bytes`.
pub open spec fn is_first_zero(bytes: Seq<u8>, at: int) -> bool {
    &&& 0 <= at < bytes.len()
    &&& bytes[at] == 0
    &&& forall|i: int| 0 <= i < at ==> bytes[i] != 0
}

/// The place of the first zero byte of a string that holds one.
pub open spec fn first_zero(bytes: Seq<u8>) -> int {
    choose|at: int| is_first_zero(bytes, at)
}

/// Only one place is the place of the first zero byte.
pub proof fn lemma_first_zero_is(bytes: Seq<u8>, at: int)
    requires
        is_first_zero(bytes, at),
    ensures
        bytes.contains(0u8),
        first_zero(bytes) == at,
{
    let chosen = first_zero(bytes);
    assert(is_first_zero(bytes, chosen));
    if chosen < at {
        assert(bytes[chosen] != 0);
    } else if at < chosen {
        assert(bytes[at] != 0);
    }
}

/// Looks for the first zero byte of `bytes`.
fn find_zero(bytes: &[u8]) -> (r: Option<usize>)
    ensures
        match r {
            Some(at) => is_first_zero(bytes@, at as int),
            None => !bytes@.contains(0u8),
        },
{
    let mut at: usize = 0;
    while at < bytes.len()
        invariant
            at <= bytes@.len(),
            forall|i: int| 0 <= i < at ==> bytes@[i] != 0,
        decreases bytes@.len() - at,
    {
        if bytes[at] == 0 {
            return Some(at);
        }
        at = at + 1;
    }
    None
}

/// A byte string whose encoding is its bytes followed by one zero byte.
///
/// The string itself may hold any bytes; one that holds a zero byte has no
/// encoding, since a reader would take the string to end there.
#[derive(Debug)]
pub struct NulString {
    text: Vec<u8>,
}

impl View for NulString {
    type V = Seq<u8>;

    closed spec fn view(&self) -> Seq<u8> {
        self.text@
    }
}

impl NulString {
    /// The string made of a copy of `text`, which does not include the
    /// terminating zero byte.
    pub fn from_slice(text: &[u8]) -> (s: NulString)
        ensures
            s@ == text@,
    {
        let mut copy: Vec<u8> = Vec::new();
        copy.extend_from_slice(text);
        NulString { text: copy }
    }

    /// The bytes of the string, without the terminating zero byte.
    pub fn as_bytes(&self) -> (text: &[u8])
        ensures
            text@ == self@,
    {
        self.text.as_slice()
    }
}

impl Nl for NulString {
    open spec fn type_size() -> Option<nat> {
        None
    }

    open spec fn encoded(value: Seq<u8>) -> Result<Seq<u8>, SerError> {
        if value.contains(0u8) {
            Err(SerError::InteriorNul { index: first_zero(value) as usize })
        } else {
            Ok(value.push(0u8))
        }
    }

    open spec fn decoded(bytes: Seq<u8>) -> Result<Seq<u8>, DeError> {
        if bytes.len() == 0 {
            Err(DeError::UnexpectedEOB)
        } else if bytes.drop_last().contains(0u8) {
            Err(DeError::NullError { index: first_zero(bytes.drop_last()) as usize })
        } else if bytes.last() != 0 {
            Err(DeError::NoNullError)
        } else {
            Ok(bytes.drop_last())
        }
    }

    proof fn lemma_round_trip(value: Seq<u8>) {
        assert(value.push(0u8).drop_last() =~= value);
    }

    proof fn lemma_full_consumption(bytes: Seq<u8>) {
    }

    proof fn lemma_type_size(value: Seq<u8>) {
    }

    /// A string without an encoding leaves `mem` as it was.
    fn serialize(&self, mem: &mut Buffer) -> (r: Result<(), SerError>)
        ensures
            r is Err ==> final(mem)@ == old(mem)@,
    {
        match find_zero(self.as_bytes()) {
            Some(at) => {
                proof {
                    lemma_first_zero_is(self@, at as int);
                }
                Err(SerError::InteriorNul { index: at })
            },
            None => {
                mem.extend_from_slice(self.as_bytes());
                mem.push(0);
                Ok(())
            },
        }
    }

    fn deserialize(mem: &[u8]) -> (r: Result<NulString, DeError>) {
        let len: usize = mem.len();
        if len == 0 {
            return Err(DeError::UnexpectedEOB);
        }
        let text: &[u8] = vstd::slice::slice_subrange(mem, 0, len - 1);
        match find_zero(text) {
            Some(at) => {
                proof {
                    lemma_first_zero_is(text@, at as int);
                }
                Err(DeError::NullError { index: at })
            },
            None => {
                if mem[len - 1] != 0 {
                    Err(DeError::NoNullError)
                } else {
                    Ok(NulString::from_slice(text))
                }
            },
        }
    }
}

} // verus!
