//! The operations that every kind of attribute shares.
//!
//! An attribute holds its payload as bytes and knows nothing of the type
//! that was written into it. A typed value goes in through `set_payload`
//! and comes out through `get_payload_as`; both go through [`Nl`], and the
//! type is checked at that moment only.

use crate::buffer::Buffer;
use crate::err::NlError;
use crate::nl::Nl;
use vstd::prelude::*;

verus! {

/// What `set_payload` returns for a value with view `value`.
pub open spec fn set_payload_result<P: Nl>(value: P::V) -> Result<(), NlError> {
    match P::encoded(value) {
        Ok(_) => Ok(()),
        Err(e) => Err(NlError::Ser(e)),
    }
}

/// The payload that `set_payload` leaves behind: the encoding of the value,
/// or the payload from before the call where the value has no encoding.
pub open spec fn payload_after_set<P: Nl>(before: Seq<u8>, value: P::V) -> Seq<u8> {
    match P::encoded(value) {
        Ok(bytes) => bytes,
        Err(_) => before,
    }
}

/// What `get_payload_as` returns for a payload, with the value by its view.
pub open spec fn get_payload_result<R: Nl>(payload: Seq<u8>) -> Result<R::V, NlError> {
    match R::decoded(payload) {
        Ok(value) => Ok(value),
        Err(e) => Err(NlError::De(e)),
    }
}

/// Operations shared by all attributes, whatever the type `T` of their tag.
pub trait Attribute<T> {
    /// The bytes of the payload, in order.
    spec fn payload_bytes(&self) -> Seq<u8>;

    /// The payload as it stands.
    fn payload(&self) -> (buf: &Buffer)
        ensures
            buf@ == self.payload_bytes(),
    ;

    /// Encodes `payload` and makes the result the payload of this attribute.
    ///
    /// On success the new payload is the encoding and nothing else: no byte
    /// of the old payload remains. On failure the payload is, byte for
    /// byte, what it was before the call.
    fn set_payload<P: Nl>(&mut self, payload: &P) -> (r: Result<(), NlError>)
        ensures
            r == set_payload_result::<P>(payload@),
            final(self).payload_bytes() == payload_after_set::<P>(
                old(self).payload_bytes(),
                payload@,
            ),
    ;

    /// Decodes the whole payload as a value of type `R`.
    ///
    /// The attribute is only read: its payload is the same after the call,
    /// whatever the call returns.
    fn get_payload_as<R: Nl>(&self) -> (r: Result<R, NlError>)
        ensures
            match get_payload_result::<R>(self.payload_bytes()) {
                Ok(value) => r matches Ok(v) && v@ == value,
                Err(e) => r == Err::<R, NlError>(e),
            },
    {
        match R::deserialize(self.payload().as_slice()) {
            Ok(value) => Ok(value),
            Err(e) => Err(NlError::De(e)),
        }
    }
}

/// Writing a value and reading it back as the same type gives the value,
/// whatever the payload was before, provided the value has an encoding.
pub proof fn lemma_set_then_get<P: Nl>(before: Seq<u8>, value: P::V)
    requires
        P::encoded(value) is Ok,
    ensures
        set_payload_result::<P>(value) == Ok::<(), NlError>(()),
        get_payload_result::<P>(payload_after_set::<P>(before, value)) == Ok::<P::V, NlError>(
            value,
        ),
{
    P::lemma_round_trip(value);
}

/// A write that fails leaves the payload as it was, and a write fails on
/// exactly the values that have no encoding.
pub proof fn lemma_failed_set_keeps_payload<P: Nl>(before: Seq<u8>, value: P::V)
    ensures
        set_payload_result::<P>(value) is Err <==> P::encoded(value) is Err,
        set_payload_result::<P>(value) is Err ==> payload_after_set::<P>(before, value) == before,
{
}

/// Any two calls of `payload` on one attribute return the same bytes: what
/// it returns depends on the attribute alone.
///
/// `payload` and `get_payload_as` borrow the attribute without the right to
/// change it, so the attribute that a later call of `payload` sees is the
/// one that an earlier read saw, whether that read succeeded or failed.
pub proof fn lemma_reads_agree<T, A: Attribute<T>>(attr: &A, first: &Buffer, second: &Buffer)
    requires
        call_ensures(A::payload, (attr,), first),
        call_ensures(A::payload, (attr,), second),
    ensures
        first@ == second@,
        first@ == attr.payload_bytes(),
{
}

/// A read succeeds only on a payload exactly as long as the encoding of
/// the value it returns. For a type of fixed size, every payload of another
/// length, shorter or longer, is refused.
pub proof fn lemma_get_consumes_all<R: Nl>(payload: Seq<u8>)
    ensures
        get_payload_result::<R>(payload) matches Ok(value) ==> (R::encoded(value) matches Ok(bytes)
            && bytes.len() == payload.len()),
        R::type_size() matches Some(size) ==> (payload.len() != size ==> get_payload_result::<R>(
            payload,
        ) is Err),
{
    R::lemma_full_consumption(payload);
    if R::decoded(payload) is Ok {
        R::lemma_type_size(R::decoded(payload)->Ok_0);
    }
}

/// A payload written as one type is refused when read as a type whose
/// fixed size differs from the length of what was written.
pub proof fn lemma_get_as_other_length_fails<A: Nl, B: Nl>(before: Seq<u8>, value: A::V)
    requires
        A::encoded(value) matches Ok(bytes) && B::type_size() matches Some(size) && bytes.len()
            != size,
    ensures
        get_payload_result::<B>(payload_after_set::<A>(before, value)) is Err,
{
    lemma_get_consumes_all::<B>(payload_after_set::<A>(before, value));
}

/// A payload written as a type of one fixed size is refused when read as a
/// type of another fixed size.
pub proof fn lemma_get_as_other_size_fails<A: Nl, B: Nl>(before: Seq<u8>, value: A::V)
    requires
        A::encoded(value) is Ok,
        A::type_size() is Some,
        B::type_size() is Some,
        A::type_size() != B::type_size(),
    ensures
        get_payload_result::<B>(payload_after_set::<A>(before, value)) is Err,
{
    A::lemma_type_size(value);
    lemma_get_as_other_length_fails::<A, B>(before, value);
}

/// An attribute: a tag of type `T`, which this module does not interpret,
/// and the payload bytes.
///
/// The attribute owns its payload. The fields are private, so the payload
/// changes through `set_payload` only.
#[derive(Debug)]
pub struct Attr<T> {
    tag: T,
    payload: Buffer,
}

impl<T> Attr<T> {
    /// The tag of this attribute.
    pub closed spec fn spec_tag(&self) -> T {
        self.tag
    }

    /// An attribute with an empty payload, as for a message that is being built.
    pub fn new(tag: T) -> (attr: Attr<T>)
        ensures
            attr.spec_tag() == tag,
            attr.payload_bytes() == Seq::<u8>::empty(),
    {
        Attr { tag, payload: Buffer::new() }
    }

    /// An attribute whose payload is the given bytes, as for a message that
    /// was received.
    pub fn with_payload(tag: T, payload: Buffer) -> (attr: Attr<T>)
        ensures
            attr.spec_tag() == tag,
            attr.payload_bytes() == payload@,
    {
        Attr { tag, payload }
    }

    /// The tag of this attribute.
    pub fn tag(&self) -> (tag: &T)
        ensures
            *tag == self.spec_tag(),
    {
        &self.tag
    }
}

impl<T> Attribute<T> for Attr<T> {
    closed spec fn payload_bytes(&self) -> Seq<u8> {
        self.payload@
    }

    fn payload(&self) -> (buf: &Buffer) {
        &self.payload
    }

    /// The tag stays as it is, whether the write succeeds or not.
    fn set_payload<P: Nl>(&mut self, payload: &P) -> (r: Result<(), NlError>)
        ensures
            final(self).spec_tag() == old(self).spec_tag(),
    {
        let mut scratch = Buffer::new();
        match payload.serialize(&mut scratch) {
            Ok(()) => {
                self.payload = scratch;
                Ok(())
            },
            Err(e) => Err(NlError::Ser(e)),
        }
    }
}

impl<T: Clone> Clone for Attr<T> {
    /// A second attribute with a payload of its own that holds the same bytes.
    fn clone(&self) -> (attr: Attr<T>)
        ensures
            cloned(self.spec_tag(), attr.spec_tag()),
            attr.payload_bytes() == self.payload_bytes(),
    {
        Attr { tag: self.tag.clone(), payload: self.payload.clone() }
    }
}

} // verus!
