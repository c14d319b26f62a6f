use nlattr::{DeError, NlError, SerError};

#[test]
fn encode_failure_becomes_the_attribute_error() {
    let cause = SerError::InteriorNul { index: 4 };
    assert_eq!(NlError::from(cause), NlError::Ser(cause));
    let converted: NlError = cause.into();
    assert_eq!(converted, NlError::Ser(SerError::InteriorNul { index: 4 }));
}

#[test]
fn decode_failure_becomes_the_attribute_error() {
    for cause in [
        DeError::UnexpectedEOB,
        DeError::BufferNotParsed,
        DeError::NullError { index: 3 },
        DeError::NoNullError,
    ] {
        assert_eq!(NlError::from(cause), NlError::De(cause));
    }
}

#[test]
fn errors_keep_their_cause_apart() {
    assert_ne!(
        NlError::De(DeError::UnexpectedEOB),
        NlError::De(DeError::BufferNotParsed)
    );
    assert_ne!(
        NlError::De(DeError::NullError { index: 1 }),
        NlError::De(DeError::NullError { index: 2 })
    );
    assert_ne!(
        NlError::Ser(SerError::InteriorNul { index: 0 }),
        NlError::De(DeError::NullError { index: 0 })
    );
}
