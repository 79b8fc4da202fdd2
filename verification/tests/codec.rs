//! End-to-end tests of the codec: concrete encodings, both parse entry
//! points, the wrapping semantics, and every error variant.

use asn1_core::boolean::Boolean;
use asn1_core::integer::Integer;
use asn1_core::traits::{
    AsTaggedExplicit, AsTaggedImplicit, DynTagged, FromBer, FromDer, Tagged, ToDer, ToStatic,
};
use asn1_core::tagged::{Explicit, Implicit, TaggedValue};
use asn1_core::types::{Any, Class, Error, Header, Length, ParseErr, SerializeError, Tag};

#[test]
fn encode_integer_four() {
    let int = Integer::new(4);
    let mut writer: Vec<u8> = Vec::new();
    let sz = int.write_der(&mut writer).expect("serialization failed");
    assert_eq!(&writer, &[0x02, 0x01, 0x04]);
    assert_eq!(sz, 3);
}

#[test]
fn to_der_vec_integer_four() {
    let int = Integer::new(4);
    let v = int.to_der_vec().expect("serialization failed");
    assert_eq!(v, vec![0x02, 0x01, 0x04]);
    assert_eq!(int.to_der_len().expect("length failed"), 3);
}

#[test]
fn decode_integer_four_ber_and_der() {
    let bytes: [u8; 3] = [0x02, 0x01, 0x04];
    let (rem, i) = Integer::from_ber(&bytes).expect("ber parse failed");
    assert!(rem.is_empty());
    assert_eq!(i, Integer::new(4));
    let (rem, i) = Integer::from_der(&bytes).expect("der parse failed");
    assert!(rem.is_empty());
    assert_eq!(i, Integer::new(4));
}

#[test]
fn round_trip_many_values() {
    for v in [0u64, 1, 4, 127, 128, 255, 256, 65535, 65536, 1 << 56, u64::MAX] {
        let int = Integer::new(v);
        let enc = int.to_der_vec().expect("encode failed");
        let (rem, back) = Integer::from_der(&enc).expect("der decode failed");
        assert!(rem.is_empty());
        assert_eq!(back, int);
        let (rem, back) = Integer::from_ber(&enc).expect("ber decode failed");
        assert!(rem.is_empty());
        assert_eq!(back, int);
    }
}

#[test]
fn encode_zero_and_max() {
    assert_eq!(Integer::new(0).to_der_vec().unwrap(), vec![0x02, 0x01, 0x00]);
    let max = Integer::new(u64::MAX).to_der_vec().unwrap();
    assert_eq!(max[0], 0x02);
    assert_eq!(max[1], 0x09);
    assert_eq!(max[2], 0x00);
    assert_eq!(&max[3..], &[0xff; 8]);
}

#[test]
fn encode_sign_padding() {
    // 128 needs a leading zero octet so that it does not read as negative.
    assert_eq!(Integer::new(128).to_der_vec().unwrap(), vec![0x02, 0x02, 0x00, 0x80]);
    assert_eq!(Integer::new(127).to_der_vec().unwrap(), vec![0x02, 0x01, 0x7f]);
}

#[test]
fn superset_der_accepted_means_ber_accepted() {
    let bytes: [u8; 4] = [0x02, 0x02, 0x01, 0x00];
    let der = Integer::from_der(&bytes).expect("der parse failed");
    let ber = Integer::from_ber(&bytes).expect("ber parse failed");
    assert_eq!(der, ber);
    assert_eq!(der.1, Integer::new(256));
}

#[test]
fn indefinite_length_rejected_by_der_accepted_by_ber() {
    // A constructed node with indefinite length and a proper terminator.
    let bytes: [u8; 7] = [0x30, 0x80, 0x02, 0x01, 0x04, 0x00, 0x00];
    let (rem, any) = Any::from_ber(&bytes).expect("ber must accept the node");
    assert!(rem.is_empty());
    assert_eq!(any.header.length, Length::Indefinite);
    assert_eq!(any.data, &[0x02u8, 0x01, 0x04][..]);
    let r = <Any as FromDer>::from_der(&bytes);
    assert_eq!(r.err(), Some(ParseErr::Failure(Error::IndefiniteLengthUnexpected)));
}

#[test]
fn indefinite_without_terminator_is_incomplete() {
    let bytes: [u8; 4] = [0x30, 0x80, 0x02, 0x01];
    assert_eq!(Any::from_ber(&bytes).err(), Some(ParseErr::Incomplete));
}

#[test]
fn indefinite_on_primitive_node_rejected() {
    let bytes: [u8; 4] = [0x02, 0x80, 0x00, 0x00];
    assert_eq!(Any::from_ber(&bytes).err(), Some(ParseErr::Failure(Error::InvalidLength)));
}

#[test]
fn tag_consistency_runtime_equals_const() {
    let int = Integer::new(9);
    assert_eq!(Integer::const_tag(), Tag(2));
    assert_eq!(int.tag(), Tag(2));
    let r = &int;
    assert_eq!(<&Integer>::const_tag(), Tag(2));
    assert_eq!(r.tag(), Tag(2));
}

#[test]
fn dyn_tag_of_decoded_node() {
    let bytes: [u8; 3] = [0x02, 0x01, 0x04];
    let (_, any) = Any::from_ber(&bytes).unwrap();
    assert_eq!(any.tag(), Tag(2));
}

#[test]
fn explicit_wrapping_keeps_inner_header() {
    let int = Integer::new(4);
    let wrapped = int.explicit(Class::ContextSpecific, 0);
    let v = wrapped.to_der_vec().expect("encode failed");
    // outer tag, outer length, inner header, inner content
    assert_eq!(v, vec![0xa0, 0x03, 0x02, 0x01, 0x04]);
    assert_eq!(wrapped.to_der_len().unwrap(), 5);
    assert_eq!(wrapped.tag(), Tag(0));
}

#[test]
fn implicit_wrapping_drops_inner_header() {
    let int = Integer::new(4);
    let wrapped = int.implicit(Class::ContextSpecific, 0, 0);
    let v = wrapped.to_der_vec().expect("encode failed");
    // outer tag, outer length, inner content only
    assert_eq!(v, vec![0x80, 0x01, 0x04]);
    assert_eq!(wrapped.to_der_len().unwrap(), 3);
}

#[test]
fn implicit_wrapping_structured_flag() {
    let int = Integer::new(4);
    let wrapped = int.implicit(Class::ContextSpecific, 1, 3);
    let v = wrapped.to_der_vec().expect("encode failed");
    assert_eq!(v, vec![0xa3, 0x01, 0x04]);
}

#[test]
fn wrapping_with_large_tag_is_refused() {
    let int = Integer::new(4);
    let wrapped = int.explicit(Class::ContextSpecific, 31);
    assert_eq!(wrapped.to_der_len(), Err(Error::InvalidTag));
    assert!(wrapped.to_der_vec().is_err());
}

#[test]
fn reference_transparency() {
    // Qualified calls, so the reference impl itself is exercised rather
    // than the referent's impl through auto-deref.
    let int = Integer::new(77);
    let r = &int;
    let direct = int.to_der_vec().expect("encode failed");
    let through_ref = <&Integer as ToDer>::to_der_vec(&r).expect("encode failed");
    assert_eq!(direct, through_ref);
    let mut w1: Vec<u8> = Vec::new();
    let mut w2: Vec<u8> = Vec::new();
    assert_eq!(
        int.write_der(&mut w1).unwrap(),
        <&Integer as ToDer>::write_der(&r, &mut w2).unwrap()
    );
    assert_eq!(w1, w2);
}

#[test]
fn raw_path_succeeds_and_canonical_path_is_valid() {
    let int = Integer::new(300);
    // Only the canonical path is asserted to produce a valid encoding.
    let canonical = int.to_der_vec().expect("encode failed");
    let (_, back) = Integer::from_der(&canonical).expect("canonical bytes must decode");
    assert_eq!(back, int);
    // The raw path must succeed; its bytes are not compared.
    let raw = int.to_der_vec_raw().expect("raw encode failed");
    assert!(!raw.is_empty());
}

#[test]
fn error_unexpected_tag() {
    let bytes: [u8; 3] = [0x04, 0x01, 0x04];
    assert_eq!(Integer::from_ber(&bytes).err(), Some(ParseErr::Failure(Error::UnexpectedTag)));
}

#[test]
fn error_constructed_integer() {
    let bytes: [u8; 3] = [0x22, 0x01, 0x04];
    assert_eq!(
        Integer::from_ber(&bytes).err(),
        Some(ParseErr::Failure(Error::ConstructedUnexpected))
    );
}

#[test]
fn error_empty_integer_content() {
    let bytes: [u8; 2] = [0x02, 0x00];
    assert_eq!(Integer::from_der(&bytes).err(), Some(ParseErr::Failure(Error::InvalidLength)));
}

#[test]
fn error_non_minimal_integer() {
    let bytes: [u8; 4] = [0x02, 0x02, 0x00, 0x04];
    assert_eq!(Integer::from_ber(&bytes).err(), Some(ParseErr::Failure(Error::InvalidValue)));
}

#[test]
fn error_negative_integer() {
    let bytes: [u8; 3] = [0x02, 0x01, 0x80];
    assert_eq!(Integer::from_der(&bytes).err(), Some(ParseErr::Failure(Error::IntegerNegative)));
}

#[test]
fn error_integer_too_large() {
    let bytes: [u8; 11] = [0x02, 0x09, 0x01, 0, 0, 0, 0, 0, 0, 0, 0];
    assert_eq!(Integer::from_der(&bytes).err(), Some(ParseErr::Failure(Error::IntegerTooLarge)));
}

#[test]
fn error_multi_octet_tag_form() {
    let bytes: [u8; 3] = [0x1f, 0x01, 0x00];
    assert_eq!(Any::from_ber(&bytes).err(), Some(ParseErr::Failure(Error::InvalidTag)));
}

#[test]
fn incomplete_inputs() {
    assert_eq!(Integer::from_ber(&[]).err(), Some(ParseErr::Incomplete));
    assert_eq!(Integer::from_ber(&[0x02]).err(), Some(ParseErr::Incomplete));
    assert_eq!(Integer::from_ber(&[0x02, 0x05, 0x01]).err(), Some(ParseErr::Incomplete));
}

#[test]
fn conversion_error_is_failure_not_incomplete() {
    // The node is complete; the content is semantically wrong. More input
    // could not help, so the error must be terminal.
    let bytes: [u8; 3] = [0x02, 0x01, 0x80];
    match Integer::from_ber(&bytes) {
        Err(ParseErr::Failure(_)) => {}
        other => panic!("expected a terminal failure, got {:?}", other),
    }
}

#[test]
fn long_form_length_accepted() {
    let bytes: [u8; 4] = [0x02, 0x81, 0x01, 0x04];
    let (rem, i) = Integer::from_ber(&bytes).expect("ber parse failed");
    assert!(rem.is_empty());
    assert_eq!(i, Integer::new(4));
}

#[test]
fn overlong_length_field_rejected() {
    let bytes: [u8; 12] = [0x02, 0x89, 1, 1, 1, 1, 1, 1, 1, 1, 1, 0];
    assert_eq!(Any::from_ber(&bytes).err(), Some(ParseErr::Failure(Error::InvalidLength)));
}

#[test]
fn remaining_bytes_returned() {
    let bytes: [u8; 5] = [0x02, 0x01, 0x04, 0xde, 0xad];
    let (rem, i) = Integer::from_der(&bytes).expect("der parse failed");
    assert_eq!(i, Integer::new(4));
    assert_eq!(rem, &[0xdeu8, 0xad][..]);
}

#[test]
fn to_static_integer() {
    let int = Integer::new(12);
    let owned = int.to_static();
    assert_eq!(owned, int);
}

#[test]
fn to_static_any_copies_content() {
    let bytes: Vec<u8> = vec![0x02, 0x01, 0x04];
    let owned = {
        let (_, any) = Any::from_ber(&bytes).unwrap();
        any.to_static()
    };
    assert_eq!(owned.header.tag, Tag(2));
    assert_eq!(owned.data, vec![0x04]);
}

#[test]
fn any_accepts_every_well_formed_node() {
    let bytes: [u8; 4] = [0xc4, 0x02, 0xaa, 0xbb];
    let (rem, any) = Any::from_der(&bytes).expect("der parse failed");
    assert!(rem.is_empty());
    assert_eq!(any.header.class, Class::Private);
    assert!(!any.header.constructed);
    assert_eq!(any.header.tag, Tag(4));
    assert_eq!(any.header.length, Length::Definite(2));
    assert_eq!(any.data, &[0xaau8, 0xbb][..]);
}

#[test]
fn write_der_header_and_content_split() {
    let int = Integer::new(4);
    let mut header: Vec<u8> = Vec::new();
    let mut content: Vec<u8> = Vec::new();
    assert_eq!(int.write_der_header(&mut header).unwrap(), 2);
    assert_eq!(int.write_der_content(&mut content).unwrap(), 1);
    assert_eq!(header, vec![0x02, 0x01]);
    assert_eq!(content, vec![0x04]);
}

#[test]
fn reemit_definite_node_canonically() {
    let bytes: [u8; 3] = [0x02, 0x01, 0x04];
    let (_, any) = Any::from_ber(&bytes).unwrap();
    assert_eq!(any.to_der_vec().unwrap(), vec![0x02, 0x01, 0x04]);
    assert_eq!(any.to_der_len().unwrap(), 3);
}

#[test]
fn raw_path_reemits_indefinite_node_canonical_path_refuses() {
    let bytes: [u8; 7] = [0x30, 0x80, 0x02, 0x01, 0x04, 0x00, 0x00];
    let (_, any) = Any::from_ber(&bytes).unwrap();
    // The canonical path refuses what only the permissive rules accept.
    assert_eq!(
        any.to_der_vec().err(),
        Some(SerializeError::Asn1(Error::IndefiniteLengthUnexpected))
    );
    // The raw path re-emits the node as received.
    let raw = any.to_der_vec_raw().unwrap();
    assert_eq!(raw, bytes.to_vec());
}

#[test]
fn canonical_reencoding_of_long_form_length() {
    // Permissive input with a redundant long-form length; the canonical
    // writer re-encodes it in short form, so raw input and canonical
    // output legitimately differ.
    let bytes: [u8; 4] = [0x02, 0x81, 0x01, 0x04];
    let (_, any) = Any::from_ber(&bytes).unwrap();
    assert_eq!(any.to_der_vec().unwrap(), vec![0x02, 0x01, 0x04]);
}

#[test]
fn long_form_length_encoding_one_octet() {
    let content = [0xabu8; 200];
    let any = Any {
        header: Header {
            class: Class::Universal,
            constructed: false,
            tag: Tag(4),
            length: Length::Definite(200),
        },
        data: &content,
    };
    let v = any.to_der_vec().unwrap();
    assert_eq!(&v[..3], &[0x04, 0x81, 200][..]);
    assert_eq!(v.len(), 203);
    assert_eq!(&v[3..], &content[..]);
    let (rem, back) = Any::from_der(&v).unwrap();
    assert!(rem.is_empty());
    assert_eq!(back.data, &content[..]);
}

#[test]
fn long_form_length_encoding_two_octets() {
    let content = vec![0x55u8; 300];
    let any = Any {
        header: Header {
            class: Class::Application,
            constructed: true,
            tag: Tag(7),
            length: Length::Definite(300),
        },
        data: &content,
    };
    let v = any.to_der_vec().unwrap();
    assert_eq!(&v[..4], &[0x67, 0x82, 0x01, 0x2c][..]);
    assert_eq!(v.len(), 304);
    let (rem, back) = Any::from_ber(&v).unwrap();
    assert!(rem.is_empty());
    assert_eq!(back.header.length, Length::Definite(300));
}

#[test]
fn mismatched_header_length_refused() {
    let content = [0x01u8, 0x02];
    let any = Any {
        header: Header {
            class: Class::Universal,
            constructed: false,
            tag: Tag(4),
            length: Length::Definite(5),
        },
        data: &content,
    };
    assert_eq!(any.to_der_len(), Err(Error::InvalidLength));
}

#[test]
fn boolean_canonical_encoding() {
    assert_eq!(Boolean::new(true).to_der_vec().unwrap(), vec![0x01, 0x01, 0xff]);
    assert_eq!(Boolean::new(false).to_der_vec().unwrap(), vec![0x01, 0x01, 0x00]);
    assert_eq!(Boolean::new(true).to_der_len().unwrap(), 3);
}

#[test]
fn boolean_round_trip() {
    for b in [true, false] {
        let v = Boolean::new(b);
        let enc = v.to_der_vec().unwrap();
        let (rem, back) = Boolean::from_der(&enc).expect("der decode failed");
        assert!(rem.is_empty());
        assert_eq!(back, v);
        assert_eq!(back.bool_value(), b);
    }
}

#[test]
fn boolean_constraint_rejects_noncanonical_octet_under_der_only() {
    // Any nonzero octet is a permissive true, but only 0xff is canonical.
    let bytes: [u8; 3] = [0x01, 0x01, 0x01];
    let (rem, v) = Boolean::from_ber(&bytes).expect("ber must accept");
    assert!(rem.is_empty());
    assert!(v.bool_value());
    assert_eq!(
        Boolean::from_der(&bytes).err(),
        Some(ParseErr::Failure(Error::DerConstraintFailed))
    );
}

#[test]
fn boolean_wrong_content_length() {
    let bytes: [u8; 4] = [0x01, 0x02, 0x00, 0x00];
    assert_eq!(Boolean::from_ber(&bytes).err(), Some(ParseErr::Failure(Error::InvalidLength)));
    assert_eq!(
        Boolean::from_der(&bytes).err(),
        Some(ParseErr::Failure(Error::DerConstraintFailed))
    );
}

#[test]
fn boolean_tag_consistency() {
    let v = Boolean::new(true);
    assert_eq!(Boolean::const_tag(), Tag(1));
    assert_eq!(v.tag(), Tag(1));
}

#[test]
fn explicit_wrapped_value_decodes() {
    let enc: [u8; 5] = [0xa0, 0x03, 0x02, 0x01, 0x04];
    let (rem, w) = <TaggedValue<Explicit, Integer> as FromBer>::from_ber(&enc).expect("ber failed");
    assert!(rem.is_empty());
    assert_eq!(w.class, Class::ContextSpecific);
    assert_eq!(w.tag, 0);
    assert_eq!(w.inner, Integer::new(4));
    let (_, w) = <TaggedValue<Explicit, Integer> as FromDer>::from_der(&enc).expect("der failed");
    assert_eq!(w.inner, Integer::new(4));
}

#[test]
fn explicit_wrap_then_decode_round_trip() {
    let enc = Integer::new(300).explicit(Class::ContextSpecific, 5).to_der_vec().unwrap();
    let (rem, w) = <TaggedValue<Explicit, Integer> as FromDer>::from_der(&enc).expect("der failed");
    assert!(rem.is_empty());
    assert_eq!(w.class, Class::ContextSpecific);
    assert_eq!(w.tag, 5);
    assert_eq!(w.inner, Integer::new(300));
}

#[test]
fn implicit_wrapped_value_decodes() {
    let enc: [u8; 3] = [0x80, 0x01, 0x04];
    let (rem, w) = <TaggedValue<Implicit, Integer> as FromDer>::from_der(&enc).expect("der failed");
    assert!(rem.is_empty());
    assert_eq!(w.class, Class::ContextSpecific);
    assert_eq!(w.structured, 0);
    assert_eq!(w.tag, 0);
    assert_eq!(w.inner, Integer::new(4));
}

#[test]
fn explicit_wrapper_must_be_constructed() {
    // Same bytes, but the outer identifier octet lacks the constructed flag.
    let enc: [u8; 5] = [0x80, 0x03, 0x02, 0x01, 0x04];
    assert_eq!(
        <TaggedValue<Explicit, Integer> as FromBer>::from_ber(&enc).err(),
        Some(ParseErr::Failure(Error::ConstructedUnexpected))
    );
}

#[test]
fn explicit_wrapper_rejects_trailing_content() {
    let enc: [u8; 6] = [0xa0, 0x04, 0x02, 0x01, 0x04, 0xff];
    assert_eq!(
        <TaggedValue<Explicit, Integer> as FromBer>::from_ber(&enc).err(),
        Some(ParseErr::Failure(Error::InvalidLength))
    );
}

#[test]
fn constraint_check_reaches_through_explicit_wrapper() {
    // A permissive-only boolean inside an explicit wrapper: accepted by
    // the permissive entry point, rejected by the canonical one.
    let enc: [u8; 5] = [0xa0, 0x03, 0x01, 0x01, 0x01];
    let (_, w) = <TaggedValue<Explicit, Boolean> as FromBer>::from_ber(&enc).expect("ber failed");
    assert!(w.inner.bool_value());
    assert_eq!(
        <TaggedValue<Explicit, Boolean> as FromDer>::from_der(&enc).err(),
        Some(ParseErr::Failure(Error::DerConstraintFailed))
    );
}

#[test]
fn raw_buffering_matches_raw_write() {
    // The buffered raw bytes are exactly what the raw write path appends.
    let int = Integer::new(4);
    let buffered = int.to_der_vec_raw().expect("raw encode failed");
    let mut written: Vec<u8> = Vec::new();
    let n = int.write_der_raw(&mut written).expect("raw write failed");
    assert_eq!(buffered, written);
    assert_eq!(n, written.len());
    // An integer stores nothing beyond its value, so its raw bytes are its
    // canonical header and content.
    assert_eq!(buffered, vec![0x02, 0x01, 0x04]);
}

#[test]
fn raw_path_through_reference_delegates() {
    let int = Integer::new(77);
    let r = &int;
    assert_eq!(<&Integer as ToDer>::to_der_vec_raw(&r).unwrap(), int.to_der_vec_raw().unwrap());
}

#[test]
fn raw_buffering_of_indefinite_node() {
    let bytes: [u8; 7] = [0x30, 0x80, 0x02, 0x01, 0x04, 0x00, 0x00];
    let (_, any) = Any::from_ber(&bytes).unwrap();
    let mut written: Vec<u8> = Vec::new();
    let n = any.write_der_raw(&mut written).expect("raw write failed");
    assert_eq!(n, 7);
    assert_eq!(written, bytes.to_vec());
    assert_eq!(any.to_der_vec_raw().unwrap(), bytes.to_vec());
}

#[test]
fn to_static_preserves_the_value() {
    let bytes: [u8; 4] = [0x04, 0x02, 0xaa, 0xbb];
    let (_, any) = Any::from_ber(&bytes).unwrap();
    let owned = any.to_static();
    assert_eq!(owned.header, any.header);
    assert_eq!(owned.data, any.data.to_vec());
}

#[test]
fn boolean_raw_path_reemits_stored_octet() {
    // A boolean read from a permissive-only encoding keeps its octet: the
    // raw path re-emits it, the canonical path writes the canonical octet.
    let bytes: [u8; 3] = [0x01, 0x01, 0x01];
    let (_, v) = Boolean::from_ber(&bytes).expect("ber must accept");
    assert_eq!(v.to_der_vec_raw().unwrap(), vec![0x01, 0x01, 0x01]);
    assert_eq!(v.to_der_vec().unwrap(), vec![0x01, 0x01, 0xff]);
}

#[test]
fn reference_reports_the_referent_error() {
    // Qualified calls, so the reference impl itself is exercised rather
    // than the referent's impl through auto-deref.
    let wrapped = Integer::new(4).explicit(Class::ContextSpecific, 31);
    let r = &wrapped;
    assert_eq!(
        <&TaggedValue<Explicit, Integer> as ToDer>::to_der_len(&r),
        wrapped.to_der_len()
    );
    assert_eq!(
        <&TaggedValue<Explicit, Integer> as ToDer>::to_der_len(&r),
        Err(Error::InvalidTag)
    );
    let mut w: Vec<u8> = Vec::new();
    assert_eq!(
        <&TaggedValue<Explicit, Integer> as ToDer>::write_der_header(&r, &mut w),
        Err(SerializeError::Asn1(Error::InvalidTag))
    );
    assert!(w.is_empty());
}

#[test]
fn wrapper_propagates_the_inner_error() {
    // The outer wrapper reports the inner wrapper's complaint unchanged.
    let nested = Integer::new(4).explicit(Class::ContextSpecific, 31).explicit(
        Class::ContextSpecific,
        0,
    );
    assert_eq!(nested.to_der_len(), Err(Error::InvalidTag));
    assert_eq!(nested.to_der_vec().err(), Some(SerializeError::Asn1(Error::InvalidTag)));
}

#[test]
fn raw_path_fails_exactly_where_stated() {
    let wrapped = Integer::new(4).explicit(Class::ContextSpecific, 31);
    assert_eq!(
        wrapped.to_der_vec_raw().err(),
        Some(SerializeError::Asn1(Error::InvalidTag))
    );
}
