//! The general laws of the codec, stated over the specification functions
//! that the entry points' contracts use, and proved once for all inputs.

use vstd::prelude::*;
use crate::types::{AnyValue, Class, Error, Header, Length, ParseErr, Tag};
use crate::decode::{
    spec_class_of,
    spec_constructed_of,
    spec_parse_any,
    spec_parse_any_der,
    spec_tagnum_of,
};
use crate::encode::{
    lemma_be_bytes_len,
    lemma_be_bytes_minimal,
    lemma_be_bytes_value,
    lemma_be_value_leading_zero,
    lemma_pow256_8,
    spec_be_bytes,
    spec_be_value,
    spec_class_value,
    spec_header_bytes,
    spec_id_octet,
    spec_len_bytes,
};
use crate::traits::{CheckDerConstraints, Tagged, ToDer, TryFromAny, spec_from_ber, spec_from_der};
use crate::tagged::{Explicit, Implicit, TaggedValue, TaggedValueModel};
use crate::integer::{Integer, lemma_integer_content_len, spec_integer_content};
use crate::boolean::Boolean;
use crate::types::Any;

verus! {

/// Tag consistency: for every instance of a type with a fixed tag, the
/// runtime-reported tag equals the compile-time constant of the type.
pub proof fn lemma_tag_consistency<T: Tagged>(v: &T)
    ensures
        v.spec_dyn_tag() == T::spec_tag(),
{
    v.lemma_tag_fixed();
}

/// Superset law: any input the DER entry point accepts, the BER entry
/// point accepts too, and it yields the same value and remainder.
pub proof fn lemma_der_accepted_by_ber<'a, T: TryFromAny<'a> + CheckDerConstraints>(bytes: Seq<u8>)
    requires
        spec_from_der::<T>(bytes) is Ok,
    ensures
        spec_from_ber::<T>(bytes) == spec_from_der::<T>(bytes),
{
}

/// Indefinite-length rejection, first half: a node decoded with an
/// indefinite-form length is rejected by the DER entry point with the
/// indefinite-length error, whatever the target type.
pub proof fn lemma_indefinite_rejected_by_der<'a, T: TryFromAny<'a> + CheckDerConstraints>(
    bytes: Seq<u8>,
    rem: Seq<u8>,
    a: AnyValue,
)
    requires
        spec_parse_any(bytes) == Ok::<(Seq<u8>, AnyValue), ParseErr>((rem, a)),
        !a.header.length.spec_is_definite(),
    ensures
        spec_from_der::<T>(bytes) == Err::<(Seq<u8>, T::V), ParseErr>(
            ParseErr::Failure(Error::IndefiniteLengthUnexpected),
        ),
{
}

/// Indefinite-length rejection, second half: the BER entry point accepts
/// the same well-formed bytes; through the generic node it yields the node
/// itself.
pub proof fn lemma_indefinite_accepted_by_ber<'a>(bytes: Seq<u8>, rem: Seq<u8>, a: AnyValue)
    requires
        spec_parse_any(bytes) == Ok::<(Seq<u8>, AnyValue), ParseErr>((rem, a)),
    ensures
        spec_from_ber::<Any<'a>>(bytes) == Ok::<(Seq<u8>, AnyValue), ParseErr>((rem, a)),
{
}

/// Wrapping semantics, explicit: the encoding is the outer tag and length
/// followed by the inner value's complete encoding, own header included.
pub proof fn lemma_explicit_wrapping<'a, T: ToDer>(w: TaggedValue<'a, Explicit, T>)
    ensures
        w.spec_der_header() + w.spec_der_content() == spec_header_bytes(
            w.class,
            true,
            w.tag,
            (w.inner.spec_der_header() + w.inner.spec_der_content()).len() as usize,
        ) + w.inner.spec_der_header() + w.inner.spec_der_content(),
{
    assert(w.spec_der_header() + w.spec_der_content() =~= spec_header_bytes(
        w.class,
        true,
        w.tag,
        (w.inner.spec_der_header() + w.inner.spec_der_content()).len() as usize,
    ) + w.inner.spec_der_header() + w.inner.spec_der_content());
}

/// Wrapping semantics, implicit: the encoding is the outer tag and length
/// followed by the inner value's content only; the inner header is gone.
pub proof fn lemma_implicit_wrapping<'a, T: ToDer>(w: TaggedValue<'a, Implicit, T>)
    ensures
        w.spec_der_header() + w.spec_der_content() == spec_header_bytes(
            w.class,
            w.structured != 0,
            w.tag,
            w.inner.spec_der_content().len() as usize,
        ) + w.inner.spec_der_content(),
{
}

/// Reference transparency: a reference serializes exactly as its referent
/// does — header, content and raw bytes, encodability, and the reported
/// errors alike, so every delegated operation has the referent's result.
pub proof fn lemma_reference_transparency<'x, T: ToDer>(r: &'x T)
    ensures
        <&'x T as ToDer>::spec_der_header(&r) == <T as ToDer>::spec_der_header(r),
        <&'x T as ToDer>::spec_der_content(&r) == <T as ToDer>::spec_der_content(r),
        <&'x T as ToDer>::spec_raw_bytes(&r) == <T as ToDer>::spec_raw_bytes(r),
        <&'x T as ToDer>::spec_der_ok(&r) == <T as ToDer>::spec_der_ok(r),
        <&'x T as ToDer>::spec_der_err(&r) == <T as ToDer>::spec_der_err(r),
        <&'x T as ToDer>::spec_raw_ok(&r) == <T as ToDer>::spec_raw_ok(r),
        <&'x T as ToDer>::spec_raw_err(&r) == <T as ToDer>::spec_raw_err(r),
{
}

/// Round trip: the canonical encoding of an integer, decoded under the
/// canonical entry point, yields the integer back with no input left; the
/// superset law then extends this to the permissive entry point.
pub proof fn lemma_integer_round_trip(v: Integer)
    ensures
        spec_from_der::<Integer>(v.spec_der_header() + v.spec_der_content()) == Ok::<
            (Seq<u8>, Integer),
            ParseErr,
        >((Seq::empty(), v)),
{
    let content = spec_integer_content(v.value);
    lemma_integer_content_len(v.value);
    let clen = content.len();
    let header = spec_header_bytes(crate::types::Class::Universal, false, 2, clen as usize);
    let bytes = header + content;
    assert(spec_id_octet(crate::types::Class::Universal, false, 2) == 2);
    assert(header =~= seq![2u8, clen as u8]);
    assert(bytes[0] == 2 && bytes[1] == clen as u8);
    assert(bytes.len() == 2 + clen);
    assert(bytes.subrange(2, (2 + clen) as int) =~= content);
    assert(bytes.skip((2 + clen) as int) =~= Seq::<u8>::empty());
    lemma_be_bytes_value(v.value as nat);
    if v.value == 0 {
        assert(content =~= seq![0u8]);
        assert(content.drop_last() =~= Seq::<u8>::empty());
        assert(spec_be_value(content) == 0);
    } else {
        crate::encode::lemma_pow256_8();
        crate::encode::lemma_be_bytes_len(v.value as nat, 8);
        crate::encode::lemma_be_bytes_minimal(v.value as nat);
        if crate::encode::spec_be_bytes(v.value as nat)[0] >= 128 {
            lemma_be_value_leading_zero(content);
            assert(content.skip(1) =~= crate::encode::spec_be_bytes(v.value as nat));
        }
    }
    assert(spec_parse_any_der(bytes) == Ok::<(Seq<u8>, AnyValue), ParseErr>(
        (
            Seq::empty(),
            AnyValue {
                header: crate::types::Header {
                    class: crate::types::Class::Universal,
                    constructed: false,
                    tag: crate::types::Tag(2),
                    length: crate::types::Length::Definite(clen as usize),
                },
                data: content,
            },
        ),
    ));
}

/// Round trip for booleans: the canonical encoding of a boolean decodes,
/// under the canonical entry point, to the boolean carrying the canonical
/// octet for the same logical value; a value that already carries a
/// canonical octet comes back unchanged.
pub proof fn lemma_boolean_round_trip(v: Boolean)
    ensures
        spec_from_der::<Boolean>(v.spec_der_header() + v.spec_der_content()) == Ok::<
            (Seq<u8>, Boolean),
            ParseErr,
        >(
            (
                Seq::empty(),
                Boolean {
                    value: if v.spec_bool() {
                        255u8
                    } else {
                        0u8
                    },
                },
            ),
        ),
        (Boolean {
            value: if v.spec_bool() {
                255u8
            } else {
                0u8
            },
        }).spec_bool() == v.spec_bool(),
{
    let c: u8 = if v.spec_bool() {
        255u8
    } else {
        0u8
    };
    let header = v.spec_der_header();
    let bytes = header + v.spec_der_content();
    assert(spec_id_octet(crate::types::Class::Universal, false, 1) == 1);
    assert(header =~= seq![1u8, 1u8]);
    assert(bytes =~= seq![1u8, 1u8, c]);
    assert(bytes.subrange(2, 3) =~= seq![c]);
    assert(bytes.skip(3) =~= Seq::<u8>::empty());
    assert(spec_parse_any_der(bytes) == Ok::<(Seq<u8>, AnyValue), ParseErr>(
        (
            Seq::empty(),
            AnyValue {
                header: crate::types::Header {
                    class: crate::types::Class::Universal,
                    constructed: false,
                    tag: crate::types::Tag(1),
                    length: crate::types::Length::Definite(1),
                },
                data: seq![c],
            },
        ),
    ));
}

/// The identifier octet written for a header reads back as the same
/// class, constructed flag and tag number.
pub proof fn lemma_id_octet_inverse(class: Class, constructed: bool, tag: u32)
    requires
        tag <= 30,
    ensures
        spec_class_of(spec_id_octet(class, constructed, tag)) == class,
        spec_constructed_of(spec_id_octet(class, constructed, tag)) == constructed,
        spec_tagnum_of(spec_id_octet(class, constructed, tag)) == tag,
{
    let c = spec_class_value(class);
    let f: int = if constructed {
        32int
    } else {
        0int
    };
    let id = spec_id_octet(class, constructed, tag);
    assert(c <= 3);
    assert(id == c * 64 + f + tag);
    assert(id / 64 == c) by (nonlinear_arith)
        requires
            id == c * 64 + f + tag,
            0 <= tag <= 30,
            f == 0 || f == 32,
            0 <= c <= 3,
    ;
    assert((id / 32) % 2 == (if constructed {
        1int
    } else {
        0int
    })) by (nonlinear_arith)
        requires
            id == c * 64 + f + tag,
            0 <= tag <= 30,
            f == (if constructed {
                32int
            } else {
                0int
            }),
            0 <= c <= 3,
    ;
    assert(id % 32 == tag) by (nonlinear_arith)
        requires
            id == c * 64 + f + tag,
            0 <= tag <= 30,
            f == 0 || f == 32,
            0 <= c <= 3,
    ;
}

/// What the header writer emits, the node decoder reads back: a header for
/// a tag in the single-octet range, followed by that many content bytes
/// and any tail, decodes to exactly that node and leaves exactly the tail.
pub proof fn lemma_header_round_trip(
    class: Class,
    constructed: bool,
    tag: u32,
    content: Seq<u8>,
    tail: Seq<u8>,
)
    requires
        tag <= 30,
        content.len() <= usize::MAX,
    ensures
        spec_parse_any(
            spec_header_bytes(class, constructed, tag, content.len() as usize) + content + tail,
        ) == Ok::<(Seq<u8>, AnyValue), ParseErr>(
            (
                tail,
                AnyValue {
                    header: Header {
                        class,
                        constructed,
                        tag: Tag(tag),
                        length: Length::Definite(content.len() as usize),
                    },
                    data: content,
                },
            ),
        ),
{
    let len: usize = content.len() as usize;
    let id = spec_id_octet(class, constructed, tag);
    lemma_id_octet_inverse(class, constructed, tag);
    let lb = spec_len_bytes(len as nat);
    let bytes = spec_header_bytes(class, constructed, tag, len) + content + tail;
    assert(bytes[0] == id);
    if len < 128 {
        assert(lb =~= seq![len as u8]);
        assert(bytes[1] == len as u8);
        assert(bytes.len() == 2 + len + tail.len());
        assert(bytes.subrange(2, (2 + len) as int) =~= content);
        assert(bytes.skip((2 + len) as int) =~= tail);
    } else {
        lemma_pow256_8();
        lemma_be_bytes_len((len as u64) as nat, 8);
        lemma_be_bytes_minimal(len as nat);
        lemma_be_bytes_value(len as nat);
        let k = spec_be_bytes(len as nat).len();
        assert(1 <= k <= 8);
        assert(lb =~= seq![(128 + k) as u8] + spec_be_bytes(len as nat));
        assert(bytes[1] == (128 + k) as u8);
        assert(bytes.len() == 2 + k + len + tail.len());
        assert(bytes.subrange(2, (2 + k) as int) =~= spec_be_bytes(len as nat));
        assert(spec_be_value(bytes.subrange(2, (2 + k) as int)) == len);
        assert(bytes.subrange((2 + k) as int, (2 + k + len) as int) =~= content);
        assert(bytes.skip((2 + k + len) as int) =~= tail);
    }
}

/// Round trip through the explicit wrapper: wrapping an integer, encoding
/// the wrapper, and decoding the bytes under the canonical entry point
/// yields the wrapper's value back, provided the outer tag is in the
/// single-octet range and the wrapper carries the constructed flag its
/// constructor sets.
pub proof fn lemma_explicit_integer_round_trip<'a>(w: TaggedValue<'a, Explicit, Integer>)
    requires
        w.tag <= 30,
        w.structured == 1,
    ensures
        spec_from_der::<TaggedValue<'a, Explicit, Integer>>(
            w.spec_der_header() + w.spec_der_content(),
        ) == Ok::<(Seq<u8>, TaggedValueModel<Integer>), ParseErr>((Seq::empty(), w@)),
{
    let content = w.inner.spec_der_header() + w.inner.spec_der_content();
    lemma_integer_content_len(w.inner.value);
    lemma_integer_round_trip(w.inner);
    lemma_der_accepted_by_ber::<Integer>(content);
    lemma_header_round_trip(w.class, true, w.tag, content, Seq::empty());
    assert(w.spec_der_header() + w.spec_der_content() =~= spec_header_bytes(
        w.class,
        true,
        w.tag,
        content.len() as usize,
    ) + content + Seq::<u8>::empty());
}

} // verus!
