//! The extensibility contract of the codec: tag identity, the BER and DER
//! parse entry points a type gains from one primitive conversion, canonical
//! constraint checking, serialization, context-tag wrapping, and owned
//! conversion.

use vstd::prelude::*;
use crate::types::{Any, AnyValue, Class, Error, ParseErr, ParseResult, SerializeError, SerializeResult, Tag};
use crate::decode::{spec_parse_any, spec_parse_any_der};
use crate::tagged::{Explicit, Implicit, TaggedValue};

verus! {

/// Marker selecting the permissive parser mode; never instantiated.
#[derive(Debug)]
pub struct BerParser {
    _private: (),
}

/// Marker selecting the canonical parser mode; never instantiated.
#[derive(Debug)]
pub struct DerParser {
    _private: (),
}

/// The closed set of parser mode markers.
pub trait ASN1Parser {

}

impl ASN1Parser for BerParser {

}

impl ASN1Parser for DerParser {

}

/// Runtime tag identity: a value reports the tag it is encoded under, also
/// where the concrete type is erased.
pub trait DynTagged {
    /// The tag the value reports.
    spec fn spec_dyn_tag(&self) -> Tag;

    /// Runtime accessor for the value's tag.
    fn tag(&self) -> (t: Tag)
        ensures
            t == self.spec_dyn_tag(),
    ;
}

/// Compile-time tag identity: every value of the type is encoded under one
/// fixed tag. Each implementation proves that the tag its instances report
/// at runtime is that fixed tag.
pub trait Tagged: DynTagged {
    /// The type's fixed tag.
    spec fn spec_tag() -> Tag;

    /// The fixed tag, as a value.
    fn const_tag() -> (t: Tag)
        ensures
            t == Self::spec_tag(),
    ;

    /// Law: the runtime-reported tag of every instance equals the fixed
    /// tag of the type.
    proof fn lemma_tag_fixed(&self)
        ensures
            self.spec_dyn_tag() == Self::spec_tag(),
    ;
}

impl<'x, T: DynTagged> DynTagged for &'x T {
    open spec fn spec_dyn_tag(&self) -> Tag {
        (**self).spec_dyn_tag()
    }

    fn tag(&self) -> (t: Tag) {
        (**self).tag()
    }
}

impl<'x, T: Tagged> Tagged for &'x T {
    open spec fn spec_tag() -> Tag {
        T::spec_tag()
    }

    fn const_tag() -> (t: Tag) {
        T::const_tag()
    }

    proof fn lemma_tag_fixed(&self) {
        (**self).lemma_tag_fixed();
    }
}

/// The single primitive conversion a type implements to join the codec:
/// re-interpreting one generic decoded node. The conversion is a pure
/// function of the node's mathematical value.
pub trait TryFromAny<'a>: Sized + View {
    /// What the conversion yields on a node's value.
    spec fn spec_from_any(a: AnyValue) -> Result<Self::V, Error>;

    /// Converts a decoded node into the type, or reports why the node does
    /// not hold a value of it.
    fn try_from_any(any: Any<'a>) -> (r: Result<Self, Error>)
        ensures
            match r {
                Ok(v) => Self::spec_from_any(any@) == Ok::<Self::V, Error>(v@),
                Err(e) => Self::spec_from_any(any@) == Err::<Self::V, Error>(e),
            },
    ;
}

/// Verification of canonical-form constraints on a raw decoded node. The
/// rule content is type-specific; the check is pure and never changes the
/// node.
pub trait CheckDerConstraints {
    /// What the check yields on a node's value.
    spec fn spec_check_constraints(a: AnyValue) -> Result<(), Error>;

    fn check_constraints(any: &Any) -> (r: Result<(), Error>)
        ensures
            r == Self::spec_check_constraints(any@),
    ;
}

/// What the BER entry point yields on an input: decode one node from the
/// prefix, then convert it. A conversion error is terminal — never
/// `Incomplete` — because the node's bytes were already structurally
/// consumed, and more input cannot change the outcome.
pub open spec fn spec_from_ber<'a, T: TryFromAny<'a>>(bytes: Seq<u8>) -> Result<
    (Seq<u8>, T::V),
    ParseErr,
> {
    match spec_parse_any(bytes) {
        Err(e) => Err(e),
        Ok((rem, a)) => match T::spec_from_any(a) {
            Ok(v) => Ok((rem, v)),
            Err(e) => Err(ParseErr::Failure(e)),
        },
    }
}

/// What the DER entry point yields: decode one node under the canonical
/// rules (an indefinite-form length is rejected), require the constraint
/// check on the raw node, then convert exactly as BER does, with the same
/// terminal-error policy.
pub open spec fn spec_from_der<'a, T: TryFromAny<'a> + CheckDerConstraints>(bytes: Seq<u8>) -> Result<
    (Seq<u8>, T::V),
    ParseErr,
> {
    match spec_parse_any_der(bytes) {
        Err(e) => Err(e),
        Ok((rem, a)) => match T::spec_check_constraints(a) {
            Err(e) => Err(ParseErr::Failure(e)),
            Ok(_) => match T::spec_from_any(a) {
                Ok(v) => Ok((rem, v)),
                Err(e) => Err(ParseErr::Failure(e)),
            },
        },
    }
}

/// Base trait for BER object parsers. A type usually does not implement it
/// directly: implementing the primitive conversion provides it for free.
pub trait FromBer<'a>: Sized {
    fn from_ber(bytes: &'a [u8]) -> ParseResult<'a, Self>;
}

impl<'a, T: TryFromAny<'a>> FromBer<'a> for T {
    fn from_ber(bytes: &'a [u8]) -> (r: ParseResult<'a, T>)
        ensures
            match r {
                Ok((rem, v)) => spec_from_ber::<T>(bytes@) == Ok::<(Seq<u8>, T::V), ParseErr>(
                    (rem@, v@),
                ),
                Err(e) => spec_from_ber::<T>(bytes@) == Err::<(Seq<u8>, T::V), ParseErr>(e),
            },
    {
        match Any::from_ber(bytes) {
            Err(e) => Err(e),
            Ok((rem, any)) => match T::try_from_any(any) {
                Ok(v) => Ok((rem, v)),
                Err(e) => Err(ParseErr::Failure(e)),
            },
        }
    }
}

/// Base trait for DER object parsers. A type usually does not implement it
/// directly: implementing the primitive conversion and the constraint
/// check provides it for free.
pub trait FromDer<'a>: Sized {
    fn from_der(bytes: &'a [u8]) -> ParseResult<'a, Self>;
}

impl<'a, T: TryFromAny<'a> + CheckDerConstraints> FromDer<'a> for T {
    fn from_der(bytes: &'a [u8]) -> (r: ParseResult<'a, T>)
        ensures
            match r {
                Ok((rem, v)) => spec_from_der::<T>(bytes@) == Ok::<(Seq<u8>, T::V), ParseErr>(
                    (rem@, v@),
                ),
                Err(e) => spec_from_der::<T>(bytes@) == Err::<(Seq<u8>, T::V), ParseErr>(e),
            },
    {
        match Any::from_der(bytes) {
            Err(e) => Err(e),
            Ok((rem, any)) => {
                // The canonical rules use the definite form of length
                // encoding only.
                if !any.header.length.is_definite() {
                    return Err(ParseErr::Failure(Error::IndefiniteLengthUnexpected));
                }
                match T::check_constraints(&any) {
                    Err(e) => Err(ParseErr::Failure(e)),
                    Ok(_) => match T::try_from_any(any) {
                        Ok(v) => Ok((rem, v)),
                        Err(e) => Err(ParseErr::Failure(e)),
                    },
                }
            },
        }
    }
}

/// Everything a value needs to be encoded under the canonical form. A
/// concrete type supplies its exact length and its header and content
/// writers; the composed and buffering operations come for free. The raw
/// variants re-emit provided values verbatim and are not required to yield
/// canonical bytes.
pub trait ToDer: DynTagged {
    /// Whether the value is encodable at all: its tag and lengths are
    /// representable on the wire.
    spec fn spec_der_ok(&self) -> bool;

    /// The error a canonical operation reports when the value is not
    /// encodable; immaterial for a type that always encodes.
    spec fn spec_der_err(&self) -> Error;

    /// The header bytes of the canonical encoding.
    spec fn spec_der_header(&self) -> Seq<u8>;

    /// The content bytes of the canonical encoding.
    spec fn spec_der_content(&self) -> Seq<u8>;

    /// The bytes the raw write path emits: the stored or provided values
    /// re-emitted verbatim. They are not required to be in canonical form,
    /// and not required to equal the canonical bytes; for most types they
    /// are the canonical header and content.
    spec fn spec_raw_bytes(&self) -> Seq<u8>;

    /// Whether the raw write path succeeds; it may succeed where the
    /// canonical path does not (a node received in a non-canonical form
    /// can still be re-emitted).
    spec fn spec_raw_ok(&self) -> bool;

    /// The error the raw write path reports when it cannot re-emit the
    /// value; immaterial for a type whose raw path always succeeds.
    spec fn spec_raw_err(&self) -> Error;

    /// Exact encoded length of the value, header and content together.
    fn to_der_len(&self) -> (r: Result<usize, Error>)
        ensures
            match r {
                Ok(n) => self.spec_der_ok() && n == self.spec_der_header().len()
                    + self.spec_der_content().len(),
                Err(e) => !self.spec_der_ok() && e == self.spec_der_err(),
            },
    ;

    /// Writes the canonical encoding to a newly allocated byte vector.
    fn to_der_vec(&self) -> (r: SerializeResult<Vec<u8>>)
        ensures
            match r {
                Ok(v) => self.spec_der_ok() && v@ == self.spec_der_header()
                    + self.spec_der_content(),
                Err(e) => !self.spec_der_ok() && e == SerializeError::Asn1(self.spec_der_err()),
            },
    {
        let mut v: Vec<u8> = Vec::new();
        match self.write_der(&mut v) {
            Ok(_) => {
                assert(v@ =~= self.spec_der_header() + self.spec_der_content());
                Ok(v)
            },
            Err(e) => Err(e),
        }
    }

    /// As `to_der_vec`, but through the raw write path: on success the
    /// buffer holds exactly the bytes the raw write path appends, which
    /// may not be a canonical encoding; a failure is the raw write path's
    /// own.
    fn to_der_vec_raw(&self) -> (r: SerializeResult<Vec<u8>>)
        ensures
            match r {
                Ok(v) => self.spec_raw_ok() && v@ == self.spec_raw_bytes(),
                Err(e) => !self.spec_raw_ok() && e == SerializeError::Asn1(self.spec_raw_err()),
            },
    {
        let mut v: Vec<u8> = Vec::new();
        match self.write_der_raw(&mut v) {
            Ok(_) => {
                assert(v@ =~= self.spec_raw_bytes());
                Ok(v)
            },
            Err(e) => Err(e),
        }
    }

    /// Writes the canonical encoding (header, then content) into the sink;
    /// yields the total count of bytes written. Nothing is written when the
    /// value is not encodable.
    fn write_der(&self, writer: &mut Vec<u8>) -> (r: SerializeResult<usize>)
        ensures
            match r {
                Ok(n) => self.spec_der_ok() && final(writer)@ == old(writer)@
                    + self.spec_der_header() + self.spec_der_content() && n
                    == self.spec_der_header().len() + self.spec_der_content().len(),
                Err(e) => !self.spec_der_ok() && e == SerializeError::Asn1(self.spec_der_err())
                    && final(writer)@ == old(writer)@,
            },
    {
        let start = writer.len();
        match self.write_der_header(writer) {
            Ok(_) => {},
            Err(e) => {
                return Err(e);
            },
        }
        match self.write_der_content(writer) {
            Ok(_) => {},
            Err(e) => {
                return Err(e);
            },
        }
        Ok(writer.len() - start)
    }

    /// Writes the header bytes of the canonical encoding.
    fn write_der_header(&self, writer: &mut Vec<u8>) -> (r: SerializeResult<usize>)
        ensures
            match r {
                Ok(n) => self.spec_der_ok() && final(writer)@ == old(writer)@
                    + self.spec_der_header() && n == self.spec_der_header().len(),
                Err(e) => !self.spec_der_ok() && e == SerializeError::Asn1(self.spec_der_err())
                    && final(writer)@ == old(writer)@,
            },
    ;

    /// Writes the content bytes (all except the header) of the canonical
    /// encoding.
    fn write_der_content(&self, writer: &mut Vec<u8>) -> (r: SerializeResult<usize>)
        ensures
            match r {
                Ok(n) => self.spec_der_ok() && final(writer)@ == old(writer)@
                    + self.spec_der_content() && n == self.spec_der_content().len(),
                Err(e) => !self.spec_der_ok() && e == SerializeError::Asn1(self.spec_der_err())
                    && final(writer)@ == old(writer)@,
            },
    ;

    /// Raw write path: re-emits the stored or provided values verbatim, as
    /// `spec_raw_bytes` states them per type. The bytes are not required to
    /// equal the canonical path's, and nothing is written on failure.
    fn write_der_raw(&self, writer: &mut Vec<u8>) -> (r: SerializeResult<usize>)
        ensures
            match r {
                Ok(n) => self.spec_raw_ok() && final(writer)@ == old(writer)@
                    + self.spec_raw_bytes() && n == self.spec_raw_bytes().len(),
                Err(e) => !self.spec_raw_ok() && e == SerializeError::Asn1(self.spec_raw_err())
                    && final(writer)@ == old(writer)@,
            },
    ;
}

impl<'x, T: ToDer> ToDer for &'x T {
    open spec fn spec_der_ok(&self) -> bool {
        (**self).spec_der_ok()
    }

    open spec fn spec_der_err(&self) -> Error {
        (**self).spec_der_err()
    }

    open spec fn spec_der_header(&self) -> Seq<u8> {
        (**self).spec_der_header()
    }

    open spec fn spec_der_content(&self) -> Seq<u8> {
        (**self).spec_der_content()
    }

    fn to_der_len(&self) -> (r: Result<usize, Error>) {
        (**self).to_der_len()
    }

    fn write_der_header(&self, writer: &mut Vec<u8>) -> (r: SerializeResult<usize>) {
        (**self).write_der_header(writer)
    }

    fn write_der_content(&self, writer: &mut Vec<u8>) -> (r: SerializeResult<usize>) {
        (**self).write_der_content(writer)
    }

    open spec fn spec_raw_bytes(&self) -> Seq<u8> {
        (**self).spec_raw_bytes()
    }

    open spec fn spec_raw_ok(&self) -> bool {
        (**self).spec_raw_ok()
    }

    open spec fn spec_raw_err(&self) -> Error {
        (**self).spec_raw_err()
    }

    fn write_der_raw(&self, writer: &mut Vec<u8>) -> (r: SerializeResult<usize>) {
        (**self).write_der_raw(writer)
    }
}

/// Explicit wrapping: any owned value can be placed under an outer context
/// tag whose content is the value's complete encoding.
pub trait AsTaggedExplicit<'a>: Sized {
    fn explicit(self, class: Class, tag: u32) -> (r: TaggedValue<'a, Explicit, Self>)
        ensures
            r.class == class,
            r.tag == tag,
            r.structured == 1,
            r.inner == self,
    {
        TaggedValue::new_explicit(class, tag, self)
    }
}

impl<'a, T: Sized + 'a> AsTaggedExplicit<'a> for T {

}

/// Implicit wrapping: any owned value can be re-tagged, its own tag
/// discarded; the caller states whether the content is structured, since
/// that can no longer be inferred.
pub trait AsTaggedImplicit<'a>: Sized {
    fn implicit(self, class: Class, structured: u8, tag: u32) -> (r: TaggedValue<
        'a,
        Implicit,
        Self,
    >)
        ensures
            r.class == class,
            r.tag == tag,
            r.structured == structured,
            r.inner == self,
    {
        TaggedValue::new_implicit(class, structured, tag, self)
    }
}

impl<'a, T: Sized + 'a> AsTaggedImplicit<'a> for T {

}

/// Conversion to an owned counterpart with no borrowed lifetime left, for
/// values that must outlive the buffer they were parsed from. The owned
/// value stands for the same mathematical value as the original.
pub trait ToStatic: View {
    type Owned: 'static + View<V = Self::V>;

    fn to_static(&self) -> (r: Self::Owned)
        ensures
            r@ == self@,
    ;
}

} // verus!
