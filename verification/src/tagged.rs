//! Context-tagged wrapper values. Explicit wrapping keeps the inner
//! value's complete encoding as the new content; implicit wrapping keeps
//! only the inner content, under the new tag.

use vstd::prelude::*;
use core::marker::PhantomData;
use crate::types::{
    Any,
    AnyValue,
    Class,
    Error,
    Header,
    ParseErr,
    SerializeError,
    SerializeResult,
    Tag,
};
use crate::decode::spec_parse_any_der;
use crate::encode::{header_length, lemma_header_len_bounds, spec_header_bytes, write_header_bytes};
use crate::traits::{
    CheckDerConstraints,
    DynTagged,
    FromBer,
    Tagged,
    ToDer,
    TryFromAny,
    spec_from_ber,
};

verus! {

/// Marker selecting explicit wrapping; never instantiated.
#[derive(Debug)]
pub struct Explicit {
    _private: (),
}

/// Marker selecting implicit wrapping; never instantiated.
#[derive(Debug)]
pub struct Implicit {
    _private: (),
}

/// A context-tagged wrapper: a target class and tag number, a structured
/// flag (meaningful for implicit wrapping only), and exclusive ownership
/// of the inner value. The kind marker selects the encoding behaviour at
/// compile time.
#[verifier::reject_recursive_types(E)]
pub struct TaggedValue<'a, E, T> {
    pub class: Class,
    pub structured: u8,
    pub tag: u32,
    pub inner: T,
    pub phantom: PhantomData<&'a E>,
}

impl<'a, T> TaggedValue<'a, Explicit, T> {
    /// Wraps `inner` under an outer tag that will carry its complete
    /// encoding; the outer node is always constructed.
    pub fn new_explicit(class: Class, tag: u32, inner: T) -> (r: Self)
        ensures
            r.class == class,
            r.tag == tag,
            r.structured == 1,
            r.inner == inner,
    {
        TaggedValue { class, structured: 1, tag, inner, phantom: PhantomData }
    }
}

impl<'a, T> TaggedValue<'a, Implicit, T> {
    /// Re-tags `inner`: the new tag replaces the inner value's own, and
    /// `structured` states whether the content is constructed.
    pub fn new_implicit(class: Class, structured: u8, tag: u32, inner: T) -> (r: Self)
        ensures
            r.class == class,
            r.tag == tag,
            r.structured == structured,
            r.inner == inner,
    {
        TaggedValue { class, structured, tag, inner, phantom: PhantomData }
    }
}

impl<'a, E, T> DynTagged for TaggedValue<'a, E, T> {
    open spec fn spec_dyn_tag(&self) -> Tag {
        Tag(self.tag)
    }

    fn tag(&self) -> (t: Tag) {
        Tag(self.tag)
    }
}

impl<'a, T: ToDer> ToDer for TaggedValue<'a, Explicit, T> {
    /// Encodable when the inner value is, the outer tag is in the
    /// single-octet range, and the total length is representable.
    open spec fn spec_der_ok(&self) -> bool {
        &&& self.tag <= 30
        &&& self.inner.spec_der_ok()
        &&& self.spec_der_content().len() <= usize::MAX
        &&& self.spec_der_header().len() + self.spec_der_content().len() <= usize::MAX
    }

    /// The inner value's error where the inner value is not encodable;
    /// otherwise the wrapper's own tag or length complaint.
    open spec fn spec_der_err(&self) -> Error {
        if !self.inner.spec_der_ok() {
            self.inner.spec_der_err()
        } else if self.tag > 30 {
            Error::InvalidTag
        } else {
            Error::InvalidLength
        }
    }

    /// Explicit wrapping: the content is the inner value's complete
    /// encoding, own header included.
    open spec fn spec_der_content(&self) -> Seq<u8> {
        self.inner.spec_der_header() + self.inner.spec_der_content()
    }

    open spec fn spec_der_header(&self) -> Seq<u8> {
        spec_header_bytes(self.class, true, self.tag, self.spec_der_content().len() as usize)
    }

    fn to_der_len(&self) -> (r: Result<usize, Error>) {
        let inner_len = match self.inner.to_der_len() {
            Ok(n) => n,
            Err(e) => {
                return Err(e);
            },
        };
        let hl = match header_length(self.tag, inner_len) {
            Ok(n) => n,
            Err(e) => {
                return Err(e);
            },
        };
        proof {
            lemma_header_len_bounds(self.class, true, self.tag, inner_len);
        }
        if usize::MAX - hl < inner_len {
            return Err(Error::InvalidLength);
        }
        Ok(hl + inner_len)
    }

    fn write_der_header(&self, writer: &mut Vec<u8>) -> (r: SerializeResult<usize>) {
        let inner_len = match self.to_der_len() {
            Ok(_) => match self.inner.to_der_len() {
                Ok(n) => n,
                Err(e) => {
                    return Err(SerializeError::Asn1(e));
                },
            },
            Err(e) => {
                return Err(SerializeError::Asn1(e));
            },
        };
        write_header_bytes(writer, self.class, true, self.tag, inner_len)
    }

    fn write_der_content(&self, writer: &mut Vec<u8>) -> (r: SerializeResult<usize>) {
        match self.to_der_len() {
            Ok(_) => {},
            Err(e) => {
                return Err(SerializeError::Asn1(e));
            },
        }
        self.inner.write_der(writer)
    }

    /// A wrapper is built fresh by the caller and stores no received form,
    /// so the raw bytes are the canonical ones, and the raw path succeeds
    /// and fails exactly as the canonical one does.
    open spec fn spec_raw_bytes(&self) -> Seq<u8> {
        self.spec_der_header() + self.spec_der_content()
    }

    open spec fn spec_raw_ok(&self) -> bool {
        self.spec_der_ok()
    }

    open spec fn spec_raw_err(&self) -> Error {
        self.spec_der_err()
    }

    fn write_der_raw(&self, writer: &mut Vec<u8>) -> (r: SerializeResult<usize>) {
        self.write_der(writer)
    }
}

impl<'a, T: ToDer> ToDer for TaggedValue<'a, Implicit, T> {
    /// Encodable when the inner value is, the outer tag is in the
    /// single-octet range, and the total length is representable.
    open spec fn spec_der_ok(&self) -> bool {
        &&& self.tag <= 30
        &&& self.inner.spec_der_ok()
        &&& self.spec_der_content().len() <= usize::MAX
        &&& self.spec_der_header().len() + self.spec_der_content().len() <= usize::MAX
    }

    /// The inner value's error where the inner value is not encodable;
    /// otherwise the wrapper's own tag or length complaint.
    open spec fn spec_der_err(&self) -> Error {
        if !self.inner.spec_der_ok() {
            self.inner.spec_der_err()
        } else if self.tag > 30 {
            Error::InvalidTag
        } else {
            Error::InvalidLength
        }
    }

    /// Implicit wrapping: the content is the inner value's content only;
    /// the inner header is discarded with the inner tag.
    open spec fn spec_der_content(&self) -> Seq<u8> {
        self.inner.spec_der_content()
    }

    open spec fn spec_der_header(&self) -> Seq<u8> {
        spec_header_bytes(
            self.class,
            self.structured != 0,
            self.tag,
            self.spec_der_content().len() as usize,
        )
    }

    fn to_der_len(&self) -> (r: Result<usize, Error>) {
        let content_len = {
            let mut tmp: Vec<u8> = Vec::new();
            match self.inner.write_der_content(&mut tmp) {
                Ok(n) => n,
                Err(SerializeError::Asn1(e)) => {
                    return Err(e);
                },
                Err(SerializeError::Io) => {
                    return Err(Error::InvalidValue);
                },
            }
        };
        let hl = match header_length(self.tag, content_len) {
            Ok(n) => n,
            Err(e) => {
                return Err(e);
            },
        };
        proof {
            lemma_header_len_bounds(self.class, self.structured != 0, self.tag, content_len);
        }
        if usize::MAX - hl < content_len {
            return Err(Error::InvalidLength);
        }
        Ok(hl + content_len)
    }

    fn write_der_header(&self, writer: &mut Vec<u8>) -> (r: SerializeResult<usize>) {
        let content_len = match self.to_der_len() {
            Ok(_) => {
                let mut tmp: Vec<u8> = Vec::new();
                match self.inner.write_der_content(&mut tmp) {
                    Ok(n) => n,
                    Err(_) => {
                        return Err(SerializeError::Asn1(Error::InvalidValue));
                    },
                }
            },
            Err(e) => {
                return Err(SerializeError::Asn1(e));
            },
        };
        write_header_bytes(writer, self.class, self.structured != 0, self.tag, content_len)
    }

    fn write_der_content(&self, writer: &mut Vec<u8>) -> (r: SerializeResult<usize>) {
        match self.to_der_len() {
            Ok(_) => {},
            Err(e) => {
                return Err(SerializeError::Asn1(e));
            },
        }
        self.inner.write_der_content(writer)
    }

    /// A wrapper is built fresh by the caller and stores no received form,
    /// so the raw bytes are the canonical ones, and the raw path succeeds
    /// and fails exactly as the canonical one does.
    open spec fn spec_raw_bytes(&self) -> Seq<u8> {
        self.spec_der_header() + self.spec_der_content()
    }

    open spec fn spec_raw_ok(&self) -> bool {
        self.spec_der_ok()
    }

    open spec fn spec_raw_err(&self) -> Error {
        self.spec_der_err()
    }

    fn write_der_raw(&self, writer: &mut Vec<u8>) -> (r: SerializeResult<usize>) {
        self.write_der(writer)
    }
}

/// Mathematical value of a tagged wrapper: the target class, flag and tag,
/// and the inner value's own mathematical value.
pub struct TaggedValueModel<V> {
    pub class: Class,
    pub structured: u8,
    pub tag: u32,
    pub inner: V,
}

impl<'a, E, T: View> View for TaggedValue<'a, E, T> {
    type V = TaggedValueModel<T::V>;

    open spec fn view(&self) -> TaggedValueModel<T::V> {
        TaggedValueModel {
            class: self.class,
            structured: self.structured,
            tag: self.tag,
            inner: self.inner@,
        }
    }
}

/// What converting a node into an explicitly tagged value yields: the node
/// must be constructed, and its content must hold exactly the inner
/// value's complete encoding.
pub open spec fn spec_explicit_from_any<'a, T: TryFromAny<'a>>(a: AnyValue) -> Result<
    TaggedValueModel<T::V>,
    Error,
> {
    if !a.header.constructed {
        Err(Error::ConstructedUnexpected)
    } else {
        match spec_from_ber::<T>(a.data) {
            Err(ParseErr::Incomplete) => Err(Error::InvalidLength),
            Err(ParseErr::Failure(e)) => Err(e),
            Ok((rem, v)) => if rem.len() != 0 {
                Err(Error::InvalidLength)
            } else {
                Ok(
                    TaggedValueModel {
                        class: a.header.class,
                        structured: 1,
                        tag: a.header.tag.0,
                        inner: v,
                    },
                )
            },
        }
    }
}

impl<'a, T: TryFromAny<'a>> TryFromAny<'a> for TaggedValue<'a, Explicit, T> {
    open spec fn spec_from_any(a: AnyValue) -> Result<Self::V, Error> {
        spec_explicit_from_any::<T>(a)
    }

    fn try_from_any(any: Any<'a>) -> (r: Result<Self, Error>) {
        if !any.header.constructed {
            return Err(Error::ConstructedUnexpected);
        }
        match T::from_ber(any.data) {
            Err(ParseErr::Incomplete) => Err(Error::InvalidLength),
            Err(ParseErr::Failure(e)) => Err(e),
            Ok((rem, v)) => {
                if rem.len() != 0 {
                    return Err(Error::InvalidLength);
                }
                Ok(
                    TaggedValue {
                        class: any.header.class,
                        structured: 1,
                        tag: any.header.tag.0,
                        inner: v,
                        phantom: PhantomData,
                    },
                )
            },
        }
    }
}

/// Canonical constraints of an explicitly tagged value: the content must
/// hold one complete node in canonical form, and that node must satisfy
/// the inner type's own constraints.
pub open spec fn spec_explicit_check<T: CheckDerConstraints>(a: AnyValue) -> Result<(), Error> {
    match spec_parse_any_der(a.data) {
        Err(ParseErr::Incomplete) => Err(Error::InvalidLength),
        Err(ParseErr::Failure(e)) => Err(e),
        Ok((rem, node)) => if rem.len() != 0 {
            Err(Error::InvalidLength)
        } else {
            T::spec_check_constraints(node)
        },
    }
}

impl<'a, T: CheckDerConstraints> CheckDerConstraints for TaggedValue<'a, Explicit, T> {
    open spec fn spec_check_constraints(a: AnyValue) -> Result<(), Error> {
        spec_explicit_check::<T>(a)
    }

    fn check_constraints(any: &Any) -> (r: Result<(), Error>) {
        match Any::from_der(any.data) {
            Err(ParseErr::Incomplete) => Err(Error::InvalidLength),
            Err(ParseErr::Failure(e)) => Err(e),
            Ok((rem, node)) => {
                if rem.len() != 0 {
                    return Err(Error::InvalidLength);
                }
                T::check_constraints(&node)
            },
        }
    }
}

/// What converting a node into an implicitly tagged value yields: the
/// node's content is handed to the inner conversion under the inner
/// type's own fixed tag, since the wire carries only the outer one.
pub open spec fn spec_implicit_from_any<'a, T: TryFromAny<'a> + Tagged>(a: AnyValue) -> Result<
    TaggedValueModel<T::V>,
    Error,
> {
    match T::spec_from_any(
        AnyValue {
            header: Header {
                class: Class::Universal,
                constructed: a.header.constructed,
                tag: T::spec_tag(),
                length: a.header.length,
            },
            data: a.data,
        },
    ) {
        Ok(v) => Ok(
            TaggedValueModel {
                class: a.header.class,
                structured: if a.header.constructed {
                    1u8
                } else {
                    0u8
                },
                tag: a.header.tag.0,
                inner: v,
            },
        ),
        Err(e) => Err(e),
    }
}

impl<'a, T: TryFromAny<'a> + Tagged> TryFromAny<'a> for TaggedValue<'a, Implicit, T> {
    open spec fn spec_from_any(a: AnyValue) -> Result<Self::V, Error> {
        spec_implicit_from_any::<T>(a)
    }

    fn try_from_any(any: Any<'a>) -> (r: Result<Self, Error>) {
        let inner_any = Any {
            header: Header {
                class: Class::Universal,
                constructed: any.header.constructed,
                tag: T::const_tag(),
                length: any.header.length,
            },
            data: any.data,
        };
        let structured: u8 = if any.header.constructed {
            1
        } else {
            0
        };
        match T::try_from_any(inner_any) {
            Ok(v) => Ok(
                TaggedValue {
                    class: any.header.class,
                    structured,
                    tag: any.header.tag.0,
                    inner: v,
                    phantom: PhantomData,
                },
            ),
            Err(e) => Err(e),
        }
    }
}

/// Canonical constraints of an implicitly tagged value: the inner type's
/// constraints, on the node re-read under the inner type's fixed tag.
pub open spec fn spec_implicit_check<T: CheckDerConstraints + Tagged>(a: AnyValue) -> Result<
    (),
    Error,
> {
    T::spec_check_constraints(
        AnyValue {
            header: Header {
                class: Class::Universal,
                constructed: a.header.constructed,
                tag: T::spec_tag(),
                length: a.header.length,
            },
            data: a.data,
        },
    )
}

impl<'a, T: CheckDerConstraints + Tagged> CheckDerConstraints for TaggedValue<'a, Implicit, T> {
    open spec fn spec_check_constraints(a: AnyValue) -> Result<(), Error> {
        spec_implicit_check::<T>(a)
    }

    fn check_constraints(any: &Any) -> (r: Result<(), Error>) {
        let inner_any = Any {
            header: Header {
                class: Class::Universal,
                constructed: any.header.constructed,
                tag: T::const_tag(),
                length: any.header.length,
            },
            data: any.data,
        };
        T::check_constraints(&inner_any)
    }
}

} // verus!
