//! A concrete wire type with a real canonical-form constraint: a boolean.
//! The conversion is permissive — any nonzero content octet reads as true —
//! while the canonical check admits only the two canonical octets, so the
//! canonical entry point accepts strictly fewer inputs than the permissive
//! one.

use vstd::prelude::*;
use vstd::slice::slice_index_get;
use crate::types::{Any, AnyValue, Class, Error, SerializeResult, Tag};
use crate::encode::{spec_header_bytes, write_header_bytes};
use crate::traits::{CheckDerConstraints, DynTagged, Tagged, ToDer, ToStatic, TryFromAny};

verus! {

/// A boolean value, holding the raw content octet it was read from or will
/// be written as.
#[derive(Clone, Copy, Debug, PartialEq, Eq, Structural)]
pub struct Boolean {
    pub value: u8,
}

impl Boolean {
    /// The logical value: any nonzero octet reads as true.
    pub open spec fn spec_bool(&self) -> bool {
        self.value != 0
    }

    #[verifier::when_used_as_spec(spec_bool)]
    pub fn bool_value(&self) -> (b: bool)
        ensures
            b == self.spec_bool(),
    {
        self.value != 0
    }

    /// A boolean carrying the canonical octet for `b`.
    pub fn new(b: bool) -> (r: Boolean)
        ensures
            r.value == (if b {
                255u8
            } else {
                0u8
            }),
    {
        Boolean {
            value: if b {
                255
            } else {
                0
            },
        }
    }
}

impl View for Boolean {
    type V = Boolean;

    open spec fn view(&self) -> Boolean {
        *self
    }
}

impl DynTagged for Boolean {
    open spec fn spec_dyn_tag(&self) -> Tag {
        Tag(1)
    }

    fn tag(&self) -> (t: Tag) {
        Tag(1)
    }
}

impl Tagged for Boolean {
    open spec fn spec_tag() -> Tag {
        Tag(1)
    }

    fn const_tag() -> (t: Tag) {
        Tag(1)
    }

    proof fn lemma_tag_fixed(&self) {
    }
}

/// What converting a decoded node into a boolean yields: the node must
/// carry the boolean tag, be primitive, and hold exactly one content
/// octet; any nonzero octet reads as true.
pub open spec fn spec_boolean_from_any(a: AnyValue) -> Result<Boolean, Error> {
    if a.header.tag != (Tag(1)) {
        Err(Error::UnexpectedTag)
    } else if a.header.constructed {
        Err(Error::ConstructedUnexpected)
    } else if a.data.len() != 1 {
        Err(Error::InvalidLength)
    } else {
        Ok(Boolean { value: a.data[0] })
    }
}

impl<'a> TryFromAny<'a> for Boolean {
    open spec fn spec_from_any(a: AnyValue) -> Result<Boolean, Error> {
        spec_boolean_from_any(a)
    }

    fn try_from_any(any: Any<'a>) -> (r: Result<Boolean, Error>) {
        if any.header.tag.0 != 1 {
            return Err(Error::UnexpectedTag);
        }
        if any.header.constructed {
            return Err(Error::ConstructedUnexpected);
        }
        if any.data.len() != 1 {
            return Err(Error::InvalidLength);
        }
        Ok(Boolean { value: *slice_index_get(any.data, 0) })
    }
}

/// Canonical-form rule for booleans: the single content octet must be one
/// of the two canonical values, 0 for false and 255 for true.
pub open spec fn spec_boolean_check(a: AnyValue) -> Result<(), Error> {
    if a.data.len() == 1 && (a.data[0] == 0 || a.data[0] == 255) {
        Ok(())
    } else {
        Err(Error::DerConstraintFailed)
    }
}

impl CheckDerConstraints for Boolean {
    open spec fn spec_check_constraints(a: AnyValue) -> Result<(), Error> {
        spec_boolean_check(a)
    }

    fn check_constraints(any: &Any) -> (r: Result<(), Error>) {
        if any.data.len() == 1 {
            let b = *slice_index_get(any.data, 0);
            if b == 0 || b == 255 {
                return Ok(());
            }
        }
        Err(Error::DerConstraintFailed)
    }
}

impl ToDer for Boolean {
    /// Every boolean is encodable.
    open spec fn spec_der_ok(&self) -> bool {
        true
    }

    /// Never reported: encoding a boolean cannot fail.
    open spec fn spec_der_err(&self) -> Error {
        Error::InvalidLength
    }

    open spec fn spec_der_header(&self) -> Seq<u8> {
        spec_header_bytes(Class::Universal, false, 1, 1)
    }

    /// The canonical content octet for the logical value.
    open spec fn spec_der_content(&self) -> Seq<u8> {
        seq![
            if self.value != 0 {
                255u8
            } else {
                0u8
            },
        ]
    }

    fn to_der_len(&self) -> (r: Result<usize, Error>) {
        Ok(3)
    }

    fn write_der_header(&self, writer: &mut Vec<u8>) -> (r: SerializeResult<usize>) {
        write_header_bytes(writer, Class::Universal, false, 1, 1)
    }

    fn write_der_content(&self, writer: &mut Vec<u8>) -> (r: SerializeResult<usize>) {
        writer.push(
            if self.value != 0 {
                255
            } else {
                0
            },
        );
        assert(writer@ =~= old(writer)@ + self.spec_der_content());
        Ok(1)
    }

    /// The raw path re-emits the stored content octet verbatim, where the
    /// canonical path writes the canonical octet for the logical value; the
    /// two differ for a value read from a permissive-only encoding.
    open spec fn spec_raw_bytes(&self) -> Seq<u8> {
        self.spec_der_header() + seq![self.value]
    }

    /// The raw path succeeds for every boolean.
    open spec fn spec_raw_ok(&self) -> bool {
        true
    }

    /// Never reported: the raw path cannot fail.
    open spec fn spec_raw_err(&self) -> Error {
        Error::InvalidLength
    }

    fn write_der_raw(&self, writer: &mut Vec<u8>) -> (r: SerializeResult<usize>) {
        let n = match write_header_bytes(writer, Class::Universal, false, 1, 1) {
            Ok(n) => n,
            Err(e) => {
                return Err(e);
            },
        };
        writer.push(self.value);
        assert(writer@ =~= old(writer)@ + self.spec_raw_bytes());
        Ok(n + 1)
    }
}

impl ToStatic for Boolean {
    type Owned = Boolean;

    fn to_static(&self) -> (r: Boolean)
        ensures
            r == *self,
    {
        *self
    }
}

} // verus!
