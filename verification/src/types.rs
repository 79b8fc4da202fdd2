//! Data model of the codec: tag, class, length, header, generic decoded
//! node, and the error and result types shared by parsing and serializing.

use vstd::prelude::*;

verus! {

/// Namespace of a wire node's tag.
#[derive(Clone, Copy, Debug, PartialEq, Eq, Structural)]
pub enum Class {
    Universal,
    Application,
    ContextSpecific,
    Private,
}

/// Numeric identifier of a wire node's type.
#[derive(Clone, Copy, Debug, PartialEq, Eq, Structural)]
pub struct Tag(pub u32);

/// Length of a node's content: an explicit byte count, or signalled by an
/// end-of-contents marker.
#[derive(Clone, Copy, Debug, PartialEq, Eq, Structural)]
pub enum Length {
    Definite(usize),
    Indefinite,
}

impl Length {
    /// True when the length is given as an explicit byte count.
    pub open spec fn spec_is_definite(&self) -> bool {
        matches!(self, Length::Definite(_))
    }

    #[verifier::when_used_as_spec(spec_is_definite)]
    pub fn is_definite(&self) -> (b: bool)
        ensures
            b == self.spec_is_definite(),
    {
        matches!(self, Length::Definite(_))
    }
}

/// Header of a decoded node: class, constructed/primitive flag, tag and
/// content length.
#[derive(Clone, Copy, Debug, PartialEq, Eq, Structural)]
pub struct Header {
    pub class: Class,
    pub constructed: bool,
    pub tag: Tag,
    pub length: Length,
}

/// A generic decoded node: header plus the raw, unparsed content bytes,
/// borrowed from the input buffer.
#[derive(Clone, Copy, Debug)]
pub struct Any<'a> {
    pub header: Header,
    pub data: &'a [u8],
}

/// Mathematical value of a decoded node: its header and the content bytes
/// as a sequence.
pub struct AnyValue {
    pub header: Header,
    pub data: Seq<u8>,
}

impl<'a> View for Any<'a> {
    type V = AnyValue;

    open spec fn view(&self) -> AnyValue {
        AnyValue { header: self.header, data: self.data@ }
    }
}

/// An owned counterpart of a decoded node, with no dependency on the input
/// buffer it was parsed from.
#[derive(Debug)]
pub struct AnyOwned {
    pub header: Header,
    pub data: Vec<u8>,
}

impl View for AnyOwned {
    type V = AnyValue;

    open spec fn view(&self) -> AnyValue {
        AnyValue { header: self.header, data: self.data@ }
    }
}

/// Semantic errors of decoding, validation and conversion.
#[derive(Clone, Copy, Debug, PartialEq, Eq, Structural)]
pub enum Error {
    /// The canonical rules require a definite-form length.
    IndefiniteLengthUnexpected,
    /// The identifier octet uses the unsupported multi-octet tag form.
    InvalidTag,
    /// A node's tag is not the one the conversion expects.
    UnexpectedTag,
    /// A length field is malformed, or a computed length cannot be
    /// represented.
    InvalidLength,
    /// A constructed node was found where a primitive one is required.
    ConstructedUnexpected,
    /// An integer's content is not in the minimal form the encoding rules
    /// require.
    InvalidValue,
    /// An integer value is negative and cannot be represented.
    IntegerNegative,
    /// An integer value does not fit the supported word size.
    IntegerTooLarge,
    /// A node violates a canonical-form constraint.
    DerConstraintFailed,
}

/// Outcome of a failed parse attempt: either more input is needed, or the
/// attempt is terminally rejected.
#[derive(Clone, Copy, Debug, PartialEq, Eq, Structural)]
pub enum ParseErr {
    /// The input ends before the node does; a retry with more bytes may
    /// succeed.
    Incomplete,
    /// The input is structurally or semantically invalid; more input cannot
    /// change the outcome.
    Failure(Error),
}

/// Result of a parse attempt: the remaining input and the value, or the
/// reason the attempt stopped.
pub type ParseResult<'a, T> = Result<(&'a [u8], T), ParseErr>;

/// Errors of serialization.
#[derive(Clone, Copy, Debug, PartialEq, Eq, Structural)]
pub enum SerializeError {
    /// A semantic error found while measuring or encoding the value.
    Asn1(Error),
    /// Reserved for byte sinks that can fail; the sinks of this crate never
    /// report it.
    Io,
}

/// Result of a serialization step.
pub type SerializeResult<T> = Result<T, SerializeError>;

} // verus!
