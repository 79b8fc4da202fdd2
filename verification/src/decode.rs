//! The low-level node decoder: turns the prefix of a byte buffer into a
//! generic decoded node (header plus raw content), for both the permissive
//! and the canonical entry points.

use vstd::prelude::*;
use vstd::slice::{slice_index_get, slice_subrange, slice_to_vec};
use crate::types::{
    Any,
    AnyOwned,
    AnyValue,
    Class,
    Error,
    Header,
    Length,
    ParseErr,
    ParseResult,
    SerializeError,
    SerializeResult,
    Tag,
};
use crate::traits::{CheckDerConstraints, DynTagged, ToDer, ToStatic, TryFromAny};
use crate::encode::{
    class_value,
    header_length,
    lemma_be_value_bound,
    lemma_header_len_bounds,
    lemma_pow256_8,
    spec_be_value,
    spec_header_bytes,
    spec_id_octet,
    spec_pow256,
    write_header_bytes,
};

verus! {

/// The class encoded in an identifier octet's two top bits.
pub open spec fn spec_class_of(b: u8) -> Class {
    if b / 64 == 0 {
        Class::Universal
    } else if b / 64 == 1 {
        Class::Application
    } else if b / 64 == 2 {
        Class::ContextSpecific
    } else {
        Class::Private
    }
}

/// The constructed flag of an identifier octet.
pub open spec fn spec_constructed_of(b: u8) -> bool {
    (b / 32) % 2 == 1
}

/// The tag number in an identifier octet's low five bits.
pub open spec fn spec_tagnum_of(b: u8) -> u8 {
    b % 32
}

/// The header a node gets from its identifier octet and decoded length.
pub open spec fn spec_header_of(b0: u8, length: Length) -> Header {
    Header {
        class: spec_class_of(b0),
        constructed: spec_constructed_of(b0),
        tag: Tag(spec_tagnum_of(b0) as u32),
        length,
    }
}

/// Index of the first end-of-contents marker (two zero octets) in a
/// sequence, if any.
pub open spec fn spec_eoc_index(s: Seq<u8>) -> Option<int>
    decreases s.len(),
{
    if s.len() < 2 {
        None
    } else if s[0] == 0 && s[1] == 0 {
        Some(0int)
    } else {
        match spec_eoc_index(s.skip(1)) {
            None => None,
            Some(i) => Some(i + 1),
        }
    }
}

/// The end-of-contents index is the first position carrying the marker;
/// when there is none, no position carries it.
pub proof fn lemma_eoc_index_spec(s: Seq<u8>)
    ensures
        match spec_eoc_index(s) {
            Some(i) => 0 <= i && i + 1 < s.len() && s[i] == 0 && s[i + 1] == 0 && forall|j: int|
                0 <= j < i ==> !((#[trigger] s[j]) == 0 && s[j + 1] == 0),
            None => forall|j: int|
                0 <= j && j + 1 < s.len() ==> !((#[trigger] s[j]) == 0 && s[j + 1] == 0),
        },
    decreases s.len(),
{
    if s.len() < 2 {
    } else if s[0] == 0 && s[1] == 0 {
    } else {
        let t = s.skip(1);
        lemma_eoc_index_spec(t);
        assert(forall|j: int| 0 <= j < t.len() ==> (#[trigger] t[j]) == s[j + 1]);
        match spec_eoc_index(t) {
            None => {
                assert forall|j: int| 0 <= j && j + 1 < s.len() implies !((#[trigger] s[j]) == 0
                    && s[j + 1] == 0) by {
                    if j > 0 {
                        assert(t[j - 1] == s[j]);
                        assert(t[j] == s[j + 1]);
                    }
                }
            },
            Some(i) => {
                assert(s[i + 1] == t[i]);
                assert(s[i + 2] == t[i + 1]);
                assert forall|j: int| 0 <= j < i + 1 implies !((#[trigger] s[j]) == 0 && s[j + 1]
                    == 0) by {
                    if j > 0 {
                        assert(t[j - 1] == s[j]);
                        assert(t[j] == s[j + 1]);
                    }
                }
            },
        }
    }
}

/// Result of decoding a definite-length node's content region.
pub open spec fn spec_parse_content(bytes: Seq<u8>, b0: u8, off: nat, len: nat) -> Result<
    (Seq<u8>, AnyValue),
    ParseErr,
>
    recommends
        len <= usize::MAX,
{
    if bytes.len() < off + len {
        Err(ParseErr::Incomplete)
    } else {
        Ok(
            (
                bytes.skip((off + len) as int),
                AnyValue {
                    header: spec_header_of(b0, Length::Definite(len as usize)),
                    data: bytes.subrange(off as int, (off + len) as int),
                },
            ),
        )
    }
}

/// What decoding one node from the prefix of `bytes` yields: the remaining
/// bytes and the node, or the reason the attempt stops. More input can only
/// help when the result is `Incomplete`.
pub open spec fn spec_parse_any(bytes: Seq<u8>) -> Result<(Seq<u8>, AnyValue), ParseErr> {
    if bytes.len() < 2 {
        Err(ParseErr::Incomplete)
    } else {
        let b0 = bytes[0];
        let b1 = bytes[1];
        if spec_tagnum_of(b0) == 31 {
            Err(ParseErr::Failure(Error::InvalidTag))
        } else if b1 < 128 {
            spec_parse_content(bytes, b0, 2, b1 as nat)
        } else if b1 == 128 {
            if !spec_constructed_of(b0) {
                Err(ParseErr::Failure(Error::InvalidLength))
            } else {
                match spec_eoc_index(bytes.skip(2)) {
                    None => Err(ParseErr::Incomplete),
                    Some(i) => Ok(
                        (
                            bytes.skip(i + 4),
                            AnyValue {
                                header: spec_header_of(b0, Length::Indefinite),
                                data: bytes.subrange(2, i + 2),
                            },
                        ),
                    ),
                }
            }
        } else {
            let k = (b1 - 128) as nat;
            if k > 8 {
                Err(ParseErr::Failure(Error::InvalidLength))
            } else if bytes.len() < 2 + k {
                Err(ParseErr::Incomplete)
            } else {
                let lv = spec_be_value(bytes.subrange(2, 2 + k as int));
                if lv > usize::MAX as nat {
                    Err(ParseErr::Failure(Error::InvalidLength))
                } else {
                    spec_parse_content(bytes, b0, 2 + k, lv)
                }
            }
        }
    }
}

/// The canonical decoding of one node: as `spec_parse_any`, but a node
/// whose length is in indefinite form is rejected.
pub open spec fn spec_parse_any_der(bytes: Seq<u8>) -> Result<(Seq<u8>, AnyValue), ParseErr> {
    match spec_parse_any(bytes) {
        Ok((rem, a)) => if a.header.length.spec_is_definite() {
            Ok((rem, a))
        } else {
            Err(ParseErr::Failure(Error::IndefiniteLengthUnexpected))
        },
        Err(e) => Err(e),
    }
}

/// Decodes one generic node from the prefix of `bytes`.
#[verifier::loop_isolation(false)]
fn parse_any<'a>(bytes: &'a [u8]) -> (r: ParseResult<'a, Any<'a>>)
    ensures
        match r {
            Ok((rem, any)) => spec_parse_any(bytes@) == Ok::<(Seq<u8>, AnyValue), ParseErr>(
                (rem@, any@),
            ),
            Err(e) => spec_parse_any(bytes@) == Err::<(Seq<u8>, AnyValue), ParseErr>(e),
        },
{
    let n = bytes.len();
    if n < 2 {
        return Err(ParseErr::Incomplete);
    }
    let b0 = *slice_index_get(bytes, 0);
    let b1 = *slice_index_get(bytes, 1);
    if b0 % 32 == 31 {
        return Err(ParseErr::Failure(Error::InvalidTag));
    }
    let class = if b0 / 64 == 0 {
        Class::Universal
    } else if b0 / 64 == 1 {
        Class::Application
    } else if b0 / 64 == 2 {
        Class::ContextSpecific
    } else {
        Class::Private
    };
    let constructed = (b0 / 32) % 2 == 1;
    let tag = Tag((b0 % 32) as u32);
    if b1 < 128 {
        let len = b1 as usize;
        if n - 2 < len {
            return Err(ParseErr::Incomplete);
        }
        let data = slice_subrange(bytes, 2, 2 + len);
        let rem = slice_subrange(bytes, 2 + len, n);
        assert(rem@ =~= bytes@.skip(2 + len as int));
        return Ok(
            (rem, Any { header: Header { class, constructed, tag, length: Length::Definite(len) }, data }),
        );
    } else if b1 == 128 {
        if !constructed {
            return Err(ParseErr::Failure(Error::InvalidLength));
        }
        let ghost s2 = bytes@.skip(2);
        let mut i: usize = 2;
        loop
            invariant
                2 <= i <= n,
                n == bytes@.len(),
                n >= 2,
                s2 == bytes@.skip(2),
                forall|j: int| 0 <= j < i - 2 ==> !((#[trigger] s2[j]) == 0 && s2[j + 1] == 0),
            decreases n - i,
        {
            proof {
                assert(forall|j: int| 0 <= j && j + 1 < s2.len() ==> (#[trigger] s2[j]) == bytes@[j
                    + 2]);
            }
            if i >= n - 1 {
                proof {
                    lemma_eoc_index_spec(s2);
                }
                return Err(ParseErr::Incomplete);
            }
            let bi = *slice_index_get(bytes, i);
            let bj = *slice_index_get(bytes, i + 1);
            if bi == 0 && bj == 0 {
                proof {
                    lemma_eoc_index_spec(s2);
                    assert(s2[i - 2] == 0 && s2[i - 1] == 0);
                    assert(spec_eoc_index(s2) == Some(i - 2));
                }
                let data = slice_subrange(bytes, 2, i);
                let rem = slice_subrange(bytes, i + 2, n);
                assert(rem@ =~= bytes@.skip((i - 2) + 4));
                assert(data@ =~= bytes@.subrange(2, (i - 2) + 2));
                return Ok(
                    (
                        rem,
                        Any {
                            header: Header { class, constructed, tag, length: Length::Indefinite },
                            data,
                        },
                    ),
                );
            }
            i = i + 1;
        }
    } else {
        let k = (b1 - 128) as usize;
        if k > 8 {
            return Err(ParseErr::Failure(Error::InvalidLength));
        }
        if n - 2 < k {
            return Err(ParseErr::Incomplete);
        }
        let ghost lb = bytes@.subrange(2, 2 + k as int);
        let mut acc: u64 = 0;
        let mut idx: usize = 0;
        while idx < k
            invariant
                0 <= idx <= k <= 8,
                n == bytes@.len(),
                n >= 2 + k,
                lb == bytes@.subrange(2, 2 + k as int),
                acc == spec_be_value(bytes@.subrange(2, 2 + idx as int)),
            decreases k - idx,
        {
            proof {
                lemma_be_value_bound(bytes@.subrange(2, 2 + idx as int));
                lemma_pow256_8();
                lemma_pow256_mono(idx as nat, 7);
            }
            let b = *slice_index_get(bytes, 2 + idx);
            assert(acc * 256 + b < spec_pow256((idx + 1) as nat)) by (nonlinear_arith)
                requires
                    acc < spec_pow256(idx as nat),
                    b < 256,
                    spec_pow256((idx + 1) as nat) == 256 * spec_pow256(idx as nat),
            ;
            proof {
                lemma_pow256_mono((idx + 1) as nat, 8);
            }
            acc = acc * 256 + (b as u64);
            idx = idx + 1;
            assert(bytes@.subrange(2, 2 + idx as int).drop_last() =~= bytes@.subrange(
                2,
                2 + (idx - 1) as int,
            ));
            assert(bytes@.subrange(2, 2 + idx as int).last() == bytes@[2 + (idx - 1) as int]);
        }
        assert(acc == spec_be_value(lb));
        if acc > (usize::MAX as u64) {
            return Err(ParseErr::Failure(Error::InvalidLength));
        }
        let len = acc as usize;
        if n - (2 + k) < len {
            return Err(ParseErr::Incomplete);
        }
        let data = slice_subrange(bytes, 2 + k, 2 + k + len);
        let rem = slice_subrange(bytes, 2 + k + len, n);
        assert(rem@ =~= bytes@.skip(((2 + k) + len) as int));
        return Ok(
            (rem, Any { header: Header { class, constructed, tag, length: Length::Definite(len) }, data }),
        );
    }
}

/// 256^a divides into 256^b whenever a is at most b; in particular the
/// powers grow with the exponent.
pub proof fn lemma_pow256_mono(a: nat, b: nat)
    requires
        a <= b,
    ensures
        spec_pow256(a) <= spec_pow256(b),
    decreases b,
{
    if a < b {
        lemma_pow256_mono(a, (b - 1) as nat);
        assert(spec_pow256(b) == 256 * spec_pow256((b - 1) as nat));
        assert(spec_pow256((b - 1) as nat) <= 256 * spec_pow256((b - 1) as nat)) by (nonlinear_arith)
            requires
                spec_pow256((b - 1) as nat) >= 0,
        ;
    }
}

impl<'a> Any<'a> {
    /// Decodes one node from the prefix of `bytes` under the permissive
    /// (BER) rules.
    pub fn from_ber(bytes: &'a [u8]) -> (r: ParseResult<'a, Any<'a>>)
        ensures
            match r {
                Ok((rem, any)) => spec_parse_any(bytes@) == Ok::<(Seq<u8>, AnyValue), ParseErr>(
                    (rem@, any@),
                ),
                Err(e) => spec_parse_any(bytes@) == Err::<(Seq<u8>, AnyValue), ParseErr>(e),
            },
    {
        parse_any(bytes)
    }

    /// Decodes one node under the canonical (DER) rules: as `from_ber`, but
    /// a node whose length is in indefinite form is rejected.
    pub fn from_der(bytes: &'a [u8]) -> (r: ParseResult<'a, Any<'a>>)
        ensures
            match r {
                Ok((rem, any)) => spec_parse_any_der(bytes@) == Ok::<(Seq<u8>, AnyValue), ParseErr>(
                    (rem@, any@),
                ),
                Err(e) => spec_parse_any_der(bytes@) == Err::<(Seq<u8>, AnyValue), ParseErr>(e),
            },
    {
        match parse_any(bytes) {
            Ok((rem, any)) => {
                if any.header.length.is_definite() {
                    Ok((rem, any))
                } else {
                    Err(ParseErr::Failure(Error::IndefiniteLengthUnexpected))
                }
            },
            Err(e) => Err(e),
        }
    }
}

impl<'a> TryFromAny<'a> for Any<'a> {
    /// A generic node converts to itself.
    open spec fn spec_from_any(a: AnyValue) -> Result<AnyValue, Error> {
        Ok(a)
    }

    fn try_from_any(any: Any<'a>) -> (r: Result<Any<'a>, Error>) {
        Ok(any)
    }
}

impl<'a> CheckDerConstraints for Any<'a> {
    /// A generic node carries no type-specific canonical rules of its own.
    open spec fn spec_check_constraints(a: AnyValue) -> Result<(), Error> {
        Ok(())
    }

    fn check_constraints(_any: &Any) -> (r: Result<(), Error>) {
        Ok(())
    }
}

impl<'a> DynTagged for Any<'a> {
    open spec fn spec_dyn_tag(&self) -> Tag {
        self.header.tag
    }

    fn tag(&self) -> (t: Tag) {
        self.header.tag
    }
}

impl<'a> ToStatic for Any<'a> {
    type Owned = AnyOwned;

    /// Copies the borrowed content out, leaving no dependency on the
    /// buffer the node was decoded from.
    fn to_static(&self) -> (r: AnyOwned)
        ensures
            r@ == (*self)@,
    {
        AnyOwned { header: self.header, data: slice_to_vec(self.data) }
    }
}

/// The bytes the raw write path emits for a node: for a definite length,
/// the canonical header followed by the content; for an indefinite length,
/// the identifier octet, the indefinite-length octet, the content, and the
/// end-of-contents marker, exactly as the node was received.
pub open spec fn spec_any_raw_bytes(a: AnyValue) -> Seq<u8> {
    match a.header.length {
        Length::Definite(l) => spec_header_bytes(
            a.header.class,
            a.header.constructed,
            a.header.tag.0,
            l,
        ) + a.data,
        Length::Indefinite => seq![
            spec_id_octet(a.header.class, a.header.constructed, a.header.tag.0),
            128u8,
        ] + a.data + seq![0u8, 0u8],
    }
}

impl<'a> ToDer for Any<'a> {
    /// Canonically encodable when the tag is in the single-octet range,
    /// the header carries the definite length of the content, and the
    /// whole encoding is representable.
    open spec fn spec_der_ok(&self) -> bool {
        &&& self.header.tag.0 <= 30
        &&& self.header.length == Length::Definite(self.data@.len() as usize)
        &&& self.spec_der_header().len() + self.data@.len() <= usize::MAX
    }

    /// The complaint follows the checks' order: an indefinite or wrong
    /// stored length first, then the tag range, then the total length.
    open spec fn spec_der_err(&self) -> Error {
        if self.header.length != Length::Definite(self.data@.len() as usize) {
            if !self.header.length.spec_is_definite() {
                Error::IndefiniteLengthUnexpected
            } else {
                Error::InvalidLength
            }
        } else if self.header.tag.0 > 30 {
            Error::InvalidTag
        } else {
            Error::InvalidLength
        }
    }

    open spec fn spec_der_header(&self) -> Seq<u8> {
        spec_header_bytes(
            self.header.class,
            self.header.constructed,
            self.header.tag.0,
            self.data@.len() as usize,
        )
    }

    open spec fn spec_der_content(&self) -> Seq<u8> {
        self.data@
    }

    fn to_der_len(&self) -> (r: Result<usize, Error>) {
        let dlen = self.data.len();
        match self.header.length {
            Length::Definite(l) => {
                if l != dlen {
                    return Err(Error::InvalidLength);
                }
            },
            Length::Indefinite => {
                return Err(Error::IndefiniteLengthUnexpected);
            },
        }
        let hl = match header_length(self.header.tag.0, dlen) {
            Ok(n) => n,
            Err(e) => {
                return Err(e);
            },
        };
        proof {
            lemma_header_len_bounds(self.header.class, self.header.constructed, self.header.tag.0, dlen);
        }
        if usize::MAX - hl < dlen {
            return Err(Error::InvalidLength);
        }
        Ok(hl + dlen)
    }

    fn write_der_header(&self, writer: &mut Vec<u8>) -> (r: SerializeResult<usize>) {
        match self.to_der_len() {
            Ok(_) => {},
            Err(e) => {
                return Err(SerializeError::Asn1(e));
            },
        }
        write_header_bytes(
            writer,
            self.header.class,
            self.header.constructed,
            self.header.tag.0,
            self.data.len(),
        )
    }

    fn write_der_content(&self, writer: &mut Vec<u8>) -> (r: SerializeResult<usize>) {
        match self.to_der_len() {
            Ok(_) => {},
            Err(e) => {
                return Err(SerializeError::Asn1(e));
            },
        }
        let mut v = slice_to_vec(self.data);
        let n = v.len();
        writer.append(&mut v);
        Ok(n)
    }

    /// The node re-emitted as received, the indefinite length form
    /// included — the escape hatch for re-serializing input that only the
    /// permissive rules accept. These bytes differ from the canonical
    /// path's whenever the received form was not canonical.
    open spec fn spec_raw_bytes(&self) -> Seq<u8> {
        spec_any_raw_bytes((*self)@)
    }

    /// The raw path re-emits an indefinite-length node the canonical path
    /// refuses; it needs only a single-octet tag. A definite-length node is
    /// re-emitted exactly where it encodes canonically.
    open spec fn spec_raw_ok(&self) -> bool {
        if self.header.length.spec_is_definite() {
            self.spec_der_ok()
        } else {
            self.header.tag.0 <= 30
        }
    }

    open spec fn spec_raw_err(&self) -> Error {
        if self.header.length.spec_is_definite() {
            self.spec_der_err()
        } else {
            Error::InvalidTag
        }
    }

    fn write_der_raw(&self, writer: &mut Vec<u8>) -> (r: SerializeResult<usize>) {
        match self.header.length {
            Length::Definite(_) => {
                let r = self.write_der(writer);
                match r {
                    Ok(n) => Ok(n),
                    Err(e) => Err(e),
                }
            },
            Length::Indefinite => {
                if self.header.tag.0 > 30 {
                    return Err(SerializeError::Asn1(Error::InvalidTag));
                }
                let start = writer.len();
                let id: u8 = class_value(self.header.class) * 64 + (if self.header.constructed {
                    32
                } else {
                    0
                }) + (self.header.tag.0 as u8);
                writer.push(id);
                writer.push(128);
                let mut v = slice_to_vec(self.data);
                writer.append(&mut v);
                writer.push(0);
                writer.push(0);
                assert(writer@ =~= old(writer)@ + spec_any_raw_bytes((*self)@));
                Ok(writer.len() - start)
            },
        }
    }
}

} // verus!
