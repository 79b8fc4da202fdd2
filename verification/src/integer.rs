//! A concrete wire type of the codec: an unsigned 64-bit integer, encoded
//! as a primitive node under the universal integer tag with minimal-form,
//! non-negative two's-complement content.

use vstd::prelude::*;
use vstd::slice::slice_index_get;
use crate::types::{Any, AnyValue, Class, Error, SerializeResult, Tag};
use crate::encode::{
    lemma_be_bytes_len,
    lemma_be_bytes_minimal,
    lemma_be_value_leading_zero,
    lemma_pow256_8,
    push_be_bytes,
    spec_be_bytes,
    spec_be_value,
    spec_header_bytes,
    spec_pow256,
    write_header_bytes,
};
use crate::decode::lemma_pow256_mono;
use crate::traits::{CheckDerConstraints, DynTagged, Tagged, ToDer, ToStatic, TryFromAny};

verus! {

/// An unsigned integer value.
#[derive(Clone, Copy, Debug, PartialEq, Eq, Structural)]
pub struct Integer {
    pub value: u64,
}

impl Integer {
    pub fn new(value: u64) -> (r: Integer)
        ensures
            r.value == value,
    {
        Integer { value }
    }
}

impl View for Integer {
    type V = Integer;

    open spec fn view(&self) -> Integer {
        *self
    }
}

impl DynTagged for Integer {
    open spec fn spec_dyn_tag(&self) -> Tag {
        Tag(2)
    }

    fn tag(&self) -> (t: Tag) {
        Tag(2)
    }
}

impl Tagged for Integer {
    open spec fn spec_tag() -> Tag {
        Tag(2)
    }

    fn const_tag() -> (t: Tag) {
        Tag(2)
    }

    proof fn lemma_tag_fixed(&self) {
    }
}

/// Content bytes of an integer: the minimal big-endian base-256 digits of
/// the value, preceded by a zero octet when the first digit would read as
/// a sign bit; a single zero octet for zero.
pub open spec fn spec_integer_content(n: u64) -> Seq<u8> {
    if n == 0 {
        seq![0u8]
    } else if spec_be_bytes(n as nat)[0] >= 128 {
        seq![0u8] + spec_be_bytes(n as nat)
    } else {
        spec_be_bytes(n as nat)
    }
}

/// The integer content takes one to nine octets.
pub proof fn lemma_integer_content_len(n: u64)
    ensures
        1 <= spec_integer_content(n).len() <= 9,
{
    if n != 0 {
        lemma_pow256_8();
        lemma_be_bytes_len(n as nat, 8);
        lemma_be_bytes_minimal(n as nat);
    }
}

/// What converting a decoded node into an integer yields: the node must
/// carry the integer tag, be primitive, and hold non-empty, minimal-form,
/// non-negative content that fits 64 bits.
pub open spec fn spec_integer_from_any(a: AnyValue) -> Result<Integer, Error> {
    let d = a.data;
    if a.header.tag != (Tag(2)) {
        Err(Error::UnexpectedTag)
    } else if a.header.constructed {
        Err(Error::ConstructedUnexpected)
    } else if d.len() == 0 {
        Err(Error::InvalidLength)
    } else if d.len() >= 2 && d[0] == 0 && d[1] < 128 {
        Err(Error::InvalidValue)
    } else if d.len() >= 2 && d[0] == 255 && d[1] >= 128 {
        Err(Error::InvalidValue)
    } else if d[0] >= 128 {
        Err(Error::IntegerNegative)
    } else if d.len() > 9 || (d.len() == 9 && d[0] != 0) {
        Err(Error::IntegerTooLarge)
    } else {
        Ok(Integer { value: spec_be_value(d) as u64 })
    }
}

impl<'a> TryFromAny<'a> for Integer {
    open spec fn spec_from_any(a: AnyValue) -> Result<Integer, Error> {
        spec_integer_from_any(a)
    }

    #[verifier::loop_isolation(false)]
    fn try_from_any(any: Any<'a>) -> (r: Result<Integer, Error>) {
        let d = any.data;
        let n = d.len();
        if any.header.tag.0 != 2 {
            return Err(Error::UnexpectedTag);
        }
        if any.header.constructed {
            return Err(Error::ConstructedUnexpected);
        }
        if n == 0 {
            return Err(Error::InvalidLength);
        }
        let d0 = *slice_index_get(d, 0);
        if n >= 2 {
            let d1 = *slice_index_get(d, 1);
            if d0 == 0 && d1 < 128 {
                return Err(Error::InvalidValue);
            }
            if d0 == 255 && d1 >= 128 {
                return Err(Error::InvalidValue);
            }
        }
        if d0 >= 128 {
            return Err(Error::IntegerNegative);
        }
        if n > 9 || (n == 9 && d0 != 0) {
            return Err(Error::IntegerTooLarge);
        }
        let start: usize = if n == 9 {
            1
        } else {
            0
        };
        let mut acc: u64 = 0;
        let mut i: usize = start;
        while i < n
            invariant
                start <= i <= n,
                n - start <= 8,
                acc == spec_be_value(d@.subrange(start as int, i as int)),
                acc < spec_pow256((i - start) as nat),
            decreases n - i,
        {
            let b = *slice_index_get(d, i);
            assert(spec_pow256((i + 1 - start) as nat) == 256 * spec_pow256((i - start) as nat));
            assert(acc * 256 + b < spec_pow256((i + 1 - start) as nat)) by (nonlinear_arith)
                requires
                    acc < spec_pow256((i - start) as nat),
                    b < 256,
                    spec_pow256((i + 1 - start) as nat) == 256 * spec_pow256((i - start) as nat),
            ;
            proof {
                lemma_pow256_mono((i + 1 - start) as nat, 8);
                lemma_pow256_8();
            }
            acc = acc * 256 + (b as u64);
            i = i + 1;
            assert(d@.subrange(start as int, i as int).drop_last() =~= d@.subrange(
                start as int,
                i - 1,
            ));
            assert(d@.subrange(start as int, i as int).last() == d@[i - 1]);
        }
        proof {
            if n == 9 {
                lemma_be_value_leading_zero(d@);
                assert(d@.subrange(1, n as int) =~= d@.skip(1));
            } else {
                assert(d@.subrange(0, n as int) =~= d@);
            }
        }
        Ok(Integer { value: acc })
    }
}

impl CheckDerConstraints for Integer {
    /// The minimal-form rules for integers hold under the permissive rules
    /// already and are enforced by the conversion itself, so the canonical
    /// check adds nothing.
    open spec fn spec_check_constraints(a: AnyValue) -> Result<(), Error> {
        Ok(())
    }

    fn check_constraints(_any: &Any) -> (r: Result<(), Error>) {
        Ok(())
    }
}

/// The content bytes of an integer value, as a fresh vector.
fn integer_content(n: u64) -> (v: Vec<u8>)
    ensures
        v@ == spec_integer_content(n),
{
    let mut v: Vec<u8> = Vec::new();
    if n == 0 {
        v.push(0);
        assert(v@ =~= spec_integer_content(0));
        return v;
    }
    let mut digits: Vec<u8> = Vec::new();
    push_be_bytes(&mut digits, n);
    proof {
        lemma_be_bytes_minimal(n as nat);
    }
    if digits[0] >= 128 {
        v.push(0);
    }
    v.append(&mut digits);
    assert(v@ =~= spec_integer_content(n));
    v
}

impl ToDer for Integer {
    /// Every integer value is encodable.
    open spec fn spec_der_ok(&self) -> bool {
        true
    }

    /// Never reported: encoding an integer cannot fail.
    open spec fn spec_der_err(&self) -> Error {
        Error::InvalidLength
    }

    open spec fn spec_der_header(&self) -> Seq<u8> {
        spec_header_bytes(Class::Universal, false, 2, self.spec_der_content().len() as usize)
    }

    open spec fn spec_der_content(&self) -> Seq<u8> {
        spec_integer_content(self.value)
    }

    fn to_der_len(&self) -> (r: Result<usize, Error>) {
        let c = integer_content(self.value);
        proof {
            lemma_integer_content_len(self.value);
        }
        Ok(2 + c.len())
    }

    fn write_der_header(&self, writer: &mut Vec<u8>) -> (r: SerializeResult<usize>) {
        let c = integer_content(self.value);
        proof {
            lemma_integer_content_len(self.value);
        }
        write_header_bytes(writer, Class::Universal, false, 2, c.len())
    }

    fn write_der_content(&self, writer: &mut Vec<u8>) -> (r: SerializeResult<usize>) {
        let mut c = integer_content(self.value);
        let n = c.len();
        writer.append(&mut c);
        Ok(n)
    }

    /// An integer holds nothing beyond its value, so the raw bytes are the
    /// canonical ones.
    open spec fn spec_raw_bytes(&self) -> Seq<u8> {
        self.spec_der_header() + self.spec_der_content()
    }

    /// The raw path succeeds for every integer.
    open spec fn spec_raw_ok(&self) -> bool {
        true
    }

    /// Never reported: the raw path cannot fail.
    open spec fn spec_raw_err(&self) -> Error {
        Error::InvalidLength
    }

    fn write_der_raw(&self, writer: &mut Vec<u8>) -> (r: SerializeResult<usize>) {
        self.write_der(writer)
    }
}

impl ToStatic for Integer {
    type Owned = Integer;

    fn to_static(&self) -> (r: Integer)
        ensures
            r == *self,
    {
        *self
    }
}

} // verus!
