//! Byte-level encoding of node headers: identifier octet, length octets,
//! and the minimal big-endian base-256 representation both use.

use vstd::prelude::*;
use crate::types::{Class, Error, SerializeError};

verus! {

/// Numeric value of a class, as carried in the two top bits of the
/// identifier octet.
pub open spec fn spec_class_value(c: Class) -> u8 {
    match c {
        Class::Universal => 0,
        Class::Application => 1,
        Class::ContextSpecific => 2,
        Class::Private => 3,
    }
}

pub fn class_value(c: Class) -> (b: u8)
    ensures
        b == spec_class_value(c),
{
    match c {
        Class::Universal => 0,
        Class::Application => 1,
        Class::ContextSpecific => 2,
        Class::Private => 3,
    }
}

/// The identifier octet of a header: class in the top two bits, the
/// constructed flag next, and the tag number in the low five bits.
pub open spec fn spec_id_octet(class: Class, constructed: bool, tag: u32) -> u8
    recommends
        tag <= 30,
{
    (spec_class_value(class) as int * 64 + (if constructed {
        32int
    } else {
        0int
    }) + tag as int) as u8
}

/// Minimal big-endian base-256 digits of a number; empty for zero.
pub open spec fn spec_be_bytes(n: nat) -> Seq<u8>
    decreases n,
{
    if n == 0 {
        Seq::empty()
    } else {
        spec_be_bytes(n / 256) + seq![(n % 256) as u8]
    }
}

/// The number a big-endian base-256 digit sequence stands for.
pub open spec fn spec_be_value(s: Seq<u8>) -> nat
    decreases s.len(),
{
    if s.len() == 0 {
        0
    } else {
        (spec_be_value(s.drop_last()) * 256 + s.last()) as nat
    }
}

/// 256 to the power k.
pub open spec fn spec_pow256(k: nat) -> nat
    decreases k,
{
    if k == 0 {
        1
    } else {
        256 * spec_pow256((k - 1) as nat)
    }
}

/// Reading back the digits of a number gives the number.
pub proof fn lemma_be_bytes_value(n: nat)
    ensures
        spec_be_value(spec_be_bytes(n)) == n,
    decreases n,
{
    if n == 0 {
    } else {
        lemma_be_bytes_value(n / 256);
        let s = spec_be_bytes(n / 256) + seq![(n % 256) as u8];
        assert(s.drop_last() =~= spec_be_bytes(n / 256));
        assert(s.last() == (n % 256) as u8);
        vstd::arithmetic::div_mod::lemma_fundamental_div_mod(n as int, 256);
    }
}

/// The digit sequence of a positive number starts with a nonzero digit.
pub proof fn lemma_be_bytes_minimal(n: nat)
    requires
        n > 0,
    ensures
        spec_be_bytes(n).len() > 0,
        spec_be_bytes(n)[0] != 0,
    decreases n,
{
    if n < 256 {
        assert(n / 256 == 0) by (nonlinear_arith)
            requires
                n < 256,
        ;
        assert(spec_be_bytes(0) =~= Seq::<u8>::empty());
        assert(spec_be_bytes(n) =~= seq![(n % 256) as u8]);
    } else {
        lemma_be_bytes_minimal(n / 256);
        assert(spec_be_bytes(n)[0] == spec_be_bytes(n / 256)[0]);
    }
}

/// A number below 256^k has at most k digits.
pub proof fn lemma_be_bytes_len(n: nat, k: nat)
    requires
        n < spec_pow256(k),
    ensures
        spec_be_bytes(n).len() <= k,
    decreases k,
{
    if n == 0 {
    } else {
        assert(k > 0) by {
            if k == 0 {
                assert(spec_pow256(0) == 1);
            }
        }
        assert(n / 256 < spec_pow256((k - 1) as nat)) by (nonlinear_arith)
            requires
                n < spec_pow256(k),
                spec_pow256(k) == 256 * spec_pow256((k - 1) as nat),
        ;
        lemma_be_bytes_len(n / 256, (k - 1) as nat);
    }
}

/// A digit sequence of length k stands for a number below 256^k.
pub proof fn lemma_be_value_bound(s: Seq<u8>)
    ensures
        spec_be_value(s) < spec_pow256(s.len()),
    decreases s.len(),
{
    if s.len() == 0 {
    } else {
        lemma_be_value_bound(s.drop_last());
        assert(spec_be_value(s.drop_last()) * 256 + s.last() < spec_pow256(s.len()))
            by (nonlinear_arith)
            requires
                spec_be_value(s.drop_last()) < spec_pow256((s.len() - 1) as nat),
                s.last() < 256,
                spec_pow256(s.len()) == 256 * spec_pow256((s.len() - 1) as nat),
        ;
    }
}

/// A leading zero digit does not change the number a digit sequence
/// stands for.
pub proof fn lemma_be_value_leading_zero(s: Seq<u8>)
    requires
        s.len() >= 1,
        s[0] == 0,
    ensures
        spec_be_value(s) == spec_be_value(s.skip(1)),
    decreases s.len(),
{
    if s.len() == 1 {
        assert(s.drop_last() =~= Seq::<u8>::empty());
        assert(s.skip(1) =~= Seq::<u8>::empty());
    } else {
        let dl = s.drop_last();
        lemma_be_value_leading_zero(dl);
        assert(s.skip(1).drop_last() =~= dl.skip(1));
        assert(s.skip(1).last() == s.last());
    }
}

/// 256^8, the first number a 64-bit word cannot hold.
pub proof fn lemma_pow256_8()
    ensures
        spec_pow256(8) == 0x1_0000_0000_0000_0000,
{
    assert(spec_pow256(0) == 1);
    assert(spec_pow256(1) == 256);
    assert(spec_pow256(2) == 0x1_0000);
    assert(spec_pow256(3) == 0x100_0000);
    assert(spec_pow256(4) == 0x1_0000_0000);
    assert(spec_pow256(5) == 0x100_0000_0000);
    assert(spec_pow256(6) == 0x1_0000_0000_0000);
    assert(spec_pow256(7) == 0x100_0000_0000_0000);
    assert(spec_pow256(8) == 0x1_0000_0000_0000_0000);
}

/// Appends the minimal big-endian digits of `n`.
pub fn push_be_bytes(out: &mut Vec<u8>, n: u64)
    ensures
        final(out)@ == old(out)@ + spec_be_bytes(n as nat),
    decreases n,
{
    if n == 0 {
        assert(out@ =~= old(out)@ + spec_be_bytes(0));
        return ;
    }
    assert(n / 256 < n) by (nonlinear_arith)
        requires
            n > 0,
    ;
    push_be_bytes(out, n / 256);
    out.push((n % 256) as u8);
    assert(out@ =~= old(out)@ + spec_be_bytes(n as nat));
}

/// The length octets of a definite length: one octet below 128, else a
/// count octet followed by the minimal big-endian digits of the length.
pub open spec fn spec_len_bytes(n: nat) -> Seq<u8> {
    if n < 128 {
        seq![n as u8]
    } else {
        seq![(128 + spec_be_bytes(n).len()) as u8] + spec_be_bytes(n)
    }
}

/// Appends the length octets of `len`.
pub fn push_len_bytes(out: &mut Vec<u8>, len: usize)
    ensures
        final(out)@ == old(out)@ + spec_len_bytes(len as nat),
{
    if len < 128 {
        out.push(len as u8);
        assert(out@ =~= old(out)@ + spec_len_bytes(len as nat));
    } else {
        let mut digits: Vec<u8> = Vec::new();
        push_be_bytes(&mut digits, len as u64);
        proof {
            lemma_pow256_8();
            lemma_be_bytes_len((len as u64) as nat, 8);
            lemma_be_bytes_minimal(len as nat);
        }
        let marker: u8 = 128 + (digits.len() as u8);
        out.push(marker);
        out.append(&mut digits);
        assert(out@ =~= old(out)@ + spec_len_bytes(len as nat));
    }
}

/// The full header bytes for a node with the given class, constructed
/// flag, tag number and definite content length.
pub open spec fn spec_header_bytes(class: Class, constructed: bool, tag: u32, len: usize) -> Seq<
    u8,
>
    recommends
        tag <= 30,
{
    seq![spec_id_octet(class, constructed, tag)] + spec_len_bytes(len as nat)
}

/// Writes the header for a node with a definite content length. Fails, and
/// writes nothing, exactly when the tag number is above 30 (the multi-octet
/// identifier form is not supported).
pub fn write_header_bytes(
    out: &mut Vec<u8>,
    class: Class,
    constructed: bool,
    tag: u32,
    len: usize,
) -> (r: Result<usize, SerializeError>)
    ensures
        match r {
            Ok(n) => tag <= 30 && final(out)@ == old(out)@ + spec_header_bytes(
                class,
                constructed,
                tag,
                len,
            ) && n == spec_header_bytes(class, constructed, tag, len).len(),
            Err(e) => tag > 30 && e == SerializeError::Asn1(Error::InvalidTag) && final(out)@
                == old(out)@,
        },
{
    if tag > 30 {
        return Err(SerializeError::Asn1(Error::InvalidTag));
    }
    let start = out.len();
    let id: u8 = class_value(class) * 64 + (if constructed {
        32
    } else {
        0
    }) + (tag as u8);
    out.push(id);
    push_len_bytes(out, len);
    assert(out@ =~= old(out)@ + spec_header_bytes(class, constructed, tag, len));
    Ok(out.len() - start)
}

/// Number of bytes the header for the given tag and content length takes.
pub fn header_length(tag: u32, len: usize) -> (r: Result<usize, Error>)
    ensures
        match r {
            Ok(n) => tag <= 30 && n == spec_header_bytes(
                Class::Universal,
                false,
                tag,
                len,
            ).len() && 2 <= n <= 10,
            Err(e) => tag > 30 && e == Error::InvalidTag,
        },
{
    if tag > 30 {
        return Err(Error::InvalidTag);
    }
    if len < 128 {
        return Ok(2);
    }
    let mut digits: Vec<u8> = Vec::new();
    push_be_bytes(&mut digits, len as u64);
    proof {
        lemma_pow256_8();
        lemma_be_bytes_len((len as u64) as nat, 8);
        lemma_be_bytes_minimal(len as nat);
    }
    Ok(2 + digits.len())
}

/// The header bytes do not depend on the class and flag for their length;
/// their count is two plus the long-form digits, never more than ten.
pub proof fn lemma_header_len_bounds(class: Class, constructed: bool, tag: u32, len: usize)
    ensures
        spec_header_bytes(class, constructed, tag, len).len() == spec_header_bytes(
            Class::Universal,
            false,
            tag,
            len,
        ).len(),
        2 <= spec_header_bytes(class, constructed, tag, len).len() <= 10,
{
    lemma_pow256_8();
    lemma_be_bytes_len(len as nat, 8);
    if len as nat >= 128 {
        lemma_be_bytes_minimal(len as nat);
    }
}

} // verus!
