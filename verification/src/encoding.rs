//! Big-endian encoding of integers as fixed-width byte strings.

use vstd::prelude::*;

verus! {

/// The number that a byte string denotes when read with the most significant
/// byte first.
pub open spec fn be_value(bytes: Seq<u8>) -> nat
    decreases bytes.len(),
{
    if bytes.len() == 0 {
        0
    } else {
        be_value(bytes.drop_last()) * 256 + bytes.last() as nat
    }
}

/// The `len` least significant base-256 digits of `value`, most significant
/// first.
pub open spec fn be_bytes(value: nat, len: nat) -> Seq<u8>
    decreases len,
{
    if len == 0 {
        Seq::empty()
    } else {
        be_bytes(value / 256, (len - 1) as nat).push((value % 256) as u8)
    }
}

/// `value` with its `len` least significant base-256 digits removed.
pub open spec fn high_part(value: nat, len: nat) -> nat
    decreases len,
{
    if len == 0 {
        value
    } else {
        high_part(value / 256, (len - 1) as nat)
    }
}

pub proof fn lemma_be_bytes_len(value: nat, len: nat)
    ensures
        be_bytes(value, len).len() == len,
    decreases len,
{
    if len > 0 {
        lemma_be_bytes_len(value / 256, (len - 1) as nat);
    }
}

/// Decoding undoes encoding whenever the width is large enough for the value.
pub proof fn lemma_be_value_of_be_bytes(value: nat, len: nat)
    requires
        high_part(value, len) == 0,
    ensures
        be_value(be_bytes(value, len)) == value,
    decreases len,
{
    if len > 0 {
        let head = be_bytes(value / 256, (len - 1) as nat);
        let digit = (value % 256) as u8;
        lemma_be_value_of_be_bytes(value / 256, (len - 1) as nat);
        assert(head.push(digit).drop_last() =~= head);
        assert(head.push(digit).last() == digit);
    }
}

pub proof fn lemma_high_part_of_zero(len: nat)
    ensures
        high_part(0, len) == 0,
    decreases len,
{
    if len > 0 {
        lemma_high_part_of_zero((len - 1) as nat);
    }
}

/// Thirty-two bytes are enough for every 64-bit integer.
pub proof fn lemma_u64_fits_32_bytes(value: u64)
    ensures
        high_part(value as nat, 32) == 0,
{
    let v: nat = value as nat;
    let v8: nat = v / 256 / 256 / 256 / 256 / 256 / 256 / 256 / 256;
    assert(v8 == 0);
    reveal_with_fuel(high_part, 9);
    assert(high_part(v, 32) == high_part(v8, 24));
    lemma_high_part_of_zero(24);
}

/// Two byte strings of one length that denote the same number are equal.
pub proof fn lemma_be_value_injective(a: Seq<u8>, b: Seq<u8>)
    requires
        a.len() == b.len(),
        be_value(a) == be_value(b),
    ensures
        a == b,
    decreases a.len(),
{
    if a.len() > 0 {
        lemma_be_value_injective(a.drop_last(), b.drop_last());
        assert(a =~= a.drop_last().push(a.last()));
        assert(b =~= b.drop_last().push(b.last()));
    } else {
        assert(a =~= b);
    }
}

fn be_encode(value: u64, len: usize) -> (out: Vec<u8>)
    ensures
        out@ == be_bytes(value as nat, len as nat),
    decreases len,
{
    if len == 0 {
        Vec::new()
    } else {
        let mut out = be_encode(value / 256, len - 1);
        out.push((value % 256) as u8);
        out
    }
}

/// Embeds a 64-bit integer into the 32-byte big-endian form in which the
/// scalar field takes its elements: 24 zero bytes, then the eight bytes of
/// `value`.
pub fn tou8(value: &u64) -> (out: Vec<u8>)
    ensures
        out@ == be_bytes(*value as nat, 32),
        out@.len() == 32,
        be_value(out@) == *value,
{
    let out = be_encode(*value, 32);
    proof {
        lemma_be_bytes_len(*value as nat, 32);
        lemma_u64_fits_32_bytes(*value);
        lemma_be_value_of_be_bytes(*value as nat, 32);
    }
    out
}

} // verus!
