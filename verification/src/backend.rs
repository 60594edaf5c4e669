//! What this crate takes from `secp256k1zkp` and `rand`, and all that it
//! assumes of them. Nothing in this file is proved: each function's body is a
//! call into the outside crate, and its contract is what the rest of the
//! crate believes of that call.
//!
//! Arithmetic on scalars is stated outright, as arithmetic modulo the group
//! order. The results of operations on curve points are only named: the
//! contracts say that a call returns what the outside function computes on
//! the same bytes, and nothing of the group law.
//!
//! The outside crate takes scalars as secret keys, and some of its functions
//! panic on 32 bytes that are none. No such bytes reach it from here: a
//! `Scalar` holds a valid secret key by the invariant of its type.

use vstd::prelude::*;
use crate::commitment::Commitment;
use crate::scalar::{group_order, is_scalar, total, Scalar};
use secp256k1zkp::key::SecretKey;
use secp256k1zkp::{ContextFlag, Error, Secp256k1};

verus! {

/// The outside crate's context: precomputed tables behind a pointer.
#[verifier::external_type_specification]
#[verifier::external_body]
pub struct ExSecp256k1(Secp256k1);

/// The outside crate's error.
#[verifier::external_type_specification]
#[verifier::external_body]
pub struct ExError(Error);

/// Whether a context was made with the capability to commit.
pub uninterp spec fn can_commit(ctx: Secp256k1) -> bool;

/// What `Secp256k1::commit` returns for a value and the bytes of a blinding
/// factor: the encoding of `blind * G + value * H`, or nothing where that is
/// the neutral element.
pub uninterp spec fn pedersen_commit(value: u64, blind: Seq<u8>) -> Option<Seq<u8>>;

/// What `Secp256k1::commit_blind` returns for the bytes of two scalars: as
/// `pedersen_commit`, with a scalar for the value.
pub uninterp spec fn pedersen_commit_blind(value: Seq<u8>, blind: Seq<u8>) -> Option<Seq<u8>>;

/// What `Secp256k1::commit_sum` returns for two lists of encoded points: the
/// encoding of the sum of the first less the sum of the second, or nothing
/// where an entry encodes no point or the result is the neutral element.
pub uninterp spec fn pedersen_sum(positive: Seq<Seq<u8>>, negative: Seq<Seq<u8>>) -> Option<
    Seq<u8>,
>;

/// What `Commitment::to_pubkey`, `PublicKey::mul_assign` and
/// `Commitment::from_pubkey` return, one after the other, for an encoded
/// point and the bytes of a scalar: the encoding of the point multiplied by
/// the scalar, or nothing where the bytes encode no point. The three calls
/// together are a function of the two byte strings alone.
pub uninterp spec fn pedersen_scale(point: Seq<u8>, factor: Seq<u8>) -> Option<Seq<u8>>;

/// The encodings of a list of commitments.
pub open spec fn encodings(points: Seq<Commitment>) -> Seq<Seq<u8>> {
    Seq::new(points.len(), |i: int| points[i]@)
}

/// The commitment that an outside call handed out, if it did.
pub open spec fn outcome(r: Result<Commitment, Error>) -> Option<Seq<u8>> {
    match r {
        Ok(c) => Some(c@),
        Err(_) => None,
    }
}

/// `Secp256k1::with_caps(ContextFlag::Commit)`: a context that can commit.
#[verifier::external_body]
pub(crate) fn commit_context() -> (ctx: Secp256k1)
    ensures
        can_commit(ctx),
{
    Secp256k1::with_caps(ContextFlag::Commit)
}

/// `SecretKey::new` on `rand::thread_rng()`: random bytes, drawn again until
/// they are a valid secret key. Nothing else is known of the result.
#[verifier::external_body]
pub(crate) fn fresh_scalar(ctx: &Secp256k1) -> (s: Scalar)
    ensures
        s.wf(),
{
    Scalar { bytes: SecretKey::new(ctx, &mut rand::thread_rng()).0 }
}

/// `SecretKey::from_slice`: accepts exactly the 32-byte strings whose value
/// is neither zero nor as large as the group order, and keeps the bytes.
#[verifier::external_body]
pub(crate) fn scalar_from_slice(ctx: &Secp256k1, data: &Vec<u8>) -> (r: Result<Scalar, Error>)
    ensures
        r is Ok <==> is_scalar(data@),
        r matches Ok(s) ==> s@ == data@ && s.wf(),
{
    Ok(Scalar { bytes: SecretKey::from_slice(ctx, data.as_slice())?.0 })
}

/// `SecretKey::mul_assign`: the product of two secret keys modulo the group
/// order. It fails only on a zero or oversized factor, which no `Scalar` is;
/// the group order is prime, so the product is not zero either.
#[verifier::external_body]
pub(crate) fn scalar_product(ctx: &Secp256k1, a: &Scalar, b: &Scalar) -> (r: Result<Scalar, Error>)
    ensures
        match r {
            Ok(p) => p.wf() && p.value() == (a.value() * b.value()) % group_order(),
            Err(_) => false,
        },
{
    let mut key = SecretKey(a.bytes);
    key.mul_assign(ctx, &SecretKey(b.bytes))?;
    Ok(Scalar { bytes: key.0 })
}

/// `Secp256k1::blind_sum`: the sum of the first list less the sum of the
/// second, modulo the group order. It fails exactly where that is zero, which
/// is no secret key.
#[verifier::external_body]
pub(crate) fn blind_sum(ctx: &Secp256k1, positive: Vec<Scalar>, negative: Vec<Scalar>) -> (r:
    Result<Scalar, Error>)
    ensures
        r is Err <==> (total(positive@) - total(negative@)) % (group_order() as int) == 0,
        r matches Ok(s) ==> s.wf() && s.value() == (total(positive@) - total(negative@)) % (
        group_order() as int),
{
    let pos = positive.iter().map(|s| SecretKey(s.bytes)).collect();
    let neg = negative.iter().map(|s| SecretKey(s.bytes)).collect();
    Ok(Scalar { bytes: ctx.blind_sum(pos, neg)?.0 })
}

/// `Secp256k1::commit`: the commitment to a 64-bit value under a blinding
/// factor.
#[verifier::external_body]
pub(crate) fn commit(ctx: &Secp256k1, value: u64, blind: &Scalar) -> (r: Result<Commitment, Error>)
    requires
        can_commit(*ctx),
    ensures
        outcome(r) == pedersen_commit(value, blind@),
{
    Ok(Commitment { bytes: ctx.commit(value, SecretKey(blind.bytes))?.0 })
}

/// `Secp256k1::commit_blind`: the commitment to a scalar under a blinding
/// factor.
#[verifier::external_body]
pub(crate) fn commit_blind(ctx: &Secp256k1, value: &Scalar, blind: &Scalar) -> (r: Result<
    Commitment,
    Error,
>)
    requires
        can_commit(*ctx),
    ensures
        outcome(r) == pedersen_commit_blind(value@, blind@),
{
    Ok(Commitment { bytes: ctx.commit_blind(SecretKey(value.bytes), SecretKey(blind.bytes))?.0 })
}

/// `Secp256k1::commit_sum`: the sum of the first list of commitments less the
/// sum of the second.
#[verifier::external_body]
pub(crate) fn commit_sum(ctx: &Secp256k1, positive: Vec<Commitment>, negative: Vec<Commitment>) -> (r:
    Result<Commitment, Error>)
    ensures
        outcome(r) == pedersen_sum(encodings(positive@), encodings(negative@)),
{
    let pos = positive.iter().map(|c| secp256k1zkp::pedersen::Commitment(c.bytes)).collect();
    let neg = negative.iter().map(|c| secp256k1zkp::pedersen::Commitment(c.bytes)).collect();
    Ok(Commitment { bytes: ctx.commit_sum(pos, neg)?.0 })
}

/// `PublicKey::mul_assign` on the point that a commitment encodes: the
/// commitment is turned into a public key by `Commitment::to_pubkey`, and the
/// product back into a commitment by `Commitment::from_pubkey`.
///
/// `to_pubkey` parses the bytes first and fails on bytes that are no point,
/// so only points reach the multiplication. The outside crate aborts on a
/// public key whose x coordinate is zero; no point of the curve has one, so
/// no input leads there.
#[verifier::external_body]
pub(crate) fn scale(ctx: &Secp256k1, point: &Commitment, factor: &Scalar) -> (r: Result<
    Commitment,
    Error,
>)
    requires
        can_commit(*ctx),
    ensures
        outcome(r) == pedersen_scale(point@, factor@),
{
    let mut key = secp256k1zkp::pedersen::Commitment(point.bytes).to_pubkey(ctx)?;
    key.mul_assign(ctx, &SecretKey(factor.bytes))?;
    Ok(Commitment { bytes: secp256k1zkp::pedersen::Commitment::from_pubkey(ctx, &key)?.0 })
}

} // verus!
