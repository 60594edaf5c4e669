//! The commitment scheme: a context of the outside crate, and its operations
//! with this crate's types and errors.

use vstd::prelude::*;
use crate::backend;
use crate::backend::{
    can_commit, encodings, pedersen_commit, pedersen_commit_blind, pedersen_scale, pedersen_sum,
};
use crate::commitment::Commitment;
use crate::encoding::{be_bytes, tou8};
use crate::error::ProofError;
use crate::scalar::{is_scalar, Scalar};
use secp256k1zkp::Secp256k1;

verus! {

/// The commitment scheme that both protocols run on.
pub struct Pedersen(Secp256k1);

/// A group operation gave the named result, or was refused because there is
/// none.
pub open spec fn yields(res: Result<Commitment, ProofError>, named: Option<Seq<u8>>) -> bool {
    match res {
        Ok(c) => named == Some(c@),
        Err(e) => e == ProofError::InvalidCommitment && named is None,
    }
}

impl Pedersen {
    /// Whether the context of the scheme was made with the capability to
    /// commit. Every `Pedersen` that executable code can hold is ready.
    #[verifier::type_invariant]
    pub closed spec fn ready(self) -> bool {
        can_commit(self.0)
    }

    /// A scheme on a fresh context that was made with the capability to
    /// commit.
    pub fn new() -> (scheme: Self)
        ensures
            scheme.ready(),
    {
        Pedersen(backend::commit_context())
    }

    pub(crate) fn context(&self) -> (ctx: &Secp256k1)
        ensures
            can_commit(*ctx),
    {
        proof {
            use_type_invariant(self);
        }
        &self.0
    }

    /// A fresh random scalar.
    pub fn random_scalar(&self) -> (s: Scalar)
        ensures
            s.wf(),
    {
        backend::fresh_scalar(self.context())
    }

    /// The scalar with the given 32 bytes, most significant first. Bytes of
    /// another length, or whose value is zero or not below the group order,
    /// are refused.
    pub fn scalar_from_bytes(&self, bytes: &Vec<u8>) -> (res: Result<Scalar, ProofError>)
        ensures
            match res {
                Ok(s) => is_scalar(bytes@) && s.wf() && s@ == bytes@,
                Err(e) => !is_scalar(bytes@) && e == ProofError::InvalidScalar,
            },
    {
        match backend::scalar_from_slice(self.context(), bytes) {
            Ok(s) => Ok(s),
            Err(_) => Err(ProofError::InvalidScalar),
        }
    }

    /// The scalar with the given value. Zero is refused: the field's zero has
    /// no place among the scalars of the scheme.
    pub fn scalar_from_u64(&self, value: u64) -> (res: Result<Scalar, ProofError>)
        ensures
            match res {
                Ok(s) => value != 0 && s.wf() && s.value() == value && s@ == be_bytes(
                    value as nat,
                    32,
                ),
                Err(e) => value == 0 && e == ProofError::InvalidScalar,
            },
    {
        let bytes = tou8(&value);
        self.scalar_from_bytes(&bytes)
    }

    /// The commitment to a 64-bit value under a blinding factor.
    pub fn commit(&self, value: u64, blind: &Scalar) -> (res: Result<Commitment, ProofError>)
        ensures
            yields(res, pedersen_commit(value, blind@)),
    {
        match backend::commit(self.context(), value, blind) {
            Ok(c) => Ok(c),
            Err(_) => Err(ProofError::InvalidCommitment),
        }
    }

    /// The commitment to a scalar under a blinding factor.
    pub fn commit_blind(&self, value: &Scalar, blind: &Scalar) -> (res: Result<
        Commitment,
        ProofError,
    >)
        ensures
            yields(res, pedersen_commit_blind(value@, blind@)),
    {
        match backend::commit_blind(self.context(), value, blind) {
            Ok(c) => Ok(c),
            Err(_) => Err(ProofError::InvalidCommitment),
        }
    }

    /// The sum of the commitments in `positive` less the sum of those in
    /// `negative`.
    pub fn commit_sum(&self, positive: Vec<Commitment>, negative: Vec<Commitment>) -> (res: Result<
        Commitment,
        ProofError,
    >)
        ensures
            yields(res, pedersen_sum(encodings(positive@), encodings(negative@))),
    {
        match backend::commit_sum(self.context(), positive, negative) {
            Ok(c) => Ok(c),
            Err(_) => Err(ProofError::InvalidCommitment),
        }
    }

    /// `a + b`.
    pub(crate) fn sum_of_two(&self, a: Commitment, b: Commitment) -> (res: Result<
        Commitment,
        ProofError,
    >)
        ensures
            yields(res, pedersen_sum(seq![a@, b@], seq![])),
    {
        let positive = vec![a, b];
        let negative: Vec<Commitment> = Vec::new();
        assert(encodings(positive@) =~= seq![a@, b@]);
        assert(encodings(negative@) =~= seq![]);
        self.commit_sum(positive, negative)
    }
}

/// The commitment `w` multiplied, as a group element, by the scalar `r`.
pub fn mul_commit_secret(pedersen: &Pedersen, w: &Commitment, r: &Scalar) -> (res: Result<
    Commitment,
    ProofError,
>)
    ensures
        yields(res, pedersen_scale(w@, r@)),
{
    match backend::scale(pedersen.context(), w, r) {
        Ok(c) => Ok(c),
        Err(_) => Err(ProofError::InvalidCommitment),
    }
}

} // verus!
