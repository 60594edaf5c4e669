//! What the two parties of a proof session hold.

use vstd::prelude::*;
use crate::commitment::Commitment;
use crate::scalar::Scalar;

verus! {

/// The three public commitments of a gate: to its left operand, its right
/// operand and its output. Whether they open to a sum, or to a product, is
/// not known from the type: a proof that verifies shows it.
#[allow(non_snake_case)]
#[derive(Clone, Copy, Debug, PartialEq, Eq)]
pub struct PedersenWitness {
    pub W_L: Commitment,
    pub W_R: Commitment,
    pub W_O: Commitment,
}

/// The commit move of the addition protocol: a fresh blinding factor and the
/// commitment to zero under it.
#[derive(Clone, Copy)]
pub struct CommitAdd {
    pub r_b: Scalar,
    pub b_commit: Commitment,
}

/// The commit move of the multiplication protocol: five fresh scalars and the
/// three commitments made from them.
#[derive(Clone, Copy)]
pub struct CommitMul {
    pub t1: Scalar,
    pub t2: Scalar,
    pub t3: Scalar,
    pub t4: Scalar,
    pub t5: Scalar,
    pub c1_commit: Commitment,
    pub c2_commit: Commitment,
    pub c3_commit: Commitment,
}

/// The public part of the commit move of the multiplication protocol: what
/// the prover sends and the verifier checks against.
#[derive(Clone, Copy, Debug, PartialEq, Eq)]
pub struct MulCommitments {
    pub c1: Commitment,
    pub c2: Commitment,
    pub c3: Commitment,
}

/// The secret state of one proof session: the wire values, the blinding
/// factors of the three commitments, and the commit move of the protocol
/// that the session runs.
#[derive(Clone, Copy)]
pub struct Prover {
    pub r_l: Scalar,
    pub r_r: Scalar,
    pub r_o: Scalar,
    pub value_l: u64,
    pub value_r: u64,
    pub value_o: u64,
    pub witness: PedersenWitness,
    pub commit_add: Option<CommitAdd>,
    pub commit_mul: Option<CommitMul>,
}

impl CommitMul {
    /// The commitments `C1`, `C2`, `C3` of the move.
    pub open spec fn commitments_sent(self) -> MulCommitments {
        MulCommitments { c1: self.c1_commit, c2: self.c2_commit, c3: self.c3_commit }
    }

    /// The commitments `C1`, `C2`, `C3` that the prover sends.
    pub fn commitments(&self) -> (sent: MulCommitments)
        ensures
            sent == self.commitments_sent(),
    {
        MulCommitments { c1: self.c1_commit, c2: self.c2_commit, c3: self.c3_commit }
    }
}

} // verus!
