//! The addition gate: a proof that the committed output is the sum of the
//! two committed operands.
//!
//! The prover sends `W_L`, `W_R`, `W_O` and a commitment `B` to zero. The
//! verifier answers with a challenge `x`. The prover responds with
//! `z = x (r_L + r_R - r_O) + r_B`, and the verifier accepts if
//! `Com(0, z) = x (W_L + W_R - W_O) + B`.

use vstd::prelude::*;
use vstd::arithmetic::div_mod::{lemma_add_mod_noop, lemma_mul_mod_noop_general, lemma_small_mod};
use vstd::arithmetic::mul::lemma_mul_is_commutative;
use vstd::pervasive::unreached;
use crate::backend;
use crate::backend::{encodings, pedersen_commit, pedersen_scale, pedersen_sum};
use crate::commitment::Commitment;
use crate::error::ProofError;
use crate::pedersen::{mul_commit_secret, Pedersen};
use crate::prover::{CommitAdd, PedersenWitness, Prover};
use crate::scalar::{
    group_order, lemma_scalar_determined_by_value, lemma_total_of_one, lemma_total_of_two, residue,
    total, Scalar,
};

verus! {

/// The response `z = x (r_L + r_R - r_O) + r_B` in the scalar field, where it
/// has a representation: neither `r_L + r_R - r_O` nor `z` itself may vanish.
pub open spec fn add_response(x: nat, r_l: nat, r_r: nat, r_o: nat, r_b: nat) -> Option<int> {
    let z = residue(x * (r_l + r_r - r_o) + r_b);
    if residue(r_l + r_r - r_o) == 0 || z == 0 {
        None
    } else {
        Some(z)
    }
}

/// What the prover owes to the challenge `x`: the response where the state
/// holds the commit move and the response has a representation, and else the
/// error that says what is missing.
pub open spec fn is_add_answer(x: Scalar, prover: Prover, res: Result<Scalar, ProofError>) -> bool {
    match prover.commit_add {
        None => res matches Err(ProofError::MissingAuxiliaryState),
        Some(aux) => match add_response(
            x.value(),
            prover.r_l.value(),
            prover.r_r.value(),
            prover.r_o.value(),
            aux.r_b.value(),
        ) {
            Some(z) => res matches Ok(v) && v.wf() && v.value() == z,
            None => res matches Err(ProofError::InvalidScalar),
        },
    }
}

/// What the prover of an addition gate sends first.
pub struct AddFirstMove {
    pub w_l: Seq<u8>,
    pub w_r: Seq<u8>,
    pub w_o: Seq<u8>,
    pub b: Seq<u8>,
}

/// The first move that the wire values and blinding factors determine, if
/// all four commitments exist.
pub open spec fn add_first_move(
    l: u64,
    r: u64,
    o: u64,
    r_l: Scalar,
    r_r: Scalar,
    r_o: Scalar,
    r_b: Scalar,
) -> Option<AddFirstMove> {
    match (
        pedersen_commit(l, r_l@),
        pedersen_commit(r, r_r@),
        pedersen_commit(o, r_o@),
        pedersen_commit(0, r_b@),
    ) {
        (Some(w_l), Some(w_r), Some(w_o), Some(b)) => Some(AddFirstMove { w_l, w_r, w_o, b }),
        _ => None,
    }
}

/// The state of a prover that committed to the wire values `l`, `r`, `o` as
/// the addition protocol asks: the witness opens to them under the blinding
/// factors that the prover holds, and `B` opens to zero.
pub open spec fn honest_add_prover(p: Prover, l: u64, r: u64, o: u64) -> bool {
    &&& p.value_l == l
    &&& p.value_r == r
    &&& p.value_o == o
    &&& pedersen_commit(l, p.r_l@) == Some(p.witness.W_L@)
    &&& pedersen_commit(r, p.r_r@) == Some(p.witness.W_R@)
    &&& pedersen_commit(o, p.r_o@) == Some(p.witness.W_O@)
    &&& p.commit_mul is None
    &&& match p.commit_add {
        Some(aux) => pedersen_commit(0, aux.r_b@) == Some(aux.b_commit@),
        None => false,
    }
}

/// What starting a session on the wire values `l`, `r`, `o` with the given
/// blinding factors comes to: the session that holds them and the first move
/// that they determine, or `InvalidCommitment` where one of the four
/// commitments does not exist.
pub open spec fn is_add_session(
    l: u64,
    r: u64,
    o: u64,
    r_l: Scalar,
    r_r: Scalar,
    r_o: Scalar,
    r_b: Scalar,
    res: Result<Prover, ProofError>,
) -> bool {
    match add_first_move(l, r, o, r_l, r_r, r_o, r_b) {
        Some(sent) => match res {
            Ok(p) => {
                &&& p.value_l == l
                &&& p.value_r == r
                &&& p.value_o == o
                &&& p.r_l == r_l
                &&& p.r_r == r_r
                &&& p.r_o == r_o
                &&& p.witness.W_L@ == sent.w_l
                &&& p.witness.W_R@ == sent.w_r
                &&& p.witness.W_O@ == sent.w_o
                &&& p.commit_mul is None
                &&& match p.commit_add {
                    Some(aux) => aux.r_b == r_b && aux.b_commit@ == sent.b,
                    None => false,
                }
            },
            Err(_) => false,
        },
        None => res matches Err(ProofError::InvalidCommitment),
    }
}

/// The verifier's equation `Com(0, z) = x (W_L + W_R - W_O) + B`: every
/// group operation in it has a result, and the two sides have the same
/// encoding.
pub open spec fn add_check(x: Scalar, w: PedersenWitness, b: Commitment, z: Scalar) -> bool {
    match pedersen_sum(seq![w.W_L@, w.W_R@], seq![w.W_O@]) {
        Some(combined) => match pedersen_scale(combined, x@) {
            Some(scaled) => match pedersen_sum(seq![scaled, b@], seq![]) {
                Some(right) => pedersen_commit(0, z@) == Some(right),
                None => false,
            },
            None => false,
        },
        None => false,
    }
}

/// `((a mod n) x mod n + b) mod n = (x a + b) mod n` for `b` below `n`.
pub proof fn lemma_scaled_sum_residue(a: int, x: nat, b: nat)
    requires
        b < group_order(),
    ensures
        residue((residue((residue(a) * x) as int) + b) as int) == residue(x * a + b),
{
    let n = group_order() as int;
    lemma_mul_mod_noop_general(a, x as int, n);
    lemma_mul_is_commutative(a, x as int);
    lemma_small_mod(b, group_order());
    lemma_add_mod_noop(a * x, b as int, n);
}

impl Pedersen {
    /// Starts a session of the addition protocol for the wire values `l`,
    /// `r`, `o` with fresh blinding factors. Every wire value is taken, zero
    /// too. Whether `o = l + r` is the caller's business: a session on other
    /// values ends in a proof that fails.
    ///
    /// The result is the session of `prover_from_blinds` for the four
    /// scalars that were drawn.
    pub fn generate_prover(&self, value_l: u64, value_r: u64, value_o: u64) -> (res: Result<
        Prover,
        ProofError,
    >)
        ensures
            exists|r_l: Scalar, r_r: Scalar, r_o: Scalar, r_b: Scalar|
                r_l.wf() && r_r.wf() && r_o.wf() && r_b.wf() && #[trigger] is_add_session(
                    value_l,
                    value_r,
                    value_o,
                    r_l,
                    r_r,
                    r_o,
                    r_b,
                    res,
                ),
            match res {
                Ok(p) => honest_add_prover(p, value_l, value_r, value_o),
                Err(e) => e == ProofError::InvalidCommitment,
            },
    {
        let r_l = self.random_scalar();
        let r_r = self.random_scalar();
        let r_o = self.random_scalar();
        let r_b = self.random_scalar();
        let res = self.prover_from_blinds(value_l, value_r, value_o, r_l, r_r, r_o, r_b);
        assert(is_add_session(value_l, value_r, value_o, r_l, r_r, r_o, r_b, res));
        res
    }

    /// The session of the addition protocol that the wire values and the
    /// given blinding factors determine. It exists exactly if the four
    /// commitments do.
    pub fn prover_from_blinds(
        &self,
        value_l: u64,
        value_r: u64,
        value_o: u64,
        r_l: Scalar,
        r_r: Scalar,
        r_o: Scalar,
        r_b: Scalar,
    ) -> (res: Result<Prover, ProofError>)
        ensures
            is_add_session(value_l, value_r, value_o, r_l, r_r, r_o, r_b, res),
            match res {
                Ok(p) => honest_add_prover(p, value_l, value_r, value_o),
                Err(e) => e == ProofError::InvalidCommitment,
            },
    {
        let b_commit = self.commit(0, &r_b)?;
        let w_l = self.commit(value_l, &r_l)?;
        let w_r = self.commit(value_r, &r_r)?;
        let w_o = self.commit(value_o, &r_o)?;
        Ok(
            Prover {
                r_l,
                r_r,
                r_o,
                value_l,
                value_r,
                value_o,
                witness: PedersenWitness { W_L: w_l, W_R: w_r, W_O: w_o },
                commit_add: Some(CommitAdd { r_b, b_commit }),
                commit_mul: None,
            },
        )
    }

    /// The prover's response `z = x (r_L + r_R - r_O) + r_B` to the
    /// challenge `x`.
    ///
    /// A prover without the commit move of the addition protocol is refused
    /// as `MissingAuxiliaryState`. `InvalidScalar` says that `r_L + r_R - r_O`
    /// or `z` is zero in the field.
    pub fn generate_z(&self, x: &Scalar, prover: &Prover) -> (res: Result<Scalar, ProofError>)
        ensures
            is_add_answer(*x, *prover, res),
    {
        let aux = match prover.commit_add {
            Some(aux) => aux,
            None => {
                return Err(ProofError::MissingAuxiliaryState);
            },
        };
        let ctx = self.context();
        let positive = vec![prover.r_l, prover.r_r];
        let negative = vec![prover.r_o];
        proof {
            use_type_invariant(&aux.r_b);
            use_type_invariant(x);
            assert(positive@ =~= seq![prover.r_l, prover.r_r]);
            assert(negative@ =~= seq![prover.r_o]);
            lemma_total_of_two(prover.r_l, prover.r_r);
            lemma_total_of_one(prover.r_o);
            lemma_scaled_sum_residue(
                prover.r_l.value() + prover.r_r.value() - prover.r_o.value(),
                x.value(),
                aux.r_b.value(),
            );
        }
        let combined = match backend::blind_sum(ctx, positive, negative) {
            Ok(s) => s,
            Err(_) => {
                return Err(ProofError::InvalidScalar);
            },
        };
        let scaled = match backend::scalar_product(ctx, &combined, x) {
            Ok(s) => s,
            Err(_) => unreached(),
        };
        let terms = vec![scaled, aux.r_b];
        let none: Vec<Scalar> = Vec::new();
        proof {
            assert(terms@ =~= seq![scaled, aux.r_b]);
            lemma_total_of_two(scaled, aux.r_b);
            assert(total(none@) == 0);
        }
        match backend::blind_sum(ctx, terms, none) {
            Ok(z) => Ok(z),
            Err(_) => Err(ProofError::InvalidScalar),
        }
    }

    /// Whether `z` answers the challenge `x` for the witness and the
    /// commitment `B`: whether `Com(0, z) = x (W_L + W_R - W_O) + B`.
    ///
    /// A commitment that encodes no point, or a side of the equation that is
    /// the neutral element, makes the proof fail like any other mismatch.
    pub fn verify_add(
        &self,
        x: &Scalar,
        witness: &PedersenWitness,
        b_commit: Commitment,
        z: Scalar,
    ) -> (ok: bool)
        ensures
            ok == add_check(*x, *witness, b_commit, z),
    {
        let positive = vec![witness.W_L, witness.W_R];
        let negative = vec![witness.W_O];
        assert(encodings(positive@) =~= seq![witness.W_L@, witness.W_R@]);
        assert(encodings(negative@) =~= seq![witness.W_O@]);
        let combined = match self.commit_sum(positive, negative) {
            Ok(c) => c,
            Err(_) => {
                return false;
            },
        };
        let scaled = match mul_commit_secret(self, &combined, x) {
            Ok(c) => c,
            Err(_) => {
                return false;
            },
        };
        let right = match self.sum_of_two(scaled, b_commit) {
            Ok(c) => c,
            Err(_) => {
                return false;
            },
        };
        match self.commit(0, &z) {
            Ok(left) => left.same_as(&right),
            Err(_) => false,
        }
    }
}

/// The response is a function of the prover's state and the challenge: two
/// answers to one challenge from one state are the same.
pub proof fn lemma_add_answer_is_determined(
    x: Scalar,
    prover: Prover,
    first: Result<Scalar, ProofError>,
    second: Result<Scalar, ProofError>,
)
    requires
        is_add_answer(x, prover, first),
        is_add_answer(x, prover, second),
    ensures
        first == second,
{
    if first is Ok {
        lemma_scalar_determined_by_value(first.unwrap(), second.unwrap());
    }
}

} // verus!
