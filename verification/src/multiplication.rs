//! The multiplication gate: a proof that the committed output is the product
//! of the two committed operands.
//!
//! The prover sends `W_L`, `W_R`, `W_O` and, for fresh scalars `t1` to `t5`,
//! the commitments `C1 = Com(t1, t3)`, `C2 = Com(t2, t5)` and
//! `C3 = t1 W_R + t4 F`. The verifier answers with a challenge `x`. The
//! prover responds with
//!
//! ```text
//! e1 = l x + t1        z1 = r_L x + t3
//! e2 = r x + t2        z2 = r_R x + t5
//! z3 = (r_O - l r_R) x + t4
//! ```
//!
//! and the verifier accepts if all of
//!
//! ```text
//! Com(e1, z1) = x W_L + C1
//! Com(e2, z2) = x W_R + C2
//! e1 W_R + z3 F = x W_O + C3
//! ```
//!
//! hold. The cross term `l r_R` in `z3` is what ties the product into the
//! third equation.
//!
//! `F` is the generator that a commitment multiplies by its blinding factor,
//! so that `Com(v, b) = v H + b F`. With it the blinding factors cancel in
//! the third equation, which leaves `x (l r - o) H` and so holds exactly if
//! `o = l r`.

use vstd::prelude::*;
use vstd::arithmetic::div_mod::{
    lemma_add_mod_noop, lemma_mul_mod_noop_general, lemma_small_mod, lemma_sub_mod_noop_right,
};
use vstd::pervasive::unreached;
use crate::backend;
use crate::backend::{pedersen_commit, pedersen_commit_blind, pedersen_scale, pedersen_sum};
use crate::commitment::{generator_f_bytes, Commitment};
use crate::error::ProofError;
use crate::pedersen::{mul_commit_secret, Pedersen};
use crate::prover::{CommitMul, MulCommitments, PedersenWitness, Prover};
use crate::scalar::{
    group_order, lemma_scalar_determined_by_value, lemma_total_of_one, lemma_total_of_two, residue,
    total, Scalar,
};

verus! {

/// A response of the form `a x + t` in the scalar field, where it has a
/// representation: it may not vanish.
pub open spec fn linear_response(a: nat, x: nat, t: nat) -> Option<int> {
    let v = residue((a * x + t) as int);
    if v == 0 {
        None
    } else {
        Some(v)
    }
}

/// The response `z3 = (r_O - l r_R) x + t4` in the scalar field, where it
/// has a representation: neither `r_O - l r_R` nor `z3` itself may vanish.
pub open spec fn cross_response(r_o: nat, l: nat, r_r: nat, x: nat, t4: nat) -> Option<int> {
    let v = residue((r_o - l * r_r) * x + t4);
    if residue(r_o - l * r_r) == 0 || v == 0 {
        None
    } else {
        Some(v)
    }
}

/// The five responses of the multiplication protocol, as field elements.
pub struct MulResponse {
    pub e1: int,
    pub e2: int,
    pub z1: int,
    pub z2: int,
    pub z3: int,
}

/// The responses that a prover's state and the challenge determine, if all
/// five have a representation.
pub open spec fn mul_response(x: nat, p: Prover, aux: CommitMul) -> Option<MulResponse> {
    match (
        linear_response(p.value_l as nat, x, aux.t1.value()),
        linear_response(p.value_r as nat, x, aux.t2.value()),
        linear_response(p.r_l.value(), x, aux.t3.value()),
        linear_response(p.r_r.value(), x, aux.t5.value()),
        cross_response(p.r_o.value(), p.value_l as nat, p.r_r.value(), x, aux.t4.value()),
    ) {
        (Some(e1), Some(e2), Some(z1), Some(z2), Some(z3)) => Some(
            MulResponse { e1, e2, z1, z2, z3 },
        ),
        _ => None,
    }
}

/// What the prover owes to the challenge `x`: the five responses where the
/// state holds the commit move and each response has a representation, and
/// else the error that says what is missing.
pub open spec fn is_mul_answer(
    x: Scalar,
    prover: Prover,
    res: Result<(Scalar, Scalar, Scalar, Scalar, Scalar), ProofError>,
) -> bool {
    match prover.commit_mul {
        None => res matches Err(ProofError::MissingAuxiliaryState),
        Some(aux) => match mul_response(x.value(), prover, aux) {
            Some(expected) => match res {
                Ok(answers) => {
                    &&& answers.0.wf() && answers.0.value() == expected.e1
                    &&& answers.1.wf() && answers.1.value() == expected.e2
                    &&& answers.2.wf() && answers.2.value() == expected.z1
                    &&& answers.3.wf() && answers.3.value() == expected.z2
                    &&& answers.4.wf() && answers.4.value() == expected.z3
                },
                Err(_) => false,
            },
            None => res matches Err(ProofError::InvalidScalar),
        },
    }
}

/// `C3 = t1 W_R + t4 F`, if every operation in it has a result.
pub open spec fn cross_commitment(w_r: Seq<u8>, t1: Seq<u8>, t4: Seq<u8>) -> Option<Seq<u8>> {
    match (pedersen_scale(w_r, t1), pedersen_scale(generator_f_bytes(), t4)) {
        (Some(a), Some(b)) => pedersen_sum(seq![a, b], seq![]),
        _ => None,
    }
}

/// What the prover of a multiplication gate sends first.
pub struct MulFirstMove {
    pub w_l: Seq<u8>,
    pub w_r: Seq<u8>,
    pub w_o: Seq<u8>,
    pub c1: Seq<u8>,
    pub c2: Seq<u8>,
    pub c3: Seq<u8>,
}

/// The scalars that a prover of a multiplication gate draws: the blinding
/// factors of the three wires, then `t1` to `t5`.
#[derive(Clone, Copy)]
pub struct MulBlinds {
    pub r_l: Scalar,
    pub r_r: Scalar,
    pub r_o: Scalar,
    pub t1: Scalar,
    pub t2: Scalar,
    pub t3: Scalar,
    pub t4: Scalar,
    pub t5: Scalar,
}

impl MulBlinds {
    /// Whether all eight scalars are well formed.
    pub open spec fn wf(self) -> bool {
        &&& self.r_l.wf()
        &&& self.r_r.wf()
        &&& self.r_o.wf()
        &&& self.t1.wf()
        &&& self.t2.wf()
        &&& self.t3.wf()
        &&& self.t4.wf()
        &&& self.t5.wf()
    }
}

/// The first move that the wire values and the drawn scalars determine, if
/// all six commitments exist.
pub open spec fn mul_first_move(l: u64, r: u64, o: u64, d: MulBlinds) -> Option<MulFirstMove> {
    match (
        pedersen_commit(l, d.r_l@),
        pedersen_commit(r, d.r_r@),
        pedersen_commit(o, d.r_o@),
        pedersen_commit_blind(d.t1@, d.t3@),
        pedersen_commit_blind(d.t2@, d.t5@),
    ) {
        (Some(w_l), Some(w_r), Some(w_o), Some(c1), Some(c2)) => match cross_commitment(
            w_r,
            d.t1@,
            d.t4@,
        ) {
            Some(c3) => Some(MulFirstMove { w_l, w_r, w_o, c1, c2, c3 }),
            None => None,
        },
        _ => None,
    }
}

/// The state of a prover that committed to the wire values `l`, `r`, `o` as
/// the multiplication protocol asks.
pub open spec fn honest_mul_prover(p: Prover, l: u64, r: u64, o: u64) -> bool {
    &&& p.value_l == l
    &&& p.value_r == r
    &&& p.value_o == o
    &&& pedersen_commit(l, p.r_l@) == Some(p.witness.W_L@)
    &&& pedersen_commit(r, p.r_r@) == Some(p.witness.W_R@)
    &&& pedersen_commit(o, p.r_o@) == Some(p.witness.W_O@)
    &&& p.commit_add is None
    &&& match p.commit_mul {
        Some(aux) => {
            &&& pedersen_commit_blind(aux.t1@, aux.t3@) == Some(aux.c1_commit@)
            &&& pedersen_commit_blind(aux.t2@, aux.t5@) == Some(aux.c2_commit@)
            &&& cross_commitment(p.witness.W_R@, aux.t1@, aux.t4@) == Some(aux.c3_commit@)
        },
        None => false,
    }
}

/// What starting a session on the wire values `l`, `r`, `o` with the given
/// scalars comes to: the session that holds them and the first move that
/// they determine, or `InvalidCommitment` where one of the six commitments
/// does not exist.
pub open spec fn is_mul_session(
    l: u64,
    r: u64,
    o: u64,
    drawn: MulBlinds,
    res: Result<Prover, ProofError>,
) -> bool {
    match mul_first_move(l, r, o, drawn) {
        Some(sent) => match res {
            Ok(p) => {
                &&& p.value_l == l
                &&& p.value_r == r
                &&& p.value_o == o
                &&& p.r_l == drawn.r_l
                &&& p.r_r == drawn.r_r
                &&& p.r_o == drawn.r_o
                &&& p.witness.W_L@ == sent.w_l
                &&& p.witness.W_R@ == sent.w_r
                &&& p.witness.W_O@ == sent.w_o
                &&& p.commit_add is None
                &&& match p.commit_mul {
                    Some(aux) => {
                        &&& aux.t1 == drawn.t1
                        &&& aux.t2 == drawn.t2
                        &&& aux.t3 == drawn.t3
                        &&& aux.t4 == drawn.t4
                        &&& aux.t5 == drawn.t5
                        &&& aux.c1_commit@ == sent.c1
                        &&& aux.c2_commit@ == sent.c2
                        &&& aux.c3_commit@ == sent.c3
                    },
                    None => false,
                }
            },
            Err(_) => false,
        },
        None => res matches Err(ProofError::InvalidCommitment),
    }
}

/// An equation of the form `Com(e, z) = x W + C`: every group operation in
/// it has a result, and the two sides have the same encoding.
pub open spec fn opening_check(x: Scalar, w: Commitment, c: Commitment, e: Scalar, z: Scalar) -> bool {
    match pedersen_scale(w@, x@) {
        Some(scaled) => match pedersen_sum(seq![scaled, c@], seq![]) {
            Some(right) => pedersen_commit_blind(e@, z@) == Some(right),
            None => false,
        },
        None => false,
    }
}

/// The equation `e1 W_R + z3 F = x W_O + C3`: every group operation in it
/// has a result, and the two sides have the same encoding.
pub open spec fn cross_check(
    x: Scalar,
    w_r: Commitment,
    w_o: Commitment,
    c3: Commitment,
    e1: Scalar,
    z3: Scalar,
) -> bool {
    match (cross_commitment(w_r@, e1@, z3@), pedersen_scale(w_o@, x@)) {
        (Some(left), Some(scaled)) => pedersen_sum(seq![scaled, c3@], seq![]) == Some(left),
        _ => false,
    }
}

/// The verifier's three equations together.
pub open spec fn mul_check(
    x: Scalar,
    w: PedersenWitness,
    sent: MulCommitments,
    answers: (Scalar, Scalar, Scalar, Scalar, Scalar),
) -> bool {
    &&& opening_check(x, w.W_L, sent.c1, answers.0, answers.2)
    &&& opening_check(x, w.W_R, sent.c2, answers.1, answers.3)
    &&& cross_check(x, w.W_R, w.W_O, sent.c3, answers.0, answers.4)
}

/// `((a x mod n) + t) mod n = (a x + t) mod n` for `t` below `n`.
pub proof fn lemma_linear_residue(a: nat, x: nat, t: nat)
    requires
        t < group_order(),
    ensures
        residue((residue((a * x) as int) + t) as int) == residue((a * x + t) as int),
{
    let n = group_order() as int;
    lemma_small_mod(t, group_order());
    lemma_add_mod_noop((a * x) as int, t as int, n);
}

/// `r_O - (l r_R mod n)` and `r_O - l r_R` have the same residue.
pub proof fn lemma_difference_residue(r_o: nat, l: nat, r_r: nat)
    ensures
        residue(r_o - residue((l * r_r) as int)) == residue(r_o - l * r_r),
{
    lemma_sub_mod_noop_right(r_o as int, (l * r_r) as int, group_order() as int);
}

/// `(((d mod n) x mod n) + t) mod n = (d x + t) mod n` for `t` below `n`.
pub proof fn lemma_scaled_residue(d: int, x: nat, t: nat)
    requires
        t < group_order(),
    ensures
        residue(residue(residue(d) * x) + t) == residue(d * x + t),
{
    let n = group_order() as int;
    lemma_mul_mod_noop_general(d, x as int, n);
    lemma_small_mod(t, group_order());
    lemma_add_mod_noop(d * x, t as int, n);
}

impl Pedersen {
    /// Starts a session of the multiplication protocol for the wire values
    /// `l`, `r`, `o` with fresh scalars. Every wire value is taken, zero too.
    /// Whether `o = l r` is the caller's business: a session on other values
    /// ends in a proof that fails.
    ///
    /// The result is the session of `mul_prover_from_blinds` for the eight
    /// scalars that were drawn.
    pub fn generate_mul_prover(&self, value_l: u64, value_r: u64, value_o: u64) -> (res: Result<
        Prover,
        ProofError,
    >)
        ensures
            exists|drawn: MulBlinds|
                drawn.wf() && #[trigger] is_mul_session(value_l, value_r, value_o, drawn, res),
            match res {
                Ok(p) => honest_mul_prover(p, value_l, value_r, value_o),
                Err(e) => e == ProofError::InvalidCommitment,
            },
    {
        let drawn = MulBlinds {
            r_l: self.random_scalar(),
            r_r: self.random_scalar(),
            r_o: self.random_scalar(),
            t1: self.random_scalar(),
            t2: self.random_scalar(),
            t3: self.random_scalar(),
            t4: self.random_scalar(),
            t5: self.random_scalar(),
        };
        let res = self.mul_prover_from_blinds(value_l, value_r, value_o, drawn);
        assert(drawn.wf() && is_mul_session(value_l, value_r, value_o, drawn, res));
        res
    }

    /// The session of the multiplication protocol that the wire values and
    /// the given scalars determine. It exists exactly if the six commitments
    /// do.
    pub fn mul_prover_from_blinds(
        &self,
        value_l: u64,
        value_r: u64,
        value_o: u64,
        drawn: MulBlinds,
    ) -> (res: Result<Prover, ProofError>)
        ensures
            is_mul_session(value_l, value_r, value_o, drawn, res),
            match res {
                Ok(p) => honest_mul_prover(p, value_l, value_r, value_o),
                Err(e) => e == ProofError::InvalidCommitment,
            },
    {
        let w_l = self.commit(value_l, &drawn.r_l)?;
        let w_r = self.commit(value_r, &drawn.r_r)?;
        let w_o = self.commit(value_o, &drawn.r_o)?;
        let c1_commit = self.commit_blind(&drawn.t1, &drawn.t3)?;
        let c2_commit = self.commit_blind(&drawn.t2, &drawn.t5)?;
        let c3_commit = self.cross_term(&w_r, &drawn.t1, &drawn.t4)?;
        Ok(
            Prover {
                r_l: drawn.r_l,
                r_r: drawn.r_r,
                r_o: drawn.r_o,
                value_l,
                value_r,
                value_o,
                witness: PedersenWitness { W_L: w_l, W_R: w_r, W_O: w_o },
                commit_add: None,
                commit_mul: Some(
                    CommitMul {
                        t1: drawn.t1,
                        t2: drawn.t2,
                        t3: drawn.t3,
                        t4: drawn.t4,
                        t5: drawn.t5,
                        c1_commit,
                        c2_commit,
                        c3_commit,
                    },
                ),
            },
        )
    }

    /// `a W_R + b F`.
    fn cross_term(&self, w_r: &Commitment, a: &Scalar, b: &Scalar) -> (res: Result<
        Commitment,
        ProofError,
    >)
        ensures
            crate::pedersen::yields(res, cross_commitment(w_r@, a@, b@)),
    {
        let f = Commitment::generator_f();
        let first = mul_commit_secret(self, w_r, a)?;
        let second = mul_commit_secret(self, &f, b)?;
        self.sum_of_two(first, second)
    }

    /// `a x + t` in the scalar field.
    fn scaled_plus(&self, a: &Scalar, x: &Scalar, t: &Scalar) -> (res: Result<Scalar, ProofError>)
        ensures
            match linear_response(a.value(), x.value(), t.value()) {
                Some(v) => res matches Ok(s) && s.wf() && s.value() == v,
                None => res matches Err(ProofError::InvalidScalar),
            },
    {
        let ctx = self.context();
        let product = match backend::scalar_product(ctx, a, x) {
            Ok(s) => s,
            Err(_) => unreached(),
        };
        let terms = vec![product, *t];
        let none: Vec<Scalar> = Vec::new();
        proof {
            use_type_invariant(t);
            assert(terms@ =~= seq![product, *t]);
            lemma_total_of_two(product, *t);
            assert(total(none@) == 0);
            lemma_linear_residue(a.value(), x.value(), t.value());
        }
        match backend::blind_sum(ctx, terms, none) {
            Ok(s) => Ok(s),
            Err(_) => Err(ProofError::InvalidScalar),
        }
    }

    /// `v x + t` in the scalar field, for a wire value `v`. The wire value
    /// zero is no scalar of the scheme: for it the result is `t`.
    fn value_scaled_plus(&self, v: u64, x: &Scalar, t: &Scalar) -> (res: Result<
        Scalar,
        ProofError,
    >)
        ensures
            match linear_response(v as nat, x.value(), t.value()) {
                Some(e) => res matches Ok(s) && s.wf() && s.value() == e,
                None => res matches Err(ProofError::InvalidScalar),
            },
    {
        if v == 0 {
            proof {
                use_type_invariant(t);
                assert(v * x.value() == 0) by (nonlinear_arith)
                    requires
                        v == 0,
                ;
                lemma_small_mod(t.value(), group_order());
            }
            Ok(*t)
        } else {
            match self.scalar_from_u64(v) {
                Ok(a) => self.scaled_plus(&a, x, t),
                Err(_) => unreached(),
            }
        }
    }

    /// `r_O - l r_R` in the scalar field. For the wire value zero it is
    /// `r_O`.
    fn cross_difference(&self, prover: &Prover) -> (res: Result<Scalar, ProofError>)
        ensures
            match res {
                Ok(d) => d.wf() && d.value() == residue(
                    prover.r_o.value() - prover.value_l * prover.r_r.value(),
                ),
                Err(e) => e == ProofError::InvalidScalar && residue(
                    prover.r_o.value() - prover.value_l * prover.r_r.value(),
                ) == 0,
            },
    {
        let l = prover.value_l;
        if l == 0 {
            proof {
                use_type_invariant(&prover.r_o);
                assert(l * prover.r_r.value() == 0) by (nonlinear_arith)
                    requires
                        l == 0,
                ;
                lemma_small_mod(prover.r_o.value(), group_order());
            }
            Ok(prover.r_o)
        } else {
            let ctx = self.context();
            let wire = match self.scalar_from_u64(l) {
                Ok(a) => a,
                Err(_) => unreached(),
            };
            let product = match backend::scalar_product(ctx, &wire, &prover.r_r) {
                Ok(s) => s,
                Err(_) => unreached(),
            };
            let positive = vec![prover.r_o];
            let negative = vec![product];
            proof {
                assert(positive@ =~= seq![prover.r_o]);
                assert(negative@ =~= seq![product]);
                lemma_total_of_one(prover.r_o);
                lemma_total_of_one(product);
                lemma_difference_residue(prover.r_o.value(), l as nat, prover.r_r.value());
            }
            match backend::blind_sum(ctx, positive, negative) {
                Ok(s) => Ok(s),
                Err(_) => Err(ProofError::InvalidScalar),
            }
        }
    }

    /// `(r_O - l r_R) x + t4` in the scalar field.
    fn cross_scalar(&self, prover: &Prover, x: &Scalar, t4: &Scalar) -> (res: Result<
        Scalar,
        ProofError,
    >)
        ensures
            match cross_response(
                prover.r_o.value(),
                prover.value_l as nat,
                prover.r_r.value(),
                x.value(),
                t4.value(),
            ) {
                Some(v) => res matches Ok(s) && s.wf() && s.value() == v,
                None => res matches Err(ProofError::InvalidScalar),
            },
    {
        let ctx = self.context();
        let difference = self.cross_difference(prover)?;
        let scaled = match backend::scalar_product(ctx, &difference, x) {
            Ok(s) => s,
            Err(_) => unreached(),
        };
        let terms = vec![scaled, *t4];
        let none: Vec<Scalar> = Vec::new();
        proof {
            use_type_invariant(t4);
            assert(terms@ =~= seq![scaled, *t4]);
            lemma_total_of_two(scaled, *t4);
            assert(total(none@) == 0);
            lemma_scaled_residue(
                prover.r_o.value() - prover.value_l * prover.r_r.value(),
                x.value(),
                t4.value(),
            );
        }
        match backend::blind_sum(ctx, terms, none) {
            Ok(s) => Ok(s),
            Err(_) => Err(ProofError::InvalidScalar),
        }
    }

    /// The prover's responses `(e1, e2, z1, z2, z3)` to the challenge `x`.
    ///
    /// A prover without the commit move of the multiplication protocol is
    /// refused as `MissingAuxiliaryState`. `InvalidScalar` says that one of
    /// the responses, or `r_O - l r_R`, is zero in the field.
    pub fn generate_mul_z(&self, x: &Scalar, prover: &Prover) -> (res: Result<
        (Scalar, Scalar, Scalar, Scalar, Scalar),
        ProofError,
    >)
        ensures
            is_mul_answer(*x, *prover, res),
    {
        let aux = match prover.commit_mul {
            Some(aux) => aux,
            None => {
                return Err(ProofError::MissingAuxiliaryState);
            },
        };
        let e1 = self.value_scaled_plus(prover.value_l, x, &aux.t1)?;
        let e2 = self.value_scaled_plus(prover.value_r, x, &aux.t2)?;
        let z1 = self.scaled_plus(&prover.r_l, x, &aux.t3)?;
        let z2 = self.scaled_plus(&prover.r_r, x, &aux.t5)?;
        let z3 = self.cross_scalar(prover, x, &aux.t4)?;
        Ok((e1, e2, z1, z2, z3))
    }

    /// Whether `Com(e, z) = x W + C`: the first and the second of the
    /// verifier's equations have this form.
    pub fn check_opening(&self, x: &Scalar, w: &Commitment, c: &Commitment, e: &Scalar, z: &Scalar) -> (ok:
        bool)
        ensures
            ok == opening_check(*x, *w, *c, *e, *z),
    {
        let scaled = match mul_commit_secret(self, w, x) {
            Ok(p) => p,
            Err(_) => {
                return false;
            },
        };
        let right = match self.sum_of_two(scaled, *c) {
            Ok(p) => p,
            Err(_) => {
                return false;
            },
        };
        match self.commit_blind(e, z) {
            Ok(left) => left.same_as(&right),
            Err(_) => false,
        }
    }

    /// Whether `e1 W_R + z3 F = x W_O + C3`: the third of the verifier's
    /// equations.
    pub fn check_cross(
        &self,
        x: &Scalar,
        witness: &PedersenWitness,
        c3: &Commitment,
        e1: &Scalar,
        z3: &Scalar,
    ) -> (ok: bool)
        ensures
            ok == cross_check(*x, witness.W_R, witness.W_O, *c3, *e1, *z3),
    {
        let left = match self.cross_term(&witness.W_R, e1, z3) {
            Ok(p) => p,
            Err(_) => {
                return false;
            },
        };
        let scaled = match mul_commit_secret(self, &witness.W_O, x) {
            Ok(p) => p,
            Err(_) => {
                return false;
            },
        };
        match self.sum_of_two(scaled, *c3) {
            Ok(right) => left.same_as(&right),
            Err(_) => false,
        }
    }

    /// Whether the responses answer the challenge `x` for the witness and
    /// the commitments `C1`, `C2`, `C3`: whether all three equations hold.
    /// No equation is tried after one that fails.
    pub fn verify_mul(
        &self,
        x: &Scalar,
        witness: &PedersenWitness,
        commits: &MulCommitments,
        answers: (Scalar, Scalar, Scalar, Scalar, Scalar),
    ) -> (ok: bool)
        ensures
            ok == mul_check(*x, *witness, *commits, answers),
    {
        let (e1, e2, z1, z2, z3) = answers;
        if !self.check_opening(x, &witness.W_L, &commits.c1, &e1, &z1) {
            return false;
        }
        if !self.check_opening(x, &witness.W_R, &commits.c2, &e2, &z2) {
            return false;
        }
        self.check_cross(x, witness, &commits.c3, &e1, &z3)
    }
}

/// The responses are a function of the prover's state and the challenge: two
/// answers to one challenge from one state are the same.
pub proof fn lemma_mul_answer_is_determined(
    x: Scalar,
    prover: Prover,
    first: Result<(Scalar, Scalar, Scalar, Scalar, Scalar), ProofError>,
    second: Result<(Scalar, Scalar, Scalar, Scalar, Scalar), ProofError>,
)
    requires
        is_mul_answer(x, prover, first),
        is_mul_answer(x, prover, second),
    ensures
        first == second,
{
    if first is Ok {
        let a = first.unwrap();
        let b = second.unwrap();
        lemma_scalar_determined_by_value(a.0, b.0);
        lemma_scalar_determined_by_value(a.1, b.1);
        lemma_scalar_determined_by_value(a.2, b.2);
        lemma_scalar_determined_by_value(a.3, b.3);
        lemma_scalar_determined_by_value(a.4, b.4);
    }
}

} // verus!
