//! What the addition protocol achieves, in every group that a [`Reading`]
//! describes: honest proofs of true sums are accepted, honest proofs of
//! false sums are rejected, and an accepted proof is bound to its
//! commitments and to its challenge.

use vstd::prelude::*;
use vstd::arithmetic::div_mod::{lemma_mod_twice, lemma_small_mod};
use crate::addition::{add_check, honest_add_prover, is_add_answer};
use crate::backend::{pedersen_commit, pedersen_scale, pedersen_sum};
use crate::commitment::{lemma_commitment_determined_by_bytes, Commitment};
use crate::group::{
    lemma_cancel_factor, lemma_cancel_term, lemma_product_not_zero, lemma_residue_add,
    lemma_residue_mul, lemma_residue_sub, lemma_small_not_zero, no_zero_divisors, product_residue,
    Reading,
};
use crate::prover::{PedersenWitness, Prover};
use crate::scalar::{group_order, lemma_scalar_determined_by_value, residue, Scalar};

verus! {

/// Whether exactly one of the four commitments of a first move was replaced
/// by another.
pub open spec fn one_altered(
    w: PedersenWitness,
    b: Commitment,
    w2: PedersenWitness,
    b2: Commitment,
) -> bool {
    ||| w2.W_L != w.W_L && w2.W_R == w.W_R && w2.W_O == w.W_O && b2 == b
    ||| w2.W_L == w.W_L && w2.W_R != w.W_R && w2.W_O == w.W_O && b2 == b
    ||| w2.W_L == w.W_L && w2.W_R == w.W_R && w2.W_O != w.W_O && b2 == b
    ||| w2.W_L == w.W_L && w2.W_R == w.W_R && w2.W_O == w.W_O && b2 != b
}

/// The verifier's equation between the indices of the points: with
/// `s = W_L + W_R - W_O`, which may not be neutral, `x s + B` has the index
/// `z`.
pub open spec fn add_balance(
    g: Reading,
    x: Scalar,
    w: PedersenWitness,
    b: Commitment,
    z: Scalar,
) -> bool {
    let s = residue((g.index)(w.W_L@) + (g.index)(w.W_R@) - (g.index)(w.W_O@));
    &&& g.encodes(w.W_L@)
    &&& g.encodes(w.W_R@)
    &&& g.encodes(w.W_O@)
    &&& g.encodes(b@)
    &&& s != 0
    &&& residue(s * x.value() + (g.index)(b@)) == z.value()
}

/// In a group that the reading describes, the verifier accepts exactly if
/// the equation holds between the indices.
pub proof fn lemma_add_check_in_group(
    g: Reading,
    x: Scalar,
    w: PedersenWitness,
    b: Commitment,
    z: Scalar,
)
    requires
        g.describes_scheme(),
        no_zero_divisors(),
        x.wf(),
        z.wf(),
    ensures
        add_check(x, w, b, z) == add_balance(g, x, w, b, z),
{
    let k = (g.index)(w.W_L@) + (g.index)(w.W_R@) - (g.index)(w.W_O@);
    let s = residue(k);
    let n = group_order() as int;
    g.lemma_sum_of_two_less_one(w.W_L@, w.W_R@, w.W_O@);
    lemma_small_mod(x.value(), group_order());
    lemma_small_mod(z.value(), group_order());
    if g.encodes(w.W_L@) && g.encodes(w.W_R@) && g.encodes(w.W_O@) && s != 0 {
        let combined = (g.encoding)(s);
        assert(pedersen_sum(seq![w.W_L@, w.W_R@], seq![w.W_O@]) == Some(combined));
        g.lemma_point_some(k, combined);
        lemma_mod_twice(k, n);
        lemma_product_not_zero(s, x.value() as int);
        let scaled = (g.encoding)(residue(s * x.value()));
        assert(pedersen_scale(combined, x@) == Some(scaled));
        g.lemma_point_some(s * x.value(), scaled);
        g.lemma_sum_of_two(scaled, b@);
        if g.encodes(b@) {
            let m = residue(s * x.value()) + (g.index)(b@);
            lemma_residue_add(s * x.value(), (g.index)(b@));
            assert(pedersen_commit(0, z@) == g.point(z.value() + 0 * g.h));
            assert(pedersen_commit(0, z@) == Some((g.encoding)(z.value() as int)));
            assert(pedersen_sum(seq![scaled, b@], seq![]) == g.point(m));
            if add_check(x, w, b, z) {
                g.lemma_point_equal(m, z.value() as int);
            }
        }
    }
}

/// Completeness: in a group that the reading describes, the response of a
/// prover that committed to `l`, `r` and `o = l + r` is accepted, whatever
/// the challenge.
pub proof fn lemma_honest_sum_verifies(
    g: Reading,
    prover: Prover,
    l: u64,
    r: u64,
    o: u64,
    x: Scalar,
    z: Scalar,
)
    requires
        g.describes_scheme(),
        no_zero_divisors(),
        honest_add_prover(prover, l, r, o),
        prover.r_l.wf(),
        prover.r_r.wf(),
        prover.r_o.wf(),
        prover.commit_add.unwrap().r_b.wf(),
        x.wf(),
        o == l + r,
        is_add_answer(x, prover, Ok(z)),
    ensures
        add_check(x, prover.witness, prover.commit_add.unwrap().b_commit, z),
{
    let aux = prover.commit_add.unwrap();
    let w = prover.witness;
    let (r_l, r_r, r_o, r_b) = (
        prover.r_l.value() as int,
        prover.r_r.value() as int,
        prover.r_o.value() as int,
        aux.r_b.value() as int,
    );
    let xv = x.value() as int;
    let (a, b, c) = (r_l + l * g.h, r_r + r * g.h, r_o + o * g.h);
    g.lemma_point_some(a, w.W_L@);
    g.lemma_point_some(b, w.W_R@);
    g.lemma_point_some(c, w.W_O@);
    g.lemma_point_some(r_b + 0 * g.h, aux.b_commit@);
    lemma_small_mod(r_b as nat, group_order());
    let d = r_l + r_r - r_o;
    let s = residue(residue(a) + residue(b) - residue(c));
    assert(s == residue(d)) by {
        lemma_residue_add(a, b);
        lemma_residue_sub(residue(a) + residue(b), c);
        lemma_residue_sub(a + b, c);
        assert(l * g.h + r * g.h - o * g.h == 0) by (nonlinear_arith)
            requires
                o == l + r,
        ;
        assert(a + b - c == d);
    }
    assert(residue(s * xv + r_b) == z.value()) by {
        lemma_residue_mul(d, xv);
        lemma_residue_add(s * xv, r_b);
        lemma_residue_add(d * xv, r_b);
        assert(d * xv == xv * d) by (nonlinear_arith);
    }
    lemma_add_check_in_group(g, x, w, aux.b_commit, z);
}

/// A response that is accepted for one witness and one `B` is rejected as
/// soon as one of `W_L`, `W_R`, `W_O`, `B` is replaced by another
/// commitment, in a group that the reading describes.
pub proof fn lemma_altered_sum_fails(
    g: Reading,
    x: Scalar,
    w: PedersenWitness,
    b: Commitment,
    z: Scalar,
    w2: PedersenWitness,
    b2: Commitment,
)
    requires
        g.describes_scheme(),
        no_zero_divisors(),
        x.wf(),
        z.wf(),
        add_check(x, w, b, z),
        one_altered(w, b, w2, b2),
    ensures
        !add_check(x, w2, b2, z),
{
    lemma_add_check_in_group(g, x, w, b, z);
    lemma_add_check_in_group(g, x, w2, b2, z);
    if add_check(x, w2, b2, z) {
        let xv = x.value() as int;
        let k = (g.index)(w.W_L@) + (g.index)(w.W_R@) - (g.index)(w.W_O@);
        let k2 = (g.index)(w2.W_L@) + (g.index)(w2.W_R@) - (g.index)(w2.W_O@);
        let (i, i2) = ((g.index)(b@), (g.index)(b2@));
        lemma_small_mod(x.value(), group_order());
        if b2 != b {
            if b2@ == b@ {
                lemma_commitment_determined_by_bytes(b2, b);
            }
            g.lemma_index_distinct(b@, b2@);
            assert(residue(i + residue(k) * xv) == residue(i2 + residue(k) * xv));
            lemma_cancel_term(i, i2, residue(k) * xv);
            lemma_small_mod(i as nat, group_order());
            lemma_small_mod(i2 as nat, group_order());
        } else {
            lemma_cancel_term(residue(k) * xv, residue(k2) * xv, i);
            assert(residue(k) * xv == xv * residue(k)) by (nonlinear_arith);
            assert(residue(k2) * xv == xv * residue(k2)) by (nonlinear_arith);
            lemma_cancel_factor(xv, residue(k), residue(k2));
            lemma_mod_twice(k, group_order() as int);
            lemma_mod_twice(k2, group_order() as int);
            assert(residue(k) == residue(k2));
            if w2.W_L != w.W_L {
                if w2.W_L@ == w.W_L@ {
                    lemma_commitment_determined_by_bytes(w2.W_L, w.W_L);
                }
                g.lemma_index_distinct(w.W_L@, w2.W_L@);
                let rest = (g.index)(w.W_R@) - (g.index)(w.W_O@);
                lemma_cancel_term((g.index)(w.W_L@), (g.index)(w2.W_L@), rest);
                lemma_small_mod((g.index)(w.W_L@) as nat, group_order());
                lemma_small_mod((g.index)(w2.W_L@) as nat, group_order());
            } else if w2.W_R != w.W_R {
                if w2.W_R@ == w.W_R@ {
                    lemma_commitment_determined_by_bytes(w2.W_R, w.W_R);
                }
                g.lemma_index_distinct(w.W_R@, w2.W_R@);
                let rest = (g.index)(w.W_L@) - (g.index)(w.W_O@);
                lemma_cancel_term((g.index)(w.W_R@), (g.index)(w2.W_R@), rest);
                lemma_small_mod((g.index)(w.W_R@) as nat, group_order());
                lemma_small_mod((g.index)(w2.W_R@) as nat, group_order());
            } else {
                if w2.W_O@ == w.W_O@ {
                    lemma_commitment_determined_by_bytes(w2.W_O, w.W_O);
                }
                g.lemma_index_distinct(w.W_O@, w2.W_O@);
                let rest = (g.index)(w.W_L@) + (g.index)(w.W_R@);
                lemma_cancel_term(-(g.index)(w.W_O@), -(g.index)(w2.W_O@), rest);
                lemma_residue_sub(0, (g.index)(w.W_O@));
                lemma_residue_sub(0, (g.index)(w2.W_O@));
                lemma_cancel_term(
                    (g.index)(w.W_O@),
                    (g.index)(w2.W_O@),
                    -(g.index)(w.W_O@) - (g.index)(w2.W_O@),
                );
                lemma_small_mod((g.index)(w.W_O@) as nat, group_order());
                lemma_small_mod((g.index)(w2.W_O@) as nat, group_order());
            }
        }
    }
}

/// A response that is accepted for the challenge `x` is rejected for every
/// other challenge, in a group that the reading describes.
pub proof fn lemma_other_challenge_fails(
    g: Reading,
    x: Scalar,
    x2: Scalar,
    w: PedersenWitness,
    b: Commitment,
    z: Scalar,
)
    requires
        g.describes_scheme(),
        no_zero_divisors(),
        x.wf(),
        x2.wf(),
        z.wf(),
        add_check(x, w, b, z),
        x2 != x,
    ensures
        !add_check(x2, w, b, z),
{
    lemma_add_check_in_group(g, x, w, b, z);
    lemma_add_check_in_group(g, x2, w, b, z);
    if add_check(x2, w, b, z) {
        let k = (g.index)(w.W_L@) + (g.index)(w.W_R@) - (g.index)(w.W_O@);
        let s = residue(k);
        lemma_mod_twice(k, group_order() as int);
        lemma_cancel_term(s * x.value(), s * x2.value(), (g.index)(b@));
        lemma_cancel_factor(s, x.value() as int, x2.value() as int);
        lemma_small_mod(x.value(), group_order());
        lemma_small_mod(x2.value(), group_order());
        lemma_scalar_determined_by_value(x, x2);
    }
}

/// Soundness against an honest prover with wrong values: in a group that the
/// reading describes, the response of a prover that committed to `l`, `r`
/// and an `o` other than `l + r` is rejected, whatever the challenge.
pub proof fn lemma_wrong_sum_fails(
    g: Reading,
    prover: Prover,
    l: u64,
    r: u64,
    o: u64,
    x: Scalar,
    z: Scalar,
)
    requires
        g.describes_scheme(),
        no_zero_divisors(),
        honest_add_prover(prover, l, r, o),
        prover.r_l.wf(),
        prover.r_r.wf(),
        prover.r_o.wf(),
        prover.commit_add.unwrap().r_b.wf(),
        x.wf(),
        o != l + r,
        is_add_answer(x, prover, Ok(z)),
    ensures
        !add_check(x, prover.witness, prover.commit_add.unwrap().b_commit, z),
{
    let aux = prover.commit_add.unwrap();
    let w = prover.witness;
    lemma_add_check_in_group(g, x, w, aux.b_commit, z);
    if add_check(x, w, aux.b_commit, z) {
        let (r_l, r_r, r_o, r_b) = (
            prover.r_l.value() as int,
            prover.r_r.value() as int,
            prover.r_o.value() as int,
            aux.r_b.value() as int,
        );
        let xv = x.value() as int;
        let (a, b, c) = (r_l + l * g.h, r_r + r * g.h, r_o + o * g.h);
        g.lemma_point_some(a, w.W_L@);
        g.lemma_point_some(b, w.W_R@);
        g.lemma_point_some(c, w.W_O@);
        g.lemma_point_some(r_b + 0 * g.h, aux.b_commit@);
        lemma_small_mod(r_b as nat, group_order());
        lemma_small_mod(x.value(), group_order());
        let d = r_l + r_r - r_o;
        let e = l + r - o;
        let s = residue(residue(a) + residue(b) - residue(c));
        assert(s == residue(d + e * g.h)) by {
            lemma_residue_add(a, b);
            lemma_residue_sub(residue(a) + residue(b), c);
            lemma_residue_sub(a + b, c);
            assert(l * g.h + r * g.h - o * g.h == e * g.h) by (nonlinear_arith)
                requires
                    e == l + r - o,
            ;
            assert(a + b - c == d + e * g.h);
        }
        // x s + r_b and x d + r_b have the same residue, so s and d have.
        assert(residue(s * xv + r_b) == residue(d * xv + r_b)) by {
            assert(d * xv == xv * d) by (nonlinear_arith);
        }
        lemma_cancel_term(s * xv, d * xv, r_b);
        assert(s * xv == xv * s) by (nonlinear_arith);
        assert(d * xv == xv * d) by (nonlinear_arith);
        lemma_cancel_factor(xv, s, d);
        lemma_mod_twice(d + e * g.h, group_order() as int);
        assert(residue(d + e * g.h) == residue(d));
        assert(residue(e * g.h) == 0) by {
            lemma_residue_sub(d + e * g.h, d);
            lemma_residue_sub(d, d);
            assert(d + e * g.h - d == e * g.h);
        }
        assert(product_residue(e, g.h) == 0);
        lemma_small_mod(g.h as nat, group_order());
        lemma_small_not_zero(e);
    }
}

} // verus!
