//! What the multiplication protocol achieves, in every group that a
//! [`Reading`] describes: honest proofs of true products are accepted,
//! honest proofs of false products fail the third equation, and an accepted
//! proof is bound to its commitments and to its challenge.

use vstd::prelude::*;
use vstd::arithmetic::div_mod::lemma_small_mod;
use crate::backend::{pedersen_commit_blind, pedersen_scale, pedersen_sum};
use crate::commitment::{generator_f_bytes, lemma_commitment_determined_by_bytes, Commitment};
use crate::group::{
    congruent, lemma_cancel_factor, lemma_cancel_term, lemma_congruent_add, lemma_congruent_mul,
    lemma_congruent_residue, lemma_product_not_zero, lemma_residue_add, lemma_residue_sub,
    lemma_small_not_zero, no_zero_divisors, product_residue, Reading,
};
use crate::multiplication::{
    cross_check, cross_commitment, honest_mul_prover, is_mul_answer, mul_check, opening_check,
};
use crate::prover::{MulCommitments, PedersenWitness, Prover};
use crate::scalar::{group_order, lemma_scalar_determined_by_value, residue, Scalar};

verus! {

/// Whether exactly one of the six commitments of a first move was replaced
/// by another.
pub open spec fn one_altered_mul(
    w: PedersenWitness,
    sent: MulCommitments,
    w2: PedersenWitness,
    sent2: MulCommitments,
) -> bool {
    let same_l = w2.W_L == w.W_L;
    let same_r = w2.W_R == w.W_R;
    let same_o = w2.W_O == w.W_O;
    let same_1 = sent2.c1 == sent.c1;
    let same_2 = sent2.c2 == sent.c2;
    let same_3 = sent2.c3 == sent.c3;
    ||| !same_l && same_r && same_o && same_1 && same_2 && same_3
    ||| same_l && !same_r && same_o && same_1 && same_2 && same_3
    ||| same_l && same_r && !same_o && same_1 && same_2 && same_3
    ||| same_l && same_r && same_o && !same_1 && same_2 && same_3
    ||| same_l && same_r && same_o && same_1 && !same_2 && same_3
    ||| same_l && same_r && same_o && same_1 && same_2 && !same_3
}

/// An equation `Com(e, z) = x W + C` between the indices of the points:
/// neither side is neutral, and `x W + C` has the index `z + e h`.
pub open spec fn opening_balance(
    g: Reading,
    x: Scalar,
    w: Commitment,
    c: Commitment,
    e: Scalar,
    z: Scalar,
) -> bool {
    &&& g.encodes(w@)
    &&& g.encodes(c@)
    &&& residue(z.value() + e.value() * g.h) != 0
    &&& residue((g.index)(w@) * x.value() + (g.index)(c@)) == residue(z.value() + e.value() * g.h)
}

/// The equation `e1 W_R + z3 F = x W_O + C3` between the indices of the
/// points.
pub open spec fn cross_balance(
    g: Reading,
    x: Scalar,
    w_r: Commitment,
    w_o: Commitment,
    c3: Commitment,
    e1: Scalar,
    z3: Scalar,
) -> bool {
    &&& g.encodes(w_r@)
    &&& g.encodes(w_o@)
    &&& g.encodes(c3@)
    &&& residue((g.index)(w_r@) * e1.value() + z3.value()) != 0
    &&& residue((g.index)(w_o@) * x.value() + (g.index)(c3@)) == residue(
        (g.index)(w_r@) * e1.value() + z3.value(),
    )
}

/// `s W` in a group that the reading describes: a point, with the index of
/// `W` multiplied by `s`.
pub proof fn lemma_scale_in_group(g: Reading, w: Seq<u8>, s: Scalar)
    requires
        g.describes_scheme(),
        no_zero_divisors(),
        s.wf(),
    ensures
        g.encodes(w) ==> pedersen_scale(w, s@) == Some(
            (g.encoding)(residue((g.index)(w) * s.value())),
        ) && residue((g.index)(w) * s.value()) != 0,
        !g.encodes(w) ==> pedersen_scale(w, s@) is None,
{
    if g.encodes(w) {
        lemma_small_mod((g.index)(w) as nat, group_order());
        lemma_small_mod(s.value(), group_order());
        lemma_product_not_zero((g.index)(w), s.value() as int);
    }
}

/// `a W_R + b F` in a group that the reading describes.
pub proof fn lemma_cross_commitment_in_group(g: Reading, w_r: Seq<u8>, a: Scalar, b: Scalar)
    requires
        g.describes_scheme(),
        no_zero_divisors(),
        a.wf(),
        b.wf(),
    ensures
        cross_commitment(w_r, a@, b@) == (if g.encodes(w_r) {
            g.point((g.index)(w_r) * a.value() + b.value())
        } else {
            None
        }),
{
    let f = generator_f_bytes();
    assert((g.index)((g.encoding)(1)) == 1);
    assert(g.encodes(f));
    lemma_scale_in_group(g, f, b);
    lemma_scale_in_group(g, w_r, a);
    lemma_small_mod(b.value(), group_order());
    if g.encodes(w_r) {
        let first = (g.encoding)(residue((g.index)(w_r) * a.value()));
        let second = (g.encoding)(residue(1int * b.value()));
        g.lemma_point_some((g.index)(w_r) * a.value(), first);
        g.lemma_point_some(1int * b.value(), second);
        g.lemma_sum_of_two(first, second);
        lemma_residue_add((g.index)(w_r) * a.value(), b.value() as int);
        assert(g.point(residue((g.index)(w_r) * a.value()) + b.value()) == g.point(
            (g.index)(w_r) * a.value() + b.value(),
        ));
    }
}

/// In a group that the reading describes, an equation of the first form
/// holds exactly if it holds between the indices.
pub proof fn lemma_opening_check_in_group(
    g: Reading,
    x: Scalar,
    w: Commitment,
    c: Commitment,
    e: Scalar,
    z: Scalar,
)
    requires
        g.describes_scheme(),
        no_zero_divisors(),
        x.wf(),
        e.wf(),
        z.wf(),
    ensures
        opening_check(x, w, c, e, z) == opening_balance(g, x, w, c, e, z),
{
    lemma_scale_in_group(g, w@, x);
    if g.encodes(w@) {
        let k = (g.index)(w@) * x.value();
        let scaled = (g.encoding)(residue(k));
        g.lemma_point_some(k, scaled);
        g.lemma_sum_of_two(scaled, c@);
        if g.encodes(c@) {
            let m = residue(k) + (g.index)(c@);
            lemma_residue_add(k, (g.index)(c@));
            let left = z.value() + e.value() * g.h;
            assert(pedersen_commit_blind(e@, z@) == g.point(left));
            assert(pedersen_sum(seq![scaled, c@], seq![]) == g.point(m));
            if opening_check(x, w, c, e, z) {
                g.lemma_point_equal(m, left);
            }
        }
    }
}

/// In a group that the reading describes, the third equation holds exactly
/// if it holds between the indices.
pub proof fn lemma_cross_check_in_group(
    g: Reading,
    x: Scalar,
    w_r: Commitment,
    w_o: Commitment,
    c3: Commitment,
    e1: Scalar,
    z3: Scalar,
)
    requires
        g.describes_scheme(),
        no_zero_divisors(),
        x.wf(),
        e1.wf(),
        z3.wf(),
    ensures
        cross_check(x, w_r, w_o, c3, e1, z3) == cross_balance(g, x, w_r, w_o, c3, e1, z3),
{
    lemma_cross_commitment_in_group(g, w_r@, e1, z3);
    lemma_scale_in_group(g, w_o@, x);
    if g.encodes(w_r@) && g.encodes(w_o@) {
        let left = (g.index)(w_r@) * e1.value() + z3.value();
        let k = (g.index)(w_o@) * x.value();
        let scaled = (g.encoding)(residue(k));
        g.lemma_point_some(k, scaled);
        g.lemma_sum_of_two(scaled, c3@);
        if g.encodes(c3@) {
            let m = residue(k) + (g.index)(c3@);
            lemma_residue_add(k, (g.index)(c3@));
            assert(pedersen_sum(seq![scaled, c3@], seq![]) == g.point(m));
            if cross_check(x, w_r, w_o, c3, e1, z3) {
                g.lemma_point_equal(m, left);
            }
        }
    }
}

/// The first equation of an honest prover holds between the indices, where
/// its left side is a point.
proof fn lemma_honest_opening(
    g: Reading,
    x: Scalar,
    w: Commitment,
    c: Commitment,
    e: Scalar,
    z: Scalar,
    v: int,
    r: int,
    t_e: int,
    t_z: int,
)
    requires
        g.describes_scheme(),
        no_zero_divisors(),
        x.wf(),
        e.wf(),
        z.wf(),
        g.point(r + v * g.h) == Some(w@),
        g.point(t_z + t_e * g.h) == Some(c@),
        e.value() == residue(v * x.value() + t_e),
        z.value() == residue(r * x.value() + t_z),
        pedersen_commit_blind(e@, z@) is Some,
    ensures
        opening_check(x, w, c, e, z),
{
    let xv = x.value() as int;
    let h = g.h;
    g.lemma_point_some(r + v * h, w@);
    g.lemma_point_some(t_z + t_e * h, c@);
    assert(pedersen_commit_blind(e@, z@) == g.point(z.value() + e.value() * h));
    // right side
    lemma_congruent_residue(r + v * h);
    lemma_congruent_residue(t_z + t_e * h);
    lemma_congruent_mul((g.index)(w@), r + v * h, xv, xv);
    lemma_congruent_add((g.index)(w@) * xv, (r + v * h) * xv, (g.index)(c@), t_z + t_e * h);
    // left side
    lemma_congruent_residue(v * xv + t_e);
    lemma_congruent_residue(r * xv + t_z);
    lemma_congruent_mul(e.value() as int, v * xv + t_e, h, h);
    lemma_congruent_add(
        z.value() as int,
        r * xv + t_z,
        e.value() * h,
        (v * xv + t_e) * h,
    );
    assert((r + v * h) * xv + (t_z + t_e * h) == (r * xv + t_z) + (v * xv + t_e) * h)
        by (nonlinear_arith);
    lemma_opening_check_in_group(g, x, w, c, e, z);
}

/// Completeness: in a group that the reading describes, the responses of a
/// prover that committed to `l`, `r` and `o = l r` are accepted, whatever the
/// challenge, provided that the left side of each equation is a point and
/// not the neutral element.
pub proof fn lemma_honest_product_verifies(
    g: Reading,
    prover: Prover,
    l: u64,
    r: u64,
    o: u64,
    x: Scalar,
    answers: (Scalar, Scalar, Scalar, Scalar, Scalar),
)
    requires
        g.describes_scheme(),
        no_zero_divisors(),
        honest_mul_prover(prover, l, r, o),
        prover.r_l.wf(),
        prover.r_r.wf(),
        prover.r_o.wf(),
        prover.commit_mul.unwrap().t1.wf(),
        prover.commit_mul.unwrap().t2.wf(),
        prover.commit_mul.unwrap().t3.wf(),
        prover.commit_mul.unwrap().t4.wf(),
        prover.commit_mul.unwrap().t5.wf(),
        x.wf(),
        o == l * r,
        is_mul_answer(x, prover, Ok(answers)),
        pedersen_commit_blind(answers.0@, answers.2@) is Some,
        pedersen_commit_blind(answers.1@, answers.3@) is Some,
        cross_commitment(prover.witness.W_R@, answers.0@, answers.4@) is Some,
    ensures
        mul_check(x, prover.witness, prover.commit_mul.unwrap().commitments_sent(), answers),
{
    let aux = prover.commit_mul.unwrap();
    let w = prover.witness;
    let (e1, e2, z1, z2, z3) = answers;
    let h = g.h;
    let xv = x.value() as int;
    let (r_l, r_r, r_o) = (
        prover.r_l.value() as int,
        prover.r_r.value() as int,
        prover.r_o.value() as int,
    );
    let (t1, t2, t3, t4, t5) = (
        aux.t1.value() as int,
        aux.t2.value() as int,
        aux.t3.value() as int,
        aux.t4.value() as int,
        aux.t5.value() as int,
    );
    lemma_honest_opening(g, x, w.W_L, aux.c1_commit, e1, z1, l as int, r_l, t1, t3);
    lemma_honest_opening(g, x, w.W_R, aux.c2_commit, e2, z2, r as int, r_r, t2, t5);
    lemma_honest_cross(g, prover, l, r, o, x, e1, z3);
}

/// The third equation of an honest prover with `o = l r` holds, where its
/// left side is a point.
proof fn lemma_honest_cross(
    g: Reading,
    prover: Prover,
    l: u64,
    r: u64,
    o: u64,
    x: Scalar,
    e1: Scalar,
    z3: Scalar,
)
    requires
        g.describes_scheme(),
        no_zero_divisors(),
        honest_mul_prover(prover, l, r, o),
        prover.r_r.wf(),
        prover.r_o.wf(),
        prover.commit_mul.unwrap().t1.wf(),
        prover.commit_mul.unwrap().t4.wf(),
        x.wf(),
        e1.wf(),
        z3.wf(),
        o == l * r,
        e1.value() == residue(l * x.value() + prover.commit_mul.unwrap().t1.value()),
        z3.value() == residue(
            (prover.r_o.value() - l * prover.r_r.value()) * x.value()
                + prover.commit_mul.unwrap().t4.value(),
        ),
        cross_commitment(prover.witness.W_R@, e1@, z3@) is Some,
    ensures
        cross_check(
            x,
            prover.witness.W_R,
            prover.witness.W_O,
            prover.commit_mul.unwrap().c3_commit,
            e1,
            z3,
        ),
{
    let aux = prover.commit_mul.unwrap();
    let w = prover.witness;
    let h = g.h;
    let xv = x.value() as int;
    let (r_r, r_o) = (prover.r_r.value() as int, prover.r_o.value() as int);
    let (t1, t4) = (aux.t1.value() as int, aux.t4.value() as int);
    lemma_honest_cross_sides(g, prover, l, r, o, x, e1, z3);
    let b = r_r + r * h;
    let d = r_o - l * r_r;
    assert(b * (l * xv + t1) + (d * xv + t4) == (r_o + o * h) * xv + (b * t1 + t4)) by {
        lemma_cross_difference(r_r, r_o, r as int, l as int, o as int, h, xv, t1, t4);
        assert(l * r - o == 0);
        assert(h * (l * r - o) == 0);
        assert(xv * (h * (l * r - o)) == 0);
    }
    lemma_cross_commitment_in_group(g, w.W_R@, e1, z3);
    lemma_cross_check_in_group(g, x, w.W_R, w.W_O, aux.c3_commit, e1, z3);
}

/// The two sides of the third equation of an honest prover, as polynomials
/// in what the prover holds: the left side is
/// `(r_R + r h) (l x + t1) + (r_O - l r_R) x + t4`, the right side
/// `(r_O + o h) x + (r_R + r h) t1 + t4`.
proof fn lemma_honest_cross_sides(
    g: Reading,
    prover: Prover,
    l: u64,
    r: u64,
    o: u64,
    x: Scalar,
    e1: Scalar,
    z3: Scalar,
)
    requires
        g.describes_scheme(),
        no_zero_divisors(),
        honest_mul_prover(prover, l, r, o),
        prover.r_r.wf(),
        prover.r_o.wf(),
        prover.commit_mul.unwrap().t1.wf(),
        prover.commit_mul.unwrap().t4.wf(),
        e1.value() == residue(l * x.value() + prover.commit_mul.unwrap().t1.value()),
        z3.value() == residue(
            (prover.r_o.value() - l * prover.r_r.value()) * x.value()
                + prover.commit_mul.unwrap().t4.value(),
        ),
    ensures
        g.encodes(prover.witness.W_R@),
        g.encodes(prover.witness.W_O@),
        g.encodes(prover.commit_mul.unwrap().c3_commit@),
        congruent(
            (g.index)(prover.witness.W_R@) * e1.value() + z3.value(),
            (prover.r_r.value() + r * g.h) * (l * x.value() + prover.commit_mul.unwrap().t1.value())
                + ((prover.r_o.value() - l * prover.r_r.value()) * x.value()
                + prover.commit_mul.unwrap().t4.value()),
        ),
        congruent(
            (g.index)(prover.witness.W_O@) * x.value() + (g.index)(
                prover.commit_mul.unwrap().c3_commit@,
            ),
            (prover.r_o.value() + o * g.h) * x.value() + ((prover.r_r.value() + r * g.h)
                * prover.commit_mul.unwrap().t1.value() + prover.commit_mul.unwrap().t4.value()),
        ),
{
    let aux = prover.commit_mul.unwrap();
    let w = prover.witness;
    let h = g.h;
    let xv = x.value() as int;
    let (r_r, r_o) = (prover.r_r.value() as int, prover.r_o.value() as int);
    let (t1, t4) = (aux.t1.value() as int, aux.t4.value() as int);
    let rho = (g.index)(w.W_R@);
    g.lemma_point_some(r_r + r * h, w.W_R@);
    g.lemma_point_some(r_o + o * h, w.W_O@);
    lemma_cross_commitment_in_group(g, w.W_R@, aux.t1, aux.t4);
    g.lemma_point_some(rho * t1 + t4, aux.c3_commit@);
    let left = rho * e1.value() + z3.value();
    let right = (g.index)(w.W_O@) * xv + (g.index)(aux.c3_commit@);
    let b = r_r + r * h;
    let d = r_o - l * r_r;
    assert(congruent(left, b * (l * xv + t1) + (d * xv + t4))) by {
        lemma_congruent_residue(b);
        lemma_congruent_residue(l * xv + t1);
        lemma_congruent_residue(d * xv + t4);
        lemma_congruent_mul(rho, b, e1.value() as int, l * xv + t1);
        lemma_congruent_add(rho * e1.value(), b * (l * xv + t1), z3.value() as int, d * xv + t4);
    }
    assert(congruent(right, (r_o + o * h) * xv + (b * t1 + t4))) by {
        lemma_congruent_residue(r_o + o * h);
        lemma_congruent_residue(b);
        lemma_congruent_residue(rho * t1 + t4);
        lemma_congruent_mul((g.index)(w.W_O@), r_o + o * h, xv, xv);
        lemma_congruent_mul(rho, b, t1, t1);
        lemma_congruent_add(rho * t1, b * t1, t4, t4);
        lemma_congruent_add(
            (g.index)(w.W_O@) * xv,
            (r_o + o * h) * xv,
            (g.index)(aux.c3_commit@),
            b * t1 + t4,
        );
    }
}

/// The difference of the two sides of the third equation is `x h (l r - o)`.
proof fn lemma_cross_difference(
    r_r: int,
    r_o: int,
    r: int,
    l: int,
    o: int,
    h: int,
    x: int,
    t1: int,
    t4: int,
)
    ensures
        ((r_r + r * h) * (l * x + t1) + ((r_o - l * r_r) * x + t4)) - ((r_o + o * h) * x + ((r_r
            + r * h) * t1 + t4)) == x * (h * (l * r - o)),
{
    let b = r_r + r * h;
    let lx = l * x;
    assert(b * (lx + t1) == b * lx + b * t1) by (nonlinear_arith);
    assert(b * lx == r_r * lx + (r * h) * lx) by (nonlinear_arith)
        requires
            b == r_r + r * h,
    ;
    assert((r_o - l * r_r) * x == r_o * x - (l * r_r) * x) by (nonlinear_arith);
    assert((l * r_r) * x == r_r * lx) by (nonlinear_arith)
        requires
            lx == l * x,
    ;
    assert((r_o + o * h) * x == r_o * x + (o * h) * x) by (nonlinear_arith);
    assert((r * h) * lx == x * (h * (l * r))) by (nonlinear_arith)
        requires
            lx == l * x,
    ;
    assert((o * h) * x == x * (h * o)) by (nonlinear_arith);
    assert(x * (h * (l * r)) - x * (h * o) == x * (h * (l * r - o))) by (nonlinear_arith);
}

/// Soundness against an honest prover with wrong values: in a group that the
/// reading describes, the responses of a prover that committed to `l`, `r`
/// and an `o` other than `l r` fail the third equation, whatever the
/// challenge.
pub proof fn lemma_wrong_product_fails(
    g: Reading,
    prover: Prover,
    l: u64,
    r: u64,
    o: u64,
    x: Scalar,
    answers: (Scalar, Scalar, Scalar, Scalar, Scalar),
)
    requires
        g.describes_scheme(),
        no_zero_divisors(),
        honest_mul_prover(prover, l, r, o),
        prover.r_r.wf(),
        prover.r_o.wf(),
        prover.commit_mul.unwrap().t1.wf(),
        prover.commit_mul.unwrap().t4.wf(),
        x.wf(),
        o != l * r,
        is_mul_answer(x, prover, Ok(answers)),
    ensures
        !cross_check(
            x,
            prover.witness.W_R,
            prover.witness.W_O,
            prover.commit_mul.unwrap().c3_commit,
            answers.0,
            answers.4,
        ),
        !mul_check(x, prover.witness, prover.commit_mul.unwrap().commitments_sent(), answers),
{
    let aux = prover.commit_mul.unwrap();
    let w = prover.witness;
    let (e1, z3) = (answers.0, answers.4);
    lemma_cross_check_in_group(g, x, w.W_R, w.W_O, aux.c3_commit, e1, z3);
    if cross_check(x, w.W_R, w.W_O, aux.c3_commit, e1, z3) {
        let h = g.h;
        let xv = x.value() as int;
        let (r_r, r_o) = (prover.r_r.value() as int, prover.r_o.value() as int);
        let (t1, t4) = (aux.t1.value() as int, aux.t4.value() as int);
        lemma_honest_cross_sides(g, prover, l, r, o, x, e1, z3);
        let b = r_r + r * h;
        let d = r_o - l * r_r;
        let left = b * (l * xv + t1) + (d * xv + t4);
        let right = (r_o + o * h) * xv + (b * t1 + t4);
        let e = l * r - o;
        assert(left - right == xv * (h * e)) by {
            lemma_cross_difference(r_r, r_o, r as int, l as int, o as int, h, xv, t1, t4);
        }
        assert(residue(left) == residue(right));
        lemma_residue_sub(left, right);
        assert(product_residue(xv, h * e) == 0);
        lemma_small_mod(x.value(), group_order());
        assert(product_residue(h, e) == 0);
        lemma_small_mod(h as nat, group_order());
        assert(0 <= l * r <= 0xffff_ffff_ffff_ffff * 0xffff_ffff_ffff_ffff) by (nonlinear_arith)
            requires
                0 <= l <= 0xffff_ffff_ffff_ffff,
                0 <= r <= 0xffff_ffff_ffff_ffff,
        ;
        lemma_small_not_zero(e);
    }
}

/// An equation of the first form determines `W` and `C` from each other: if
/// it holds for two pairs that share one of the two, they share both.
pub proof fn lemma_opening_determines(
    g: Reading,
    x: Scalar,
    w: Commitment,
    c: Commitment,
    w2: Commitment,
    c2: Commitment,
    e: Scalar,
    z: Scalar,
)
    requires
        g.describes_scheme(),
        no_zero_divisors(),
        x.wf(),
        e.wf(),
        z.wf(),
        opening_check(x, w, c, e, z),
        opening_check(x, w2, c2, e, z),
        w2 == w || c2 == c,
    ensures
        w2 == w,
        c2 == c,
{
    lemma_opening_check_in_group(g, x, w, c, e, z);
    lemma_opening_check_in_group(g, x, w2, c2, e, z);
    let xv = x.value() as int;
    let (i, i2) = ((g.index)(w@), (g.index)(w2@));
    let (j, j2) = ((g.index)(c@), (g.index)(c2@));
    lemma_small_mod(x.value(), group_order());
    lemma_small_mod(i as nat, group_order());
    lemma_small_mod(i2 as nat, group_order());
    lemma_small_mod(j as nat, group_order());
    lemma_small_mod(j2 as nat, group_order());
    if c2 == c {
        lemma_cancel_term(i * xv, i2 * xv, j);
        assert(i * xv == xv * i) by (nonlinear_arith);
        assert(i2 * xv == xv * i2) by (nonlinear_arith);
        lemma_cancel_factor(xv, i, i2);
        lemma_commitment_determined_by_bytes(w2, w);
    } else {
        lemma_cancel_term(j, j2, i * xv);
        lemma_commitment_determined_by_bytes(c2, c);
    }
}

/// The third equation determines `W_O` and `C3` from each other, for one
/// `W_R`.
pub proof fn lemma_cross_determines(
    g: Reading,
    x: Scalar,
    w_r: Commitment,
    w_o: Commitment,
    c3: Commitment,
    w_o2: Commitment,
    c32: Commitment,
    e1: Scalar,
    z3: Scalar,
)
    requires
        g.describes_scheme(),
        no_zero_divisors(),
        x.wf(),
        e1.wf(),
        z3.wf(),
        cross_check(x, w_r, w_o, c3, e1, z3),
        cross_check(x, w_r, w_o2, c32, e1, z3),
        w_o2 == w_o || c32 == c3,
    ensures
        w_o2 == w_o,
        c32 == c3,
{
    lemma_cross_check_in_group(g, x, w_r, w_o, c3, e1, z3);
    lemma_cross_check_in_group(g, x, w_r, w_o2, c32, e1, z3);
    let xv = x.value() as int;
    let (i, i2) = ((g.index)(w_o@), (g.index)(w_o2@));
    let (j, j2) = ((g.index)(c3@), (g.index)(c32@));
    lemma_small_mod(x.value(), group_order());
    lemma_small_mod(i as nat, group_order());
    lemma_small_mod(i2 as nat, group_order());
    lemma_small_mod(j as nat, group_order());
    lemma_small_mod(j2 as nat, group_order());
    if c32 == c3 {
        lemma_cancel_term(i * xv, i2 * xv, j);
        assert(i * xv == xv * i) by (nonlinear_arith);
        assert(i2 * xv == xv * i2) by (nonlinear_arith);
        lemma_cancel_factor(xv, i, i2);
        lemma_commitment_determined_by_bytes(w_o2, w_o);
    } else {
        lemma_cancel_term(j, j2, i * xv);
        lemma_commitment_determined_by_bytes(c32, c3);
    }
}

/// Responses that are accepted for one witness and one `C1`, `C2`, `C3` are
/// rejected as soon as one of the six commitments is replaced by another, in
/// a group that the reading describes.
pub proof fn lemma_altered_product_fails(
    g: Reading,
    x: Scalar,
    w: PedersenWitness,
    sent: MulCommitments,
    answers: (Scalar, Scalar, Scalar, Scalar, Scalar),
    w2: PedersenWitness,
    sent2: MulCommitments,
)
    requires
        g.describes_scheme(),
        no_zero_divisors(),
        x.wf(),
        answers.0.wf(),
        answers.1.wf(),
        answers.2.wf(),
        answers.3.wf(),
        answers.4.wf(),
        mul_check(x, w, sent, answers),
        one_altered_mul(w, sent, w2, sent2),
    ensures
        !mul_check(x, w2, sent2, answers),
{
    let (e1, e2, z1, z2, z3) = answers;
    if mul_check(x, w2, sent2, answers) {
        lemma_opening_determines(g, x, w.W_L, sent.c1, w2.W_L, sent2.c1, e1, z1);
        lemma_opening_determines(g, x, w.W_R, sent.c2, w2.W_R, sent2.c2, e2, z2);
        lemma_cross_determines(g, x, w.W_R, w.W_O, sent.c3, w2.W_O, sent2.c3, e1, z3);
    }
}

/// Responses that are accepted for the challenge `x` are rejected for every
/// other challenge, in a group that the reading describes.
pub proof fn lemma_other_challenge_fails_mul(
    g: Reading,
    x: Scalar,
    x2: Scalar,
    w: PedersenWitness,
    sent: MulCommitments,
    answers: (Scalar, Scalar, Scalar, Scalar, Scalar),
)
    requires
        g.describes_scheme(),
        no_zero_divisors(),
        x.wf(),
        x2.wf(),
        answers.0.wf(),
        answers.2.wf(),
        mul_check(x, w, sent, answers),
        x2 != x,
    ensures
        !mul_check(x2, w, sent, answers),
{
    let (e1, z1) = (answers.0, answers.2);
    lemma_opening_check_in_group(g, x, w.W_L, sent.c1, e1, z1);
    lemma_opening_check_in_group(g, x2, w.W_L, sent.c1, e1, z1);
    if mul_check(x2, w, sent, answers) {
        let i = (g.index)(w.W_L@);
        lemma_small_mod(i as nat, group_order());
        lemma_cancel_term(i * x.value(), i * x2.value(), (g.index)(sent.c1@));
        lemma_cancel_factor(i, x.value() as int, x2.value() as int);
        lemma_small_mod(x.value(), group_order());
        lemma_small_mod(x2.value(), group_order());
        lemma_scalar_determined_by_value(x, x2);
    }
}

} // verus!
