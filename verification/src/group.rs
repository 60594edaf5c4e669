//! The group behind the commitments, as far as the laws of the protocols
//! need it.
//!
//! The rest of the crate knows the results of group operations by name only.
//! What the protocols achieve depends on more: that the commitments are the
//! elements of a cyclic group of prime order, that committing, adding and
//! multiplying act on them as the names say in words. A [`Reading`] states
//! this. Nothing here claims that one exists: the laws that need the group
//! take a reading as a premise and hold of every reading that describes the
//! scheme.

use vstd::prelude::*;
use vstd::arithmetic::div_mod::{
    lemma_add_mod_noop, lemma_mod_twice, lemma_mul_mod_noop_general, lemma_small_mod,
    lemma_sub_mod_noop,
};
use crate::backend::{pedersen_commit, pedersen_commit_blind, pedersen_scale, pedersen_sum};
use crate::commitment::generator_f_bytes;
use crate::encoding::be_value;
use crate::scalar::{group_order, is_scalar, residue};

verus! {

/// The residue of a product.
pub open spec fn product_residue(a: int, b: int) -> int {
    residue(a * b)
}

/// The scalars form a field: a product vanishes modulo the group order only
/// if a factor does. This is so because the order is prime; here it is a
/// premise.
pub open spec fn no_zero_divisors() -> bool {
    forall|a: int, b: int| #[trigger]
        product_residue(a, b) == 0 ==> residue(a) == 0 || residue(b) == 0
}

/// A reading of byte strings as group elements. The group is cyclic of the
/// group order, generated by the point `F` that carries blinding factors:
/// every element but the neutral one is `k F` for exactly one `k` between 0
/// and the order, its index.
pub struct Reading {
    /// The encoding of `k F`, for `k` between 0 and the group order.
    pub encoding: spec_fn(int) -> Seq<u8>,
    /// The index of the point that a byte string encodes.
    pub index: spec_fn(Seq<u8>) -> int,
    /// The index of the point `H` that carries committed values.
    pub h: int,
}

impl Reading {
    /// The encoding of `k F`, which the neutral element lacks.
    pub open spec fn point(self, k: int) -> Option<Seq<u8>> {
        if residue(k) == 0 {
            None
        } else {
            Some((self.encoding)(residue(k)))
        }
    }

    /// Whether a byte string is the encoding of a point.
    pub open spec fn encodes(self, c: Seq<u8>) -> bool {
        0 < (self.index)(c) < group_order() && (self.encoding)((self.index)(c)) == c
    }

    /// Whether every byte string of a list is the encoding of a point.
    pub open spec fn all_encode(self, cs: Seq<Seq<u8>>) -> bool {
        forall|i: int| 0 <= i < cs.len() ==> self.encodes(#[trigger] cs[i])
    }

    /// The sum of the indices of a list of encoded points.
    pub open spec fn index_total(self, cs: Seq<Seq<u8>>) -> int
        decreases cs.len(),
    {
        if cs.len() == 0 {
            0
        } else {
            self.index_total(cs.drop_last()) + (self.index)(cs.last())
        }
    }

    /// Whether the reading describes the commitment scheme: encodings are
    /// unique, `F` has the index 1, and each operation of the scheme is the
    /// group operation that it is named after.
    pub open spec fn describes_scheme(self) -> bool {
        &&& 0 < self.h < group_order()
        &&& (self.encoding)(1) == generator_f_bytes()
        &&& forall|k: int|
            0 < k < group_order() ==> (self.index)(#[trigger] (self.encoding)(k)) == k
        &&& forall|v: u64, b: Seq<u8>|
            is_scalar(b) ==> #[trigger] pedersen_commit(v, b) == self.point(
                be_value(b) + v * self.h,
            )
        &&& forall|v: Seq<u8>, b: Seq<u8>|
            is_scalar(v) && is_scalar(b) ==> #[trigger] pedersen_commit_blind(v, b) == self.point(
                be_value(b) + be_value(v) * self.h,
            )
        &&& forall|c: Seq<u8>, s: Seq<u8>|
            is_scalar(s) ==> #[trigger] pedersen_scale(c, s) == (if self.encodes(c) {
                self.point((self.index)(c) * be_value(s))
            } else {
                None
            })
        &&& forall|positive: Seq<Seq<u8>>, negative: Seq<Seq<u8>>| #[trigger]
            pedersen_sum(positive, negative) == (if self.all_encode(positive) && self.all_encode(
                negative,
            ) {
                self.point(self.index_total(positive) - self.index_total(negative))
            } else {
                None
            })
    }

    /// A point that has an encoding is not neutral, and the encoding gives
    /// its index back.
    pub proof fn lemma_point_some(self, k: int, c: Seq<u8>)
        requires
            self.describes_scheme(),
            self.point(k) == Some(c),
        ensures
            residue(k) != 0,
            self.encodes(c),
            (self.index)(c) == residue(k),
    {
        assert(residue(k) < group_order()) by {
            vstd::arithmetic::div_mod::lemma_mod_bound(k, group_order() as int);
        }
        assert((self.index)((self.encoding)(residue(k))) == residue(k));
    }

    /// Points with the same encoding have the same index.
    pub proof fn lemma_point_equal(self, j: int, k: int)
        requires
            self.describes_scheme(),
            self.point(j) == self.point(k),
        ensures
            residue(j) == residue(k),
    {
        if residue(j) != 0 {
            let c = self.point(j).unwrap();
            self.lemma_point_some(j, c);
            self.lemma_point_some(k, c);
        }
    }

    /// Two different encodings are of points with different indices.
    pub proof fn lemma_index_distinct(self, a: Seq<u8>, b: Seq<u8>)
        requires
            self.encodes(a),
            self.encodes(b),
            a != b,
        ensures
            (self.index)(a) != (self.index)(b),
    {
    }

    pub proof fn lemma_total_of_none(self)
        ensures
            self.index_total(seq![]) == 0,
            self.all_encode(seq![]),
    {
    }

    pub proof fn lemma_total_of_one(self, a: Seq<u8>)
        ensures
            self.index_total(seq![a]) == (self.index)(a),
            self.all_encode(seq![a]) == self.encodes(a),
    {
        reveal_with_fuel(Reading::index_total, 2);
        assert(seq![a].drop_last() =~= Seq::<Seq<u8>>::empty());
        assert(seq![a][0] == a);
    }

    pub proof fn lemma_total_of_two(self, a: Seq<u8>, b: Seq<u8>)
        ensures
            self.index_total(seq![a, b]) == (self.index)(a) + (self.index)(b),
            self.all_encode(seq![a, b]) == (self.encodes(a) && self.encodes(b)),
    {
        assert(seq![a, b].drop_last() =~= seq![a]);
        self.lemma_total_of_one(a);
        assert(seq![a, b][0] == a);
        assert(seq![a, b][1] == b);
    }

    /// `a + b` in the group.
    pub proof fn lemma_sum_of_two(self, a: Seq<u8>, b: Seq<u8>)
        requires
            self.describes_scheme(),
        ensures
            pedersen_sum(seq![a, b], seq![]) == (if self.encodes(a) && self.encodes(b) {
                self.point((self.index)(a) + (self.index)(b))
            } else {
                None
            }),
    {
        self.lemma_total_of_two(a, b);
        self.lemma_total_of_none();
    }

    /// `a + b - c` in the group.
    pub proof fn lemma_sum_of_two_less_one(self, a: Seq<u8>, b: Seq<u8>, c: Seq<u8>)
        requires
            self.describes_scheme(),
        ensures
            pedersen_sum(seq![a, b], seq![c]) == (if self.encodes(a) && self.encodes(b)
                && self.encodes(c) {
                self.point((self.index)(a) + (self.index)(b) - (self.index)(c))
            } else {
                None
            }),
    {
        self.lemma_total_of_two(a, b);
        self.lemma_total_of_one(c);
    }
}

/// Residues may be taken before or after adding.
pub proof fn lemma_residue_add(a: int, b: int)
    ensures
        residue(residue(a) + residue(b)) == residue(a + b),
        residue(residue(a) + b) == residue(a + b),
        residue(a + residue(b)) == residue(a + b),
{
    let n = group_order() as int;
    lemma_add_mod_noop(a, b, n);
    lemma_add_mod_noop(a % n, b, n);
    lemma_add_mod_noop(a, b % n, n);
    lemma_mod_twice(a, n);
    lemma_mod_twice(b, n);
}

/// Residues may be taken before or after subtracting.
pub proof fn lemma_residue_sub(a: int, b: int)
    ensures
        residue(residue(a) - residue(b)) == residue(a - b),
        residue(residue(a) - b) == residue(a - b),
        residue(a - residue(b)) == residue(a - b),
{
    let n = group_order() as int;
    lemma_sub_mod_noop(a, b, n);
    lemma_sub_mod_noop(a % n, b, n);
    lemma_sub_mod_noop(a, b % n, n);
    lemma_mod_twice(a, n);
    lemma_mod_twice(b, n);
}

/// Residues may be taken before or after multiplying.
pub proof fn lemma_residue_mul(a: int, b: int)
    ensures
        residue(residue(a) * residue(b)) == residue(a * b),
        residue(residue(a) * b) == residue(a * b),
        residue(a * residue(b)) == residue(a * b),
{
    lemma_mul_mod_noop_general(a, b, group_order() as int);
}

/// In a field a product of two nonzero residues is not zero.
pub proof fn lemma_product_not_zero(a: int, b: int)
    requires
        no_zero_divisors(),
        residue(a) != 0,
        residue(b) != 0,
    ensures
        residue(a * b) != 0,
{
    assert(product_residue(a, b) == residue(a * b));
}

/// In a field a nonzero factor can be cancelled.
pub proof fn lemma_cancel_factor(x: int, a: int, b: int)
    requires
        no_zero_divisors(),
        residue(x) != 0,
        residue(x * a) == residue(x * b),
    ensures
        residue(a) == residue(b),
{
    let n = group_order() as int;
    assert(x * (a - b) == x * a - x * b) by (nonlinear_arith);
    lemma_residue_sub(x * a, x * b);
    assert(residue(x * (a - b)) == 0);
    assert(product_residue(x, a - b) == 0);
    assert(residue(a - b) == 0);
    lemma_residue_sub(a, b);
    assert((residue(a) - residue(b)) % n == 0);
    vstd::arithmetic::div_mod::lemma_mod_bound(a, n);
    vstd::arithmetic::div_mod::lemma_mod_bound(b, n);
    if residue(a) != residue(b) {
        if residue(a) > residue(b) {
            lemma_small_mod((residue(a) - residue(b)) as nat, group_order());
        } else {
            lemma_small_mod((residue(b) - residue(a)) as nat, group_order());
            lemma_residue_sub(b, a);
            lemma_residue_sub(x * b, x * a);
            assert(x * (b - a) == x * b - x * a) by (nonlinear_arith);
            assert(product_residue(x, b - a) == 0);
        }
    }
}

/// Whether two integers have the same residue.
pub open spec fn congruent(a: int, b: int) -> bool {
    residue(a) == residue(b)
}

pub proof fn lemma_congruent_residue(a: int)
    ensures
        congruent(residue(a), a),
{
    lemma_mod_twice(a, group_order() as int);
}

pub proof fn lemma_congruent_add(a: int, a2: int, b: int, b2: int)
    requires
        congruent(a, a2),
        congruent(b, b2),
    ensures
        congruent(a + b, a2 + b2),
{
    lemma_residue_add(a, b);
    lemma_residue_add(a2, b2);
}

pub proof fn lemma_congruent_mul(a: int, a2: int, b: int, b2: int)
    requires
        congruent(a, a2),
        congruent(b, b2),
    ensures
        congruent(a * b, a2 * b2),
{
    lemma_residue_mul(a, b);
    lemma_residue_mul(a2, b2);
}

/// In a field `a + c` and `b + c` have the same residue only if `a` and `b`
/// have.
pub proof fn lemma_cancel_term(a: int, b: int, c: int)
    requires
        residue(a + c) == residue(b + c),
    ensures
        residue(a) == residue(b),
{
    lemma_residue_sub(a + c, c);
    lemma_residue_sub(b + c, c);
}

/// A nonzero integer that is smaller than the group order in absolute value
/// has a nonzero residue.
pub proof fn lemma_small_not_zero(a: int)
    requires
        a != 0,
        -(group_order() as int) < a < group_order(),
    ensures
        residue(a) != 0,
{
    if a > 0 {
        lemma_small_mod(a as nat, group_order());
    } else {
        lemma_small_mod((-a) as nat, group_order());
        lemma_residue_sub(0, -a);
        lemma_residue_sub(0, a);
    }
}

} // verus!
