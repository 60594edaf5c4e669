//! Elements of the scalar field, held as 32 big-endian bytes.

use vstd::prelude::*;
use crate::encoding::be_value;

verus! {

/// The number of points of secp256k1: the order of the group in which the
/// commitments live, and the modulus of all scalar arithmetic.
pub open spec fn group_order() -> nat {
    0xFFFFFFFFFFFFFFFFFFFFFFFFFFFFFFFEBAAEDCE6AF48A03BBFD25E8CD0364141nat
}

/// The byte strings that stand for a scalar: 32 bytes whose big-endian value
/// is neither zero nor as large as the group order.
pub open spec fn is_scalar(bytes: Seq<u8>) -> bool {
    bytes.len() == 32 && 0 < be_value(bytes) < group_order()
}

/// A nonzero element of the scalar field: a wire value, a blinding factor, a
/// challenge or a response.
///
/// The type has no `Debug` formatting on purpose: most scalars are secrets.
#[derive(Clone, Copy, PartialEq, Eq)]
pub struct Scalar {
    pub(crate) bytes: [u8; 32],
}

impl View for Scalar {
    type V = Seq<u8>;

    closed spec fn view(&self) -> Seq<u8> {
        self.bytes@
    }
}

impl Scalar {
    /// Every `Scalar` that executable code can hold is well formed.
    #[verifier::type_invariant]
    pub open spec fn wf(self) -> bool {
        is_scalar(self@)
    }

    /// The field element, as a number below the group order.
    pub open spec fn value(self) -> nat {
        be_value(self@)
    }

    /// The 32 bytes of the scalar, most significant first.
    pub fn to_bytes(&self) -> (out: Vec<u8>)
        ensures
            out@ == self@,
    {
        let mut out: Vec<u8> = Vec::new();
        let mut i: usize = 0;
        while i < 32
            invariant
                i <= 32,
                out@.len() == i,
                forall|j: int| 0 <= j < i ==> out@[j] == self.bytes@[j],
            decreases 32 - i,
        {
            out.push(self.bytes[i]);
            i += 1;
        }
        assert(out@ =~= self.bytes@);
        out
    }
}

/// The residue of an integer modulo the group order.
pub open spec fn residue(x: int) -> int {
    x % (group_order() as int)
}

/// The sum of the values of a list of scalars, as an integer.
pub open spec fn total(terms: Seq<Scalar>) -> int
    decreases terms.len(),
{
    if terms.len() == 0 {
        0
    } else {
        total(terms.drop_last()) + terms.last().value()
    }
}

pub proof fn lemma_total_of_one(a: Scalar)
    ensures
        total(seq![a]) == a.value(),
{
    reveal_with_fuel(total, 2);
    assert(seq![a].drop_last() =~= Seq::<Scalar>::empty());
}

pub proof fn lemma_total_of_two(a: Scalar, b: Scalar)
    ensures
        total(seq![a, b]) == a.value() + b.value(),
{
    assert(seq![a, b].drop_last() =~= seq![a]);
    lemma_total_of_one(a);
}

/// Two well-formed scalars with the same value are the same scalar.
pub proof fn lemma_scalar_determined_by_value(a: Scalar, b: Scalar)
    requires
        a.wf(),
        b.wf(),
        a.value() == b.value(),
    ensures
        a == b,
{
    crate::encoding::lemma_be_value_injective(a@, b@);
    assert(a.bytes =~= b.bytes);
}

} // verus!
