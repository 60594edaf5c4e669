//! Commitments: group elements in their canonical 33-byte encoding.

use vstd::prelude::*;

verus! {

/// A Pedersen commitment, or any other group element, as the 33 bytes in
/// which the group hands it out. Two commitments are equal when their bytes
/// are. Not every byte string encodes a point: operations on one that does
/// not are refused.
#[derive(Clone, Copy, Debug, PartialEq, Eq)]
pub struct Commitment {
    pub(crate) bytes: [u8; 33],
}

impl View for Commitment {
    type V = Seq<u8>;

    closed spec fn view(&self) -> Seq<u8> {
        self.bytes@
    }
}

/// The encoding of the generator `F`: the point that a commitment multiplies
/// by its blinding factor, which is the commitment to the value 0 with the
/// blinding factor 1.
pub open spec fn generator_f_bytes() -> Seq<u8> {
    seq![
        0x08u8, 0x79, 0xbe, 0x66, 0x7e, 0xf9, 0xdc, 0xbb, 0xac, 0x55, 0xa0, 0x62, 0x95, 0xce, 0x87,
        0x0b, 0x07, 0x02, 0x9b, 0xfc, 0xdb, 0x2d, 0xce, 0x28, 0xd9, 0x59, 0xf2, 0x81, 0x5b, 0x16,
        0xf8, 0x17, 0x98,
    ]
}

/// A commitment is determined by its bytes.
pub proof fn lemma_commitment_determined_by_bytes(a: Commitment, b: Commitment)
    requires
        a@ == b@,
    ensures
        a == b,
{
    assert(a.bytes =~= b.bytes);
}

impl Commitment {
    /// The commitment with the given bytes. A shorter input is filled up with
    /// zeros, a longer one is cut off after 33 bytes.
    pub fn from_vec(v: Vec<u8>) -> (c: Commitment)
        ensures
            c@.len() == 33,
            forall|i: int| 0 <= i < 33 ==> c@[i] == (if i < v@.len() { v@[i] } else { 0u8 }),
    {
        let mut bytes: [u8; 33] = [0u8; 33];
        let mut i: usize = 0;
        while i < 33 && i < v.len()
            invariant
                i <= 33,
                i <= v@.len(),
                forall|j: int| 0 <= j < i ==> bytes@[j] == v@[j],
                forall|j: int| i <= j < 33 ==> bytes@[j] == 0u8,
            decreases 33 - i,
        {
            bytes[i] = v[i];
            i += 1;
        }
        Commitment { bytes }
    }

    /// The 33 bytes of the commitment.
    pub fn to_vec(&self) -> (out: Vec<u8>)
        ensures
            out@ == self@,
    {
        let mut out: Vec<u8> = Vec::new();
        let mut i: usize = 0;
        while i < 33
            invariant
                i <= 33,
                out@.len() == i,
                forall|j: int| 0 <= j < i ==> out@[j] == self.bytes@[j],
            decreases 33 - i,
        {
            out.push(self.bytes[i]);
            i += 1;
        }
        assert(out@ =~= self.bytes@);
        out
    }

    /// Whether two commitments have the same encoding.
    pub fn same_as(&self, other: &Commitment) -> (same: bool)
        ensures
            same == (self@ == other@),
            same == (*self == *other),
    {
        let mut i: usize = 0;
        while i < 33
            invariant
                i <= 33,
                forall|j: int| 0 <= j < i ==> self.bytes@[j] == other.bytes@[j],
            decreases 33 - i,
        {
            if self.bytes[i] != other.bytes[i] {
                return false;
            }
            i += 1;
        }
        assert(self.bytes@ =~= other.bytes@);
        assert(self.bytes =~= other.bytes);
        true
    }

    /// The generator `F` of the multiplication protocol.
    pub fn generator_f() -> (f: Commitment)
        ensures
            f@ == generator_f_bytes(),
    {
        let bytes: [u8; 33] = [
            0x08, 0x79, 0xbe, 0x66, 0x7e, 0xf9, 0xdc, 0xbb, 0xac, 0x55, 0xa0, 0x62, 0x95, 0xce,
            0x87, 0x0b, 0x07, 0x02, 0x9b, 0xfc, 0xdb, 0x2d, 0xce, 0x28, 0xd9, 0x59, 0xf2, 0x81,
            0x5b, 0x16, 0xf8, 0x17, 0x98,
        ];
        assert(bytes@ =~= generator_f_bytes());
        Commitment { bytes }
    }
}

} // verus!
