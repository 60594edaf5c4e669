//! The ways in which a proof session can be aborted.

use vstd::prelude::*;

verus! {

/// Why a session was aborted. A proof that merely fails to verify is not an
/// error: the verifiers report it as `false`.
#[derive(Clone, Copy, Debug, PartialEq, Eq, Structural)]
pub enum ProofError {
    /// A value has no representation as a scalar: it is zero modulo the group
    /// order, or its bytes are not 32 bytes below the group order.
    InvalidScalar,
    /// A response was asked of a prover that never made the commit move of
    /// that protocol.
    MissingAuxiliaryState,
    /// A group operation has no result that can be encoded as a commitment:
    /// an operand is no point of the curve, or the result is the neutral
    /// element.
    InvalidCommitment,
}

impl ProofError {
    /// The text of `describe`.
    pub open spec fn description(self) -> Seq<char> {
        match self {
            ProofError::InvalidScalar => "value is no scalar: zero, or not below the group order"@,
            ProofError::MissingAuxiliaryState => "prover holds no commit move for this protocol"@,
            ProofError::InvalidCommitment => "group operation has no encodable result"@,
        }
    }

    /// A one-line description for the caller that aborts.
    pub fn describe(&self) -> (text: &'static str)
        ensures
            text@ == self.description(),
            text@.len() > 0,
    {
        match self {
            ProofError::InvalidScalar => {
                proof {
                    reveal_strlit("value is no scalar: zero, or not below the group order");
                }
                "value is no scalar: zero, or not below the group order"
            },
            ProofError::MissingAuxiliaryState => {
                proof {
                    reveal_strlit("prover holds no commit move for this protocol");
                }
                "prover holds no commit move for this protocol"
            },
            ProofError::InvalidCommitment => {
                proof {
                    reveal_strlit("group operation has no encodable result");
                }
                "group operation has no encodable result"
            },
        }
    }
}

} // verus!
