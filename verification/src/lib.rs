//! Zero-knowledge proofs for single arithmetic gates over Pedersen commitments.
//!
//! A prover who knows the openings of three commitments `W_L`, `W_R`, `W_O`
//! convinces a verifier that the committed output is the sum, or the product,
//! of the two committed operands. Both protocols have three moves: the prover
//! commits, the verifier sends a challenge, the prover responds.
//!
//! * [`pedersen`] is the commitment scheme, [`scalar`] and [`commitment`] are
//!   its values, [`encoding`] is how integers become scalars.
//! * [`addition`] and [`multiplication`] are the two protocols: what the
//!   prover sends and answers, and what the verifier checks.
//! * [`backend`] is the boundary to `secp256k1zkp`, which does the arithmetic
//!   of the field and of the group. Everything that this crate assumes of it
//!   stands there.
//! * [`group`] says what it means for the commitments to form a cyclic group
//!   of prime order; [`addition_theorems`] and [`multiplication_theorems`]
//!   prove, for every such group, that the protocols are complete, that they
//!   reject an honest prover's false claim, and that an accepted proof fits
//!   no other commitments and no other challenge.

pub mod addition;
pub mod addition_theorems;
pub mod backend;
pub mod commitment;
pub mod encoding;
pub mod error;
pub mod group;
pub mod multiplication;
pub mod multiplication_theorems;
pub mod pedersen;
pub mod prover;
pub mod scalar;

pub use commitment::Commitment;
pub use encoding::tou8;
pub use error::ProofError;
pub use multiplication::MulBlinds;
pub use pedersen::{mul_commit_secret, Pedersen};
pub use prover::{CommitAdd, CommitMul, MulCommitments, PedersenWitness, Prover};
pub use scalar::Scalar;
