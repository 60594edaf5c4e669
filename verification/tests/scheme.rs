use pedersen_gates::{mul_commit_secret, tou8, Commitment, Pedersen, ProofError};

const ORDER: [u8; 32] = [
    0xff, 0xff, 0xff, 0xff, 0xff, 0xff, 0xff, 0xff, 0xff, 0xff, 0xff, 0xff, 0xff, 0xff, 0xff, 0xfe,
    0xba, 0xae, 0xdc, 0xe6, 0xaf, 0x48, 0xa0, 0x3b, 0xbf, 0xd2, 0x5e, 0x8c, 0xd0, 0x36, 0x41, 0x41,
];

#[test]
fn scalar_from_u64_keeps_the_value() {
    let scheme = Pedersen::new();
    let five = scheme.scalar_from_u64(5).unwrap();
    assert_eq!(five.to_bytes(), tou8(&5));
    let big = scheme.scalar_from_u64(u64::MAX).unwrap();
    assert_eq!(big.to_bytes(), tou8(&u64::MAX));
}

#[test]
fn scalar_from_u64_refuses_zero() {
    let scheme = Pedersen::new();
    assert!(matches!(scheme.scalar_from_u64(0), Err(ProofError::InvalidScalar)));
}

#[test]
fn scalar_from_bytes_accepts_values_below_the_order() {
    let scheme = Pedersen::new();
    let mut below = ORDER.to_vec();
    below[31] -= 1;
    let s = scheme.scalar_from_bytes(&below).unwrap();
    assert_eq!(s.to_bytes(), below);
}

#[test]
fn scalar_from_bytes_refuses_the_order_and_above() {
    let scheme = Pedersen::new();
    assert!(matches!(scheme.scalar_from_bytes(&ORDER.to_vec()), Err(ProofError::InvalidScalar)));
    assert!(matches!(scheme.scalar_from_bytes(&vec![0xff; 32]), Err(ProofError::InvalidScalar)));
}

#[test]
fn scalar_from_bytes_refuses_zero_and_wrong_lengths() {
    let scheme = Pedersen::new();
    assert!(matches!(scheme.scalar_from_bytes(&vec![0; 32]), Err(ProofError::InvalidScalar)));
    assert!(matches!(scheme.scalar_from_bytes(&vec![1; 31]), Err(ProofError::InvalidScalar)));
    assert!(matches!(scheme.scalar_from_bytes(&vec![1; 33]), Err(ProofError::InvalidScalar)));
    assert!(matches!(scheme.scalar_from_bytes(&Vec::new()), Err(ProofError::InvalidScalar)));
}

#[test]
fn random_scalars_differ() {
    let scheme = Pedersen::new();
    let a = scheme.random_scalar();
    let b = scheme.random_scalar();
    assert!(a != b);
    assert_eq!(a.to_bytes().len(), 32);
}

#[test]
fn commitment_from_vec_pads_and_truncates() {
    let short = Commitment::from_vec(vec![8, 1, 2]);
    let mut expected = vec![0u8; 33];
    expected[0] = 8;
    expected[1] = 1;
    expected[2] = 2;
    assert_eq!(short.to_vec(), expected);

    let long: Vec<u8> = (0..64).collect();
    let cut = Commitment::from_vec(long.clone());
    assert_eq!(cut.to_vec(), long[..33].to_vec());
}

#[test]
fn commitment_equality_is_equality_of_bytes() {
    let a = Commitment::from_vec(vec![9; 33]);
    let b = Commitment::from_vec(vec![9; 33]);
    let mut other = vec![9; 33];
    other[32] = 8;
    let c = Commitment::from_vec(other);
    assert!(a.same_as(&b));
    assert!(!a.same_as(&c));
    assert_eq!(a, b);
    assert_ne!(a, c);
}

#[test]
fn commit_depends_on_value_and_blind() {
    let scheme = Pedersen::new();
    let r = scheme.scalar_from_u64(11).unwrap();
    let s = scheme.scalar_from_u64(12).unwrap();
    let a = scheme.commit(5, &r).unwrap();
    assert_eq!(a, scheme.commit(5, &r).unwrap());
    assert_ne!(a, scheme.commit(6, &r).unwrap());
    assert_ne!(a, scheme.commit(5, &s).unwrap());
    assert_ne!(a.to_vec()[1..].to_vec(), r.to_bytes());
}

#[test]
fn commit_blind_agrees_with_commit() {
    let scheme = Pedersen::new();
    let r = scheme.scalar_from_u64(77).unwrap();
    let three = scheme.scalar_from_u64(3).unwrap();
    assert_eq!(scheme.commit_blind(&three, &r).unwrap(), scheme.commit(3, &r).unwrap());
}

#[test]
fn commit_sum_adds_values_and_blinds() {
    let scheme = Pedersen::new();
    let five = scheme.scalar_from_u64(5).unwrap();
    let seven = scheme.scalar_from_u64(7).unwrap();
    let twelve = scheme.scalar_from_u64(12).unwrap();
    let a = scheme.commit(1, &five).unwrap();
    let b = scheme.commit(2, &seven).unwrap();
    let sum = scheme.commit_sum(vec![a, b], vec![]).unwrap();
    assert_eq!(sum, scheme.commit(3, &twelve).unwrap());
    let back = scheme.commit_sum(vec![sum], vec![b]).unwrap();
    assert_eq!(back, a);
}

#[test]
fn commit_sum_refuses_the_neutral_element() {
    let scheme = Pedersen::new();
    let r = scheme.scalar_from_u64(5).unwrap();
    let a = scheme.commit(1, &r).unwrap();
    assert!(matches!(
        scheme.commit_sum(vec![a], vec![a]),
        Err(ProofError::InvalidCommitment)
    ));
    assert!(matches!(scheme.commit_sum(vec![], vec![]), Err(ProofError::InvalidCommitment)));
}

#[test]
fn commit_sum_refuses_bytes_that_are_no_point() {
    let scheme = Pedersen::new();
    let r = scheme.scalar_from_u64(5).unwrap();
    let a = scheme.commit(1, &r).unwrap();
    let junk = Commitment::from_vec(vec![0x50; 33]);
    assert!(matches!(
        scheme.commit_sum(vec![a, junk], vec![]),
        Err(ProofError::InvalidCommitment)
    ));
}

#[test]
fn mul_commit_secret_multiplies_value_and_blind() {
    let scheme = Pedersen::new();
    let five = scheme.scalar_from_u64(5).unwrap();
    let fifteen = scheme.scalar_from_u64(15).unwrap();
    let three = scheme.scalar_from_u64(3).unwrap();
    let one = scheme.scalar_from_u64(1).unwrap();
    let a = scheme.commit(1, &five).unwrap();
    assert_eq!(mul_commit_secret(&scheme, &a, &three).unwrap(), scheme.commit(3, &fifteen).unwrap());
    assert_eq!(mul_commit_secret(&scheme, &a, &one).unwrap(), a);
    let twice = scheme.commit_sum(vec![a, a], vec![]).unwrap();
    let two = scheme.scalar_from_u64(2).unwrap();
    assert_eq!(mul_commit_secret(&scheme, &a, &two).unwrap(), twice);
}

#[test]
fn mul_commit_secret_refuses_bytes_that_are_no_point() {
    let scheme = Pedersen::new();
    let three = scheme.scalar_from_u64(3).unwrap();
    let junk = Commitment::from_vec(vec![0x50; 33]);
    assert!(matches!(
        mul_commit_secret(&scheme, &junk, &three),
        Err(ProofError::InvalidCommitment)
    ));
}

#[test]
fn generator_f_is_the_commitment_to_zero_under_one() {
    let scheme = Pedersen::new();
    let one = scheme.scalar_from_u64(1).unwrap();
    assert_eq!(Commitment::generator_f(), scheme.commit(0, &one).unwrap());
}

#[test]
fn generator_f_carries_the_blinding_factor() {
    let scheme = Pedersen::new();
    let nine = scheme.scalar_from_u64(9).unwrap();
    let f = Commitment::generator_f();
    assert_eq!(mul_commit_secret(&scheme, &f, &nine).unwrap(), scheme.commit(0, &nine).unwrap());
}

#[test]
fn errors_describe_themselves() {
    assert_eq!(ProofError::InvalidScalar.describe(), "value is no scalar: zero, or not below the group order");
    assert_eq!(
        ProofError::MissingAuxiliaryState.describe(),
        "prover holds no commit move for this protocol"
    );
    assert_eq!(ProofError::InvalidCommitment.describe(), "group operation has no encodable result");
}
