use pedersen_gates::{tou8, Commitment, Pedersen, PedersenWitness, ProofError, Prover, Scalar};

const ORDER: [u8; 32] = [
    0xff, 0xff, 0xff, 0xff, 0xff, 0xff, 0xff, 0xff, 0xff, 0xff, 0xff, 0xff, 0xff, 0xff, 0xff, 0xfe,
    0xba, 0xae, 0xdc, 0xe6, 0xaf, 0x48, 0xa0, 0x3b, 0xbf, 0xd2, 0x5e, 0x8c, 0xd0, 0x36, 0x41, 0x41,
];

fn run_sum(scheme: &Pedersen, l: u64, r: u64, o: u64, x: u64) -> bool {
    let prover = scheme.generate_prover(l, r, o).unwrap();
    let b = prover.commit_add.unwrap().b_commit;
    let x = scheme.scalar_from_u64(x).unwrap();
    let z = scheme.generate_z(&x, &prover).unwrap();
    scheme.verify_add(&x, &prover.witness, b, z)
}

fn fixed(scheme: &Pedersen, l: u64, r: u64, o: u64, blinds: [u64; 4]) -> Prover {
    let s: Vec<Scalar> = blinds.iter().map(|v| scheme.scalar_from_u64(*v).unwrap()).collect();
    scheme.prover_from_blinds(l, r, o, s[0], s[1], s[2], s[3]).unwrap()
}

#[test]
fn one_plus_three_is_four() {
    assert!(run_sum(&Pedersen::new(), 1, 3, 4, 1));
}

#[test]
fn one_plus_three_is_not_five() {
    assert!(!run_sum(&Pedersen::new(), 1, 3, 5, 1));
}

#[test]
fn true_sums_verify_for_many_challenges() {
    let scheme = Pedersen::new();
    for (l, r) in [(1u64, 1u64), (2, 3), (1000, 24), (u64::MAX - 1, 1), (1 << 40, 1 << 41)] {
        for x in [1u64, 2, 7, 65537, u64::MAX] {
            assert!(run_sum(&scheme, l, r, l + r, x));
        }
    }
}

#[test]
fn false_sums_fail_for_many_challenges() {
    let scheme = Pedersen::new();
    for (l, r, o) in [(1u64, 1u64, 3u64), (2, 3, 6), (2, 3, 4), (5, 5, 25), (7, 1, 7)] {
        for x in [1u64, 2, 7, 65537, u64::MAX] {
            assert!(!run_sum(&scheme, l, r, o, x));
        }
    }
}

#[test]
fn response_is_the_formula() {
    let scheme = Pedersen::new();
    let prover = fixed(&scheme, 1, 3, 4, [5, 7, 2, 11]);
    let x = scheme.scalar_from_u64(3).unwrap();
    let z = scheme.generate_z(&x, &prover).unwrap();
    assert_eq!(z.to_bytes(), tou8(&(3 * (5 + 7 - 2) + 11)));
}

#[test]
fn response_wraps_around_the_group_order() {
    let scheme = Pedersen::new();
    let five = scheme.scalar_from_u64(5).unwrap();
    let seven = scheme.scalar_from_u64(7).unwrap();
    let fourteen = scheme.scalar_from_u64(14).unwrap();
    let eleven = scheme.scalar_from_u64(11).unwrap();
    let prover = scheme.prover_from_blinds(1, 3, 4, five, seven, fourteen, eleven).unwrap();
    let x = scheme.scalar_from_u64(3).unwrap();
    let z = scheme.generate_z(&x, &prover).unwrap();
    assert_eq!(z.to_bytes(), tou8(&(11 - 3 * 2)));
    let b = prover.commit_add.unwrap().b_commit;
    assert!(scheme.verify_add(&x, &prover.witness, b, z));
}

#[test]
fn response_is_a_function_of_state_and_challenge() {
    let scheme = Pedersen::new();
    let prover = scheme.generate_prover(1, 3, 4).unwrap();
    let x = scheme.scalar_from_u64(9).unwrap();
    let first = scheme.generate_z(&x, &prover).unwrap();
    let second = scheme.generate_z(&x, &prover).unwrap();
    assert!(first == second);
    let other = Pedersen::new();
    assert!(other.generate_z(&x, &prover).unwrap() == first);
}

#[test]
fn response_needs_the_commit_move() {
    let scheme = Pedersen::new();
    let prover = scheme.generate_mul_prover(2, 3, 6).unwrap();
    let x = scheme.scalar_from_u64(1).unwrap();
    assert!(matches!(scheme.generate_z(&x, &prover), Err(ProofError::MissingAuxiliaryState)));
}

#[test]
fn response_fails_where_the_blinds_cancel() {
    let scheme = Pedersen::new();
    let prover = fixed(&scheme, 1, 3, 4, [1, 1, 2, 11]);
    let x = scheme.scalar_from_u64(3).unwrap();
    assert!(matches!(scheme.generate_z(&x, &prover), Err(ProofError::InvalidScalar)));
}

#[test]
fn response_fails_where_it_would_be_zero() {
    let scheme = Pedersen::new();
    let mut bytes = ORDER.to_vec();
    bytes[31] -= 30;
    let r_b = scheme.scalar_from_bytes(&bytes).unwrap();
    let five = scheme.scalar_from_u64(5).unwrap();
    let seven = scheme.scalar_from_u64(7).unwrap();
    let two = scheme.scalar_from_u64(2).unwrap();
    let prover = scheme.prover_from_blinds(1, 3, 4, five, seven, two, r_b).unwrap();
    let x = scheme.scalar_from_u64(3).unwrap();
    assert!(matches!(scheme.generate_z(&x, &prover), Err(ProofError::InvalidScalar)));
    let y = scheme.scalar_from_u64(4).unwrap();
    assert_eq!(scheme.generate_z(&y, &prover).unwrap().to_bytes(), tou8(&10));
}

#[test]
fn zero_wire_values_are_taken() {
    let scheme = Pedersen::new();
    for (l, r, o) in [(0u64, 3u64, 3u64), (3, 0, 3), (3, 3, 0), (0, 0, 0), (u64::MAX, 0, 1)] {
        let prover = scheme.generate_prover(l, r, o).unwrap();
        assert_eq!((prover.value_l, prover.value_r, prover.value_o), (l, r, o));
        assert_eq!(prover.witness.W_L, scheme.commit(l, &prover.r_l).unwrap());
        assert_eq!(prover.witness.W_R, scheme.commit(r, &prover.r_r).unwrap());
        assert_eq!(prover.witness.W_O, scheme.commit(o, &prover.r_o).unwrap());
    }
}

#[test]
fn true_sums_with_zero_verify() {
    let scheme = Pedersen::new();
    for (l, r) in [(0u64, 5u64), (5, 0), (0, 0), (0, u64::MAX)] {
        for x in [1u64, 3, u64::MAX] {
            assert!(run_sum(&scheme, l, r, l + r, x));
        }
    }
}

#[test]
fn false_sums_with_zero_fail() {
    let scheme = Pedersen::new();
    for (l, r, o) in [(0u64, 5u64, 0u64), (5, 0, 0), (0, 0, 1), (5, 5, 0), (1, u64::MAX, 0)] {
        for x in [1u64, 3, u64::MAX] {
            assert!(!run_sum(&scheme, l, r, o, x));
        }
    }
}

#[test]
fn response_does_not_depend_on_the_wire_values() {
    let scheme = Pedersen::new();
    let x = scheme.scalar_from_u64(3).unwrap();
    let a = scheme.generate_z(&x, &fixed(&scheme, 0, 0, 0, [5, 7, 2, 11])).unwrap();
    let b = scheme.generate_z(&x, &fixed(&scheme, 1, 3, 4, [5, 7, 2, 11])).unwrap();
    assert!(a == b);
    assert_eq!(a.to_bytes(), tou8(&41));
}

#[test]
fn generated_session_holds_what_it_committed_to() {
    let scheme = Pedersen::new();
    let prover = scheme.generate_prover(1, 3, 4).unwrap();
    assert!(prover.commit_mul.is_none());
    let aux = prover.commit_add.unwrap();
    assert_eq!(prover.value_l, 1);
    assert_eq!(prover.value_r, 3);
    assert_eq!(prover.value_o, 4);
    assert_eq!(prover.witness.W_L, scheme.commit(1, &prover.r_l).unwrap());
    assert_eq!(prover.witness.W_R, scheme.commit(3, &prover.r_r).unwrap());
    assert_eq!(prover.witness.W_O, scheme.commit(4, &prover.r_o).unwrap());
    assert_eq!(aux.b_commit, scheme.commit(0, &aux.r_b).unwrap());
}

#[test]
fn sessions_draw_fresh_blinds() {
    let scheme = Pedersen::new();
    let a = scheme.generate_prover(1, 3, 4).unwrap();
    let b = scheme.generate_prover(1, 3, 4).unwrap();
    assert!(a.r_l != b.r_l);
    assert_ne!(a.witness, b.witness);
    assert_ne!(a.commit_add.unwrap().b_commit, b.commit_add.unwrap().b_commit);
}

#[test]
fn session_from_blinds_is_determined() {
    let scheme = Pedersen::new();
    let a = fixed(&scheme, 1, 3, 4, [5, 7, 2, 11]);
    let b = fixed(&scheme, 1, 3, 4, [5, 7, 2, 11]);
    assert_eq!(a.witness, b.witness);
    assert_eq!(a.commit_add.unwrap().b_commit, b.commit_add.unwrap().b_commit);
}

fn flip_prefix(c: &Commitment) -> Commitment {
    let mut bytes = c.to_vec();
    bytes[0] ^= 1;
    Commitment::from_vec(bytes)
}

#[test]
fn altered_commitments_fail() {
    let scheme = Pedersen::new();
    let prover = scheme.generate_prover(1, 3, 4).unwrap();
    let b = prover.commit_add.unwrap().b_commit;
    let x = scheme.scalar_from_u64(5).unwrap();
    let z = scheme.generate_z(&x, &prover).unwrap();
    let w = prover.witness;
    assert!(scheme.verify_add(&x, &w, b, z));

    let stranger = scheme.commit(9, &scheme.random_scalar()).unwrap();
    for other in [stranger, flip_prefix(&w.W_L)] {
        assert!(!scheme.verify_add(&x, &PedersenWitness { W_L: other, ..w }, b, z));
    }
    for other in [stranger, flip_prefix(&w.W_R)] {
        assert!(!scheme.verify_add(&x, &PedersenWitness { W_R: other, ..w }, b, z));
    }
    for other in [stranger, flip_prefix(&w.W_O)] {
        assert!(!scheme.verify_add(&x, &PedersenWitness { W_O: other, ..w }, b, z));
    }
    for other in [stranger, flip_prefix(&b)] {
        assert!(!scheme.verify_add(&x, &w, other, z));
    }
}

#[test]
fn bytes_that_are_no_point_fail() {
    let scheme = Pedersen::new();
    let prover = scheme.generate_prover(1, 3, 4).unwrap();
    let b = prover.commit_add.unwrap().b_commit;
    let x = scheme.scalar_from_u64(5).unwrap();
    let z = scheme.generate_z(&x, &prover).unwrap();
    let junk = Commitment::from_vec(vec![0x50; 33]);
    let w = prover.witness;
    assert!(!scheme.verify_add(&x, &PedersenWitness { W_L: junk, ..w }, b, z));
    assert!(!scheme.verify_add(&x, &w, junk, z));
}

#[test]
fn altered_response_fails() {
    let scheme = Pedersen::new();
    let prover = scheme.generate_prover(1, 3, 4).unwrap();
    let b = prover.commit_add.unwrap().b_commit;
    let x = scheme.scalar_from_u64(5).unwrap();
    let z = scheme.generate_z(&x, &prover).unwrap();
    let mut bytes = z.to_bytes();
    bytes[31] ^= 1;
    let other = scheme.scalar_from_bytes(&bytes).unwrap();
    assert!(!scheme.verify_add(&x, &prover.witness, b, other));
}

#[test]
fn response_for_another_challenge_fails() {
    let scheme = Pedersen::new();
    let prover = scheme.generate_prover(1, 3, 4).unwrap();
    let b = prover.commit_add.unwrap().b_commit;
    let x = scheme.scalar_from_u64(5).unwrap();
    let y = scheme.scalar_from_u64(6).unwrap();
    let z = scheme.generate_z(&x, &prover).unwrap();
    assert!(scheme.verify_add(&x, &prover.witness, b, z));
    assert!(!scheme.verify_add(&y, &prover.witness, b, z));
}

#[test]
fn witness_whose_blinds_cancel_is_rejected() {
    let scheme = Pedersen::new();
    let prover = fixed(&scheme, 1, 3, 4, [1, 1, 2, 11]);
    let b = prover.commit_add.unwrap().b_commit;
    let x = scheme.scalar_from_u64(5).unwrap();
    let z = scheme.scalar_from_u64(11).unwrap();
    assert!(!scheme.verify_add(&x, &prover.witness, b, z));
}
