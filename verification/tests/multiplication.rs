use pedersen_gates::{
    tou8, Commitment, MulBlinds, MulCommitments, Pedersen, PedersenWitness, ProofError, Prover,
    Scalar,
};

type Answers = (Scalar, Scalar, Scalar, Scalar, Scalar);

fn session(scheme: &Pedersen, l: u64, r: u64, o: u64, x: u64) -> (Prover, Scalar, Answers) {
    let prover = scheme.generate_mul_prover(l, r, o).unwrap();
    let x = scheme.scalar_from_u64(x).unwrap();
    let answers = scheme.generate_mul_z(&x, &prover).unwrap();
    (prover, x, answers)
}

fn run_product(scheme: &Pedersen, l: u64, r: u64, o: u64, x: u64) -> bool {
    let (prover, x, answers) = session(scheme, l, r, o, x);
    let sent = prover.commit_mul.unwrap().commitments();
    scheme.verify_mul(&x, &prover.witness, &sent, answers)
}

fn blinds(scheme: &Pedersen, v: [u64; 8]) -> MulBlinds {
    let s: Vec<Scalar> = v.iter().map(|v| scheme.scalar_from_u64(*v).unwrap()).collect();
    MulBlinds { r_l: s[0], r_r: s[1], r_o: s[2], t1: s[3], t2: s[4], t3: s[5], t4: s[6], t5: s[7] }
}

#[test]
fn one_times_one_is_one() {
    let scheme = Pedersen::new();
    let (prover, x, (e1, e2, z1, z2, z3)) = session(&scheme, 1, 1, 1, 1);
    let sent = prover.commit_mul.unwrap().commitments();
    let w = prover.witness;
    assert!(scheme.check_opening(&x, &w.W_L, &sent.c1, &e1, &z1));
    assert!(scheme.check_opening(&x, &w.W_R, &sent.c2, &e2, &z2));
    assert!(scheme.check_cross(&x, &w, &sent.c3, &e1, &z3));
    assert!(scheme.verify_mul(&x, &w, &sent, (e1, e2, z1, z2, z3)));
}

#[test]
fn two_times_three_is_not_five() {
    let scheme = Pedersen::new();
    let (prover, x, (e1, e2, z1, z2, z3)) = session(&scheme, 2, 3, 5, 7);
    let sent = prover.commit_mul.unwrap().commitments();
    let w = prover.witness;
    assert!(!scheme.check_cross(&x, &w, &sent.c3, &e1, &z3));
    assert!(!scheme.verify_mul(&x, &w, &sent, (e1, e2, z1, z2, z3)));
    assert!(scheme.check_opening(&x, &w.W_L, &sent.c1, &e1, &z1));
    assert!(scheme.check_opening(&x, &w.W_R, &sent.c2, &e2, &z2));
}

#[test]
fn swapped_commitments_fail() {
    let scheme = Pedersen::new();
    let (prover, x, answers) = session(&scheme, 2, 3, 6, 7);
    let sent = prover.commit_mul.unwrap().commitments();
    assert!(scheme.verify_mul(&x, &prover.witness, &sent, answers));
    let swapped = MulCommitments { c1: sent.c2, c2: sent.c1, c3: sent.c3 };
    assert!(!scheme.verify_mul(&x, &prover.witness, &swapped, answers));
}

#[test]
fn true_products_verify_for_many_challenges() {
    let scheme = Pedersen::new();
    for (l, r) in [(1u64, 1u64), (2, 3), (1000, 24), (u32::MAX as u64, u32::MAX as u64), (1, 77)] {
        for x in [1u64, 2, 7, 65537, u64::MAX] {
            assert!(run_product(&scheme, l, r, l * r, x));
        }
    }
}

#[test]
fn false_products_fail_for_many_challenges() {
    let scheme = Pedersen::new();
    for (l, r, o) in [(1u64, 1u64, 2u64), (2, 3, 5), (2, 3, 7), (5, 5, 10), (7, 1, 8)] {
        for x in [1u64, 2, 7, 65537, u64::MAX] {
            assert!(!run_product(&scheme, l, r, o, x));
        }
    }
}

#[test]
fn responses_are_the_formulas() {
    let scheme = Pedersen::new();
    let drawn = blinds(&scheme, [5, 7, 100, 11, 13, 17, 19, 23]);
    let prover = scheme.mul_prover_from_blinds(2, 3, 6, drawn).unwrap();
    let x = scheme.scalar_from_u64(4).unwrap();
    let (e1, e2, z1, z2, z3) = scheme.generate_mul_z(&x, &prover).unwrap();
    assert_eq!(e1.to_bytes(), tou8(&(2 * 4 + 11)));
    assert_eq!(e2.to_bytes(), tou8(&(3 * 4 + 13)));
    assert_eq!(z1.to_bytes(), tou8(&(5 * 4 + 17)));
    assert_eq!(z2.to_bytes(), tou8(&(7 * 4 + 23)));
    assert_eq!(z3.to_bytes(), tou8(&((100 - 2 * 7) * 4 + 19)));
    let sent = prover.commit_mul.unwrap().commitments();
    assert!(scheme.verify_mul(&x, &prover.witness, &sent, (e1, e2, z1, z2, z3)));
}

#[test]
fn cross_response_wraps_around_the_group_order() {
    let scheme = Pedersen::new();
    let drawn = blinds(&scheme, [5, 7, 10, 11, 13, 17, 19, 23]);
    let prover = scheme.mul_prover_from_blinds(2, 3, 6, drawn).unwrap();
    let x = scheme.scalar_from_u64(4).unwrap();
    let (e1, e2, z1, z2, z3) = scheme.generate_mul_z(&x, &prover).unwrap();
    assert_eq!(z3.to_bytes(), tou8(&(19 - 4 * 4)));
    let sent = prover.commit_mul.unwrap().commitments();
    assert!(scheme.verify_mul(&x, &prover.witness, &sent, (e1, e2, z1, z2, z3)));
}

#[test]
fn responses_fail_where_the_cross_term_cancels() {
    let scheme = Pedersen::new();
    let drawn = blinds(&scheme, [5, 7, 14, 11, 13, 17, 19, 23]);
    let prover = scheme.mul_prover_from_blinds(2, 3, 6, drawn).unwrap();
    let x = scheme.scalar_from_u64(4).unwrap();
    assert!(matches!(scheme.generate_mul_z(&x, &prover), Err(ProofError::InvalidScalar)));
}

#[test]
fn responses_are_a_function_of_state_and_challenge() {
    let scheme = Pedersen::new();
    let prover = scheme.generate_mul_prover(2, 3, 6).unwrap();
    let x = scheme.scalar_from_u64(9).unwrap();
    let first = scheme.generate_mul_z(&x, &prover).unwrap();
    let second = scheme.generate_mul_z(&x, &prover).unwrap();
    assert!(first == second);
}

#[test]
fn responses_need_the_commit_move() {
    let scheme = Pedersen::new();
    let prover = scheme.generate_prover(1, 3, 4).unwrap();
    let x = scheme.scalar_from_u64(1).unwrap();
    assert!(matches!(scheme.generate_mul_z(&x, &prover), Err(ProofError::MissingAuxiliaryState)));
}

#[test]
fn zero_wire_values_are_taken_for_products() {
    let scheme = Pedersen::new();
    for (l, r, o) in [(0u64, 3u64, 0u64), (3, 0, 0), (1, 1, 0), (0, 0, 0), (0, 0, 7)] {
        let prover = scheme.generate_mul_prover(l, r, o).unwrap();
        assert_eq!((prover.value_l, prover.value_r, prover.value_o), (l, r, o));
        assert_eq!(prover.witness.W_L, scheme.commit(l, &prover.r_l).unwrap());
        assert_eq!(prover.witness.W_R, scheme.commit(r, &prover.r_r).unwrap());
        assert_eq!(prover.witness.W_O, scheme.commit(o, &prover.r_o).unwrap());
    }
}

#[test]
fn zero_times_five_is_zero() {
    let scheme = Pedersen::new();
    let (prover, x, (e1, e2, z1, z2, z3)) = session(&scheme, 0, 5, 0, 3);
    let sent = prover.commit_mul.unwrap().commitments();
    let w = prover.witness;
    assert!(scheme.check_opening(&x, &w.W_L, &sent.c1, &e1, &z1));
    assert!(scheme.check_opening(&x, &w.W_R, &sent.c2, &e2, &z2));
    assert!(scheme.check_cross(&x, &w, &sent.c3, &e1, &z3));
    assert!(scheme.verify_mul(&x, &w, &sent, (e1, e2, z1, z2, z3)));
}

#[test]
fn true_products_with_zero_verify() {
    let scheme = Pedersen::new();
    for (l, r) in [(0u64, 5u64), (5, 0), (0, 0), (0, u64::MAX), (u64::MAX, 0)] {
        for x in [1u64, 3, u64::MAX] {
            assert!(run_product(&scheme, l, r, 0, x));
        }
    }
}

#[test]
fn false_products_with_zero_fail() {
    let scheme = Pedersen::new();
    for (l, r, o) in [(0u64, 5u64, 1u64), (5, 0, 5), (0, 0, 1), (2, 3, 0), (1, 1, 0)] {
        for x in [1u64, 3, u64::MAX] {
            assert!(!run_product(&scheme, l, r, o, x));
        }
    }
}

#[test]
fn responses_for_a_zero_left_operand() {
    let scheme = Pedersen::new();
    let drawn = blinds(&scheme, [5, 7, 100, 11, 13, 17, 19, 23]);
    let prover = scheme.mul_prover_from_blinds(0, 3, 0, drawn).unwrap();
    let x = scheme.scalar_from_u64(4).unwrap();
    let (e1, e2, z1, z2, z3) = scheme.generate_mul_z(&x, &prover).unwrap();
    assert_eq!(e1.to_bytes(), tou8(&11));
    assert_eq!(e2.to_bytes(), tou8(&(3 * 4 + 13)));
    assert_eq!(z1.to_bytes(), tou8(&(5 * 4 + 17)));
    assert_eq!(z2.to_bytes(), tou8(&(7 * 4 + 23)));
    assert_eq!(z3.to_bytes(), tou8(&(100 * 4 + 19)));
    let sent = prover.commit_mul.unwrap().commitments();
    assert!(scheme.verify_mul(&x, &prover.witness, &sent, (e1, e2, z1, z2, z3)));
}

#[test]
fn responses_for_a_zero_right_operand() {
    let scheme = Pedersen::new();
    let drawn = blinds(&scheme, [5, 7, 100, 11, 13, 17, 19, 23]);
    let prover = scheme.mul_prover_from_blinds(2, 0, 0, drawn).unwrap();
    let x = scheme.scalar_from_u64(4).unwrap();
    let (e1, e2, z1, z2, z3) = scheme.generate_mul_z(&x, &prover).unwrap();
    assert_eq!(e1.to_bytes(), tou8(&(2 * 4 + 11)));
    assert_eq!(e2.to_bytes(), tou8(&13));
    assert_eq!(z3.to_bytes(), tou8(&((100 - 2 * 7) * 4 + 19)));
    let sent = prover.commit_mul.unwrap().commitments();
    assert!(scheme.verify_mul(&x, &prover.witness, &sent, (e1, e2, z1, z2, z3)));
}

#[test]
fn generated_product_session_holds_what_it_committed_to() {
    let scheme = Pedersen::new();
    let prover = scheme.generate_mul_prover(2, 3, 6).unwrap();
    assert!(prover.commit_add.is_none());
    let aux = prover.commit_mul.unwrap();
    assert_eq!((prover.value_l, prover.value_r, prover.value_o), (2, 3, 6));
    assert_eq!(prover.witness.W_L, scheme.commit(2, &prover.r_l).unwrap());
    assert_eq!(prover.witness.W_R, scheme.commit(3, &prover.r_r).unwrap());
    assert_eq!(prover.witness.W_O, scheme.commit(6, &prover.r_o).unwrap());
    assert_eq!(aux.c1_commit, scheme.commit_blind(&aux.t1, &aux.t3).unwrap());
    assert_eq!(aux.c2_commit, scheme.commit_blind(&aux.t2, &aux.t5).unwrap());
    let a = pedersen_gates::mul_commit_secret(&scheme, &prover.witness.W_R, &aux.t1).unwrap();
    let b = pedersen_gates::mul_commit_secret(&scheme, &Commitment::generator_f(), &aux.t4).unwrap();
    assert_eq!(aux.c3_commit, scheme.commit_sum(vec![a, b], vec![]).unwrap());
}

fn flip_parity(c: &Commitment) -> Commitment {
    let mut bytes = c.to_vec();
    bytes[0] ^= 1;
    Commitment::from_vec(bytes)
}

#[test]
fn altered_product_commitments_fail() {
    let scheme = Pedersen::new();
    let (prover, x, answers) = session(&scheme, 2, 3, 6, 7);
    let sent = prover.commit_mul.unwrap().commitments();
    let w = prover.witness;
    assert!(scheme.verify_mul(&x, &w, &sent, answers));

    let stranger = scheme.commit(9, &scheme.random_scalar()).unwrap();
    for other in [stranger, flip_parity(&w.W_L)] {
        assert!(!scheme.verify_mul(&x, &PedersenWitness { W_L: other, ..w }, &sent, answers));
    }
    for other in [stranger, flip_parity(&w.W_R)] {
        assert!(!scheme.verify_mul(&x, &PedersenWitness { W_R: other, ..w }, &sent, answers));
    }
    for other in [stranger, flip_parity(&w.W_O)] {
        assert!(!scheme.verify_mul(&x, &PedersenWitness { W_O: other, ..w }, &sent, answers));
    }
    for other in [stranger, flip_parity(&sent.c1)] {
        assert!(!scheme.verify_mul(&x, &w, &MulCommitments { c1: other, ..sent }, answers));
    }
    for other in [stranger, flip_parity(&sent.c2)] {
        assert!(!scheme.verify_mul(&x, &w, &MulCommitments { c2: other, ..sent }, answers));
    }
    for other in [stranger, flip_parity(&sent.c3)] {
        assert!(!scheme.verify_mul(&x, &w, &MulCommitments { c3: other, ..sent }, answers));
    }
}

#[test]
fn product_responses_for_another_challenge_fail() {
    let scheme = Pedersen::new();
    let (prover, x, answers) = session(&scheme, 2, 3, 6, 7);
    let sent = prover.commit_mul.unwrap().commitments();
    let y = scheme.scalar_from_u64(8).unwrap();
    assert!(scheme.verify_mul(&x, &prover.witness, &sent, answers));
    assert!(!scheme.verify_mul(&y, &prover.witness, &sent, answers));
}

#[test]
fn each_altered_product_response_fails() {
    let scheme = Pedersen::new();
    let (prover, x, (e1, e2, z1, z2, z3)) = session(&scheme, 2, 3, 6, 7);
    let sent = prover.commit_mul.unwrap().commitments();
    let w = prover.witness;
    let other = scheme.random_scalar();
    assert!(!scheme.verify_mul(&x, &w, &sent, (other, e2, z1, z2, z3)));
    assert!(!scheme.verify_mul(&x, &w, &sent, (e1, other, z1, z2, z3)));
    assert!(!scheme.verify_mul(&x, &w, &sent, (e1, e2, other, z2, z3)));
    assert!(!scheme.verify_mul(&x, &w, &sent, (e1, e2, z1, other, z3)));
    assert!(!scheme.verify_mul(&x, &w, &sent, (e1, e2, z1, z2, other)));
}
