use freivald::checker::{check_matrix_dimensions, generate_probe_vector, Freivald, FreivaldError};
use freivald::field::Fe;
use freivald::matrix::{matrix_square, random_matrix, Matrix};

/// The little-endian limbs of the BLS12-381 base-field modulus, as the
/// library's field model states them.
const P_LIMBS: [u64; 6] = [
    0xb9feffffffffaaab,
    0x1eabfffeb153ffff,
    0x6730d2a0f6b0f624,
    0x64774b84f38512bf,
    0x4b1ba7b6434bacd7,
    0x1a0111ea397fe69a,
];

#[test]
fn modulus_limbs_match_the_field() {
    let m = <ark_bls12_381::Fq as ark_ff::PrimeField>::MODULUS.0;
    assert_eq!(m, P_LIMBS);
}

#[test]
fn field_ops_reduce_modulo_the_prime() {
    // p - 1: the modulus with its lowest limb decremented.
    let mut limbs = P_LIMBS;
    limbs[0] -= 1;
    let p_minus_one = Fe { limbs };
    // (p - 1) + 1 == 0 and (p - 1) * (p - 1) == 1 in the field.
    assert_eq!(p_minus_one.add_fe(&Fe::one()), Fe::zero());
    assert_eq!(p_minus_one.mul_fe(&p_minus_one), Fe::one());
    assert!(!p_minus_one.eq_fe(&Fe::zero()));
}

fn square_from(rows: Vec<Vec<u64>>) -> Matrix {
    let cols = rows.len();
    Matrix::from_u64_rows(&rows, cols)
}

/// A fixed 3x3 matrix and its exact square, small enough that no reduction
/// modulo the field prime takes place.
fn fixture() -> (Matrix, Matrix) {
    let a = square_from(vec![vec![1, 2, 3], vec![4, 5, 6], vec![7, 8, 9]]);
    let c = square_from(vec![
        vec![30, 36, 42],
        vec![66, 81, 96],
        vec![102, 126, 150],
    ]);
    (a, c)
}

#[test]
fn probe_zero_size_rejected() {
    assert_eq!(
        generate_probe_vector(0).unwrap_err(),
        FreivaldError::InvalidSize
    );
    assert!(matches!(Freivald::new(0), Err(FreivaldError::InvalidSize)));
}

#[test]
fn probe_of_size_one_is_identity() {
    let v = generate_probe_vector(1).unwrap();
    assert_eq!(v.len(), 1);
    assert_eq!(v[0], Fe::one());
}

#[test]
fn probe_entries_are_consecutive_powers() {
    let v = generate_probe_vector(6).unwrap();
    assert_eq!(v.len(), 6);
    assert_eq!(v[0], Fe::one());
    // Entry 1 is r itself; every later entry is the previous one times r.
    let r = v[1];
    for i in 1..6 {
        assert_eq!(v[i], v[i - 1].mul_fe(&r));
    }
}

#[test]
fn field_ops_concrete_values() {
    let three = Fe::from_u64(3);
    let four = Fe::from_u64(4);
    assert_eq!(three.add_fe(&four), Fe::from_u64(7));
    assert_eq!(three.mul_fe(&four), Fe::from_u64(12));
    assert_eq!(Fe::zero().add_fe(&three), three);
    assert_eq!(Fe::one().mul_fe(&four), four);
    assert!(three.eq_fe(&Fe::from_u64(3)));
    assert!(!three.eq_fe(&four));
    assert!(!Fe::zero().eq_fe(&Fe::one()));
}

#[test]
fn dimension_check_accepts_compatible_shapes() {
    let a = Matrix::from_u64_rows(&vec![vec![1, 2, 3], vec![4, 5, 6]], 3);
    let b = Matrix::from_u64_rows(&vec![vec![1, 0], vec![0, 1], vec![1, 1]], 2);
    let c = Matrix::from_u64_rows(&vec![vec![4, 5], vec![10, 11]], 2);
    assert!(check_matrix_dimensions(&a, &b, &c));
}

#[test]
fn dimension_check_rejects_each_mismatch() {
    let (a, c) = fixture();
    let two = square_from(vec![vec![1, 0], vec![0, 1]]);
    // A.cols != B.rows
    assert!(!check_matrix_dimensions(&a, &two, &c));
    // A.rows != C.rows
    assert!(!check_matrix_dimensions(&two, &two, &c));
    // B.cols != C.cols
    let wide = Matrix::from_u64_rows(&vec![vec![1, 1], vec![1, 1], vec![1, 1]], 2);
    assert!(!check_matrix_dimensions(&a, &wide, &c));
}

#[test]
fn verify_rejects_incompatible_dimensions_without_probing() {
    let (a, c) = fixture();
    let two = square_from(vec![vec![1, 0], vec![0, 1]]);
    let f = Freivald::new(3).unwrap();
    assert_eq!(
        f.verify(&a, &two, &c).unwrap_err(),
        FreivaldError::DimensionMismatch
    );
    // A probe sized differently from C's columns is a shape error too.
    let f2 = Freivald::new(2).unwrap();
    assert_eq!(
        f2.verify(&a, &a, &c).unwrap_err(),
        FreivaldError::DimensionMismatch
    );
}

#[test]
fn verify_once_rejects_compatible_but_non_square() {
    // Shapes are compatible, but C is 2x4, so a probe sized to C's rows
    // cannot be multiplied by B: reported as a dimension mismatch.
    let a = Matrix::from_u64_rows(&vec![vec![1, 2, 3], vec![4, 5, 6]], 3);
    let b = Matrix::from_u64_rows(
        &vec![vec![1, 0, 0, 1], vec![0, 1, 0, 1], vec![0, 0, 1, 1]],
        4,
    );
    let c = Matrix::from_u64_rows(&vec![vec![1, 2, 3, 6], vec![4, 5, 6, 15]], 4);
    assert_eq!(
        Freivald::verify_once(&a, &b, &c).unwrap_err(),
        FreivaldError::DimensionMismatch
    );
}

#[test]
fn verify_once_rejects_empty_product() {
    let no_rows: Vec<Vec<u64>> = vec![];
    let empty = Matrix::from_u64_rows(&no_rows, 0);
    assert_eq!(
        Freivald::verify_once(&empty, &empty, &empty).unwrap_err(),
        FreivaldError::InvalidSize
    );
}

#[test]
fn scenario_fixed_matrix_accepts_exact_square() {
    let (a, c) = fixture();
    // The verified full product agrees with the hand-computed square.
    let squared = matrix_square(&a);
    for i in 0..3 {
        for j in 0..3 {
            assert_eq!(squared.get(i, j), c.get(i, j));
        }
    }
    // A correct product is accepted on every call.
    for _ in 0..20 {
        assert_eq!(Freivald::verify_once(&a, &a, &c), Ok(true));
    }
    assert_eq!(Freivald::verify_rounds(&a, &a, &c, 20), Ok(true));
}

#[test]
fn scenario_fixed_matrix_rejects_mutated_square() {
    let (a, c) = fixture();
    let mut rows = vec![
        vec![30, 36, 42],
        vec![66, 81, 96],
        vec![102, 126, 150],
    ];
    rows[0][0] += 1;
    let mutated = square_from(rows);
    assert_eq!(Freivald::verify_once(&a, &a, &mutated), Ok(false));
    assert_eq!(Freivald::verify_rounds(&a, &a, &mutated, 20), Ok(false));
    // The untouched square still passes.
    assert_eq!(Freivald::verify_once(&a, &a, &c), Ok(true));
}

#[test]
fn random_square_always_accepted() {
    for _ in 0..3 {
        let a = random_matrix(10);
        let c = matrix_square(&a);
        let f = Freivald::new(10).unwrap();
        assert_eq!(f.verify(&a, &a, &c), Ok(true));
        // Fresh probes in every round, still no false negative.
        assert_eq!(Freivald::verify_rounds(&a, &a, &c, 10), Ok(true));
    }
}

#[test]
fn random_wrong_product_rejected() {
    let a = random_matrix(8);
    let b = random_matrix(8);
    let c = matrix_square(&a);
    // c == a * a, which differs from a * b (except with negligible chance).
    assert_eq!(Freivald::verify_once(&a, &b, &c), Ok(false));
}

#[test]
fn false_accept_rate_consistent_with_bound() {
    // With r drawn uniformly from the whole field the per-round false-accept
    // bound is (n - 1) / |field|, negligible here; amplified over three
    // rounds, no trial may accept a wrong product.
    let (a, _) = fixture();
    let mut rows = vec![
        vec![30, 36, 42],
        vec![66, 81, 96],
        vec![102, 126, 150],
    ];
    rows[1][2] += 5;
    let wrong = square_from(rows);
    let mut accepts: usize = 0;
    for _ in 0..300 {
        if Freivald::verify_rounds(&a, &a, &wrong, 3) == Ok(true) {
            accepts += 1;
        }
    }
    assert_eq!(accepts, 0);
}

#[test]
fn probe_is_fresh_per_verifier() {
    // Two verifiers draw independent random probes; with a field this large
    // a collision beyond the shared leading 1 is negligible.
    let f1 = Freivald::new(4).unwrap();
    let f2 = Freivald::new(4).unwrap();
    assert_eq!(f1.x[0], f2.x[0]);
    assert_ne!(f1.x[1], f2.x[1]);
}
