//! The Freivald verifier: probe-vector generation, the dimension check, the
//! single-round probabilistic check, and round repetition.
//!
//! A round accepts exactly when `A * (B * x) == C * x` for its random probe
//! `x` of consecutive powers. A correct product is always accepted; an
//! acceptance of a wrong product is a false accept, whose probability is
//! bounded by `(n - 1) / |field|` per round because `r` is drawn uniformly
//! from the whole field, and shrinks geometrically with independent rounds.

use vstd::prelude::*;
use crate::field::{p, fpow, Fe};
use crate::matrix::{
    is_grid, lemma_mat_vec_assoc, mat_vec_mul, matmul, mvmul, vals, vec_eq_fe, vec_wf, Matrix,
};

verus! {

/// Why a request was rejected before any probing took place.
#[derive(Clone, Copy, Debug, PartialEq, Eq, Structural)]
pub enum FreivaldError {
    /// A probe vector or verifier of size zero was requested.
    InvalidSize,
    /// The three matrices cannot satisfy `C == A * B` for shape reasons.
    DimensionMismatch,
}

/// The consecutive powers `(1, r, r^2, ..., r^(n-1))` of a field element.
pub open spec fn powers(r: nat, n: nat) -> Seq<nat> {
    Seq::new(n, |i: int| fpow(r, i as nat))
}

/// `v` is a valid probe vector of length `n`: well-formed field elements
/// whose values are the consecutive powers of a single field element.
pub open spec fn is_probe(v: Seq<Fe>, n: nat) -> bool {
    &&& v.len() == n
    &&& vec_wf(v)
    &&& exists|r: nat| r < p() && vals(v) == #[trigger] powers(r, n)
}

/// `A * B` is defined and has the shape of `C`.
pub open spec fn dims_compatible(a: Matrix, b: Matrix, c: Matrix) -> bool {
    &&& a.cols == b.rows
    &&& a.rows == c.rows
    &&& b.cols == c.cols
}

/// Inputs a single round always decides with a boolean, never an error: a
/// nonempty square candidate of compatible shape, so that a probe sized to
/// its row count also fits its column count.
pub open spec fn well_sized(a: Matrix, b: Matrix, c: Matrix) -> bool {
    &&& c.rows != 0
    &&& dims_compatible(a, b, c)
    &&& c.cols == c.rows
}

/// The verdict `accepted` is the one a probe of consecutive powers of the
/// field element `rv` gives on `A`, `B`, `C`: accept exactly when
/// `A * (B * x) == C * x` for `x = (1, rv, rv^2, ...)` of length `C.rows`.
pub open spec fn probe_explains(a: Matrix, b: Matrix, c: Matrix, rv: nat, accepted: bool) -> bool {
    &&& rv < p()
    &&& accepted == (mvmul(a@, mvmul(b@, powers(rv, c.rows as nat))) == mvmul(
        c@,
        powers(rv, c.rows as nat),
    ))
}

/// True exactly when the shapes of the three matrices are compatible:
/// `A.cols == B.rows`, `A.rows == C.rows` and `B.cols == C.cols`. A `false`
/// means `C` cannot equal `A * B` regardless of the matrices' contents.
pub fn check_matrix_dimensions(matrix_a: &Matrix, matrix_b: &Matrix, supposed_ab: &Matrix) -> (r:
    bool)
    ensures
        r == dims_compatible(*matrix_a, *matrix_b, *supposed_ab),
{
    matrix_a.cols == matrix_b.rows && matrix_a.rows == supposed_ab.rows && matrix_b.cols
        == supposed_ab.cols
}

/// The deterministic core of probe generation: the vector of consecutive
/// powers `(1, r, r^2, ..., r^(size-1))` of a given field element, built in
/// `size` field multiplications.
pub fn powers_vec(r: &Fe, size: usize) -> (v: Vec<Fe>)
    requires
        r.inv(),
        size > 0,
    ensures
        v@.len() == size,
        vec_wf(v@),
        vals(v@) == powers(r.val(), size as nat),
{
    let mut v: Vec<Fe> = Vec::new();
    v.push(Fe::one());
    let mut i: usize = 1;
    while i < size
        invariant
            r.inv(),
            1 <= i <= size,
            v@.len() == i,
            forall|k: int| 0 <= k < i ==> (#[trigger] v@[k]).inv(),
            forall|k: int| 0 <= k < i ==> (#[trigger] v@[k]).val() == fpow(r.val(), k as nat),
        decreases size - i,
    {
        let prev = v[i - 1];
        let next = prev.mul_fe(r);
        v.push(next);
        i += 1;
    }
    proof {
        assert(vals(v@) =~= powers(r.val(), size as nat));
    }
    v
}

/// A fresh probe vector of length `size`: consecutive powers of a freshly
/// sampled random field element. Rejects a zero size.
pub fn generate_probe_vector(size: usize) -> (r: Result<Vec<Fe>, FreivaldError>)
    ensures
        size == 0 ==> r == Err::<Vec<Fe>, FreivaldError>(FreivaldError::InvalidSize),
        size != 0 ==> r is Ok && is_probe(r->Ok_0@, size as nat),
{
    if size == 0 {
        return Err(FreivaldError::InvalidSize);
    }
    let rfe = Fe::sample();
    let v = powers_vec(&rfe, size);
    proof {
        assert(rfe.val() < p() && vals(v@) == powers(rfe.val(), size as nat));
    }
    Ok(v)
}

/// A verifier instance: it owns exactly one probe vector, set at
/// construction and never mutated, and is stateless otherwise.
pub struct Freivald {
    pub x: Vec<Fe>,
}

impl Freivald {
    /// The owned probe vector is a nonempty valid probe.
    pub open spec fn wf(self) -> bool {
        &&& self.x@.len() > 0
        &&& is_probe(self.x@, self.x@.len())
    }

    /// A verifier with a fresh probe vector of length `array_size`, which
    /// must be the row count of the candidate product to be checked.
    /// Rejects a zero size.
    pub fn new(array_size: usize) -> (r: Result<Freivald, FreivaldError>)
        ensures
            array_size == 0 ==> r == Err::<Freivald, FreivaldError>(FreivaldError::InvalidSize),
            array_size != 0 ==> r is Ok && r->Ok_0.wf() && r->Ok_0.x@.len() == array_size,
    {
        match generate_probe_vector(array_size) {
            Err(e) => Err(e),
            Ok(x) => Ok(Freivald { x }),
        }
    }

    /// One round of Freivald's check: accepts exactly when
    /// `A * (B * x) == C * x` for the owned probe `x`, computed with two
    /// matrix-vector products on the right-associated side so every step
    /// stays quadratic. Incompatible shapes — including a probe whose length
    /// is not the column count of `C` — are a `DimensionMismatch`, reported
    /// before any multiplication. A correct product is always accepted, and
    /// a rejection proves the product wrong; only a false accept is left to
    /// chance.
    pub fn verify(&self, matrix_a: &Matrix, matrix_b: &Matrix, supposed_ab: &Matrix) -> (r: Result<
        bool,
        FreivaldError,
    >)
        requires
            self.wf(),
            matrix_a.wf(),
            matrix_b.wf(),
            supposed_ab.wf(),
        ensures
            !(dims_compatible(*matrix_a, *matrix_b, *supposed_ab) && supposed_ab.cols
                == self.x@.len()) ==> r == Err::<bool, FreivaldError>(
                FreivaldError::DimensionMismatch,
            ),
            dims_compatible(*matrix_a, *matrix_b, *supposed_ab) && supposed_ab.cols
                == self.x@.len() ==> r == Ok::<bool, FreivaldError>(
                mvmul(matrix_a@, mvmul(matrix_b@, vals(self.x@))) == mvmul(
                    supposed_ab@,
                    vals(self.x@),
                ),
            ),
            dims_compatible(*matrix_a, *matrix_b, *supposed_ab) && supposed_ab.cols
                == self.x@.len() && supposed_ab@ == matmul(
                matrix_a@,
                matrix_b@,
                supposed_ab.cols as nat,
            ) ==> r == Ok::<bool, FreivaldError>(true),
            r == Ok::<bool, FreivaldError>(false) ==> supposed_ab@ != matmul(
                matrix_a@,
                matrix_b@,
                supposed_ab.cols as nat,
            ),
    {
        if !(check_matrix_dimensions(matrix_a, matrix_b, supposed_ab) && self.x.len()
            == supposed_ab.cols) {
            return Err(FreivaldError::DimensionMismatch);
        }
        let bx = mat_vec_mul(matrix_b, &self.x);
        let abx = mat_vec_mul(matrix_a, &bx);
        let cx = mat_vec_mul(supposed_ab, &self.x);
        let eq = vec_eq_fe(&abx, &cx);
        proof {
            let xv = vals(self.x@);
            assert(is_grid(matrix_a@, matrix_a.rows as nat, matrix_a.cols as nat));
            assert(is_grid(matrix_b@, matrix_b.rows as nat, matrix_b.cols as nat));
            lemma_mat_vec_assoc(matrix_a@, matrix_b@, xv);
        }
        Ok(eq)
    }

    /// A single round with a fresh verifier sized to the row count of the
    /// candidate product; for single-round use without retained state. On
    /// every well-sized input it returns a definite verdict, and that
    /// verdict is the one its freshly sampled probe gives.
    pub fn verify_once(matrix_a: &Matrix, matrix_b: &Matrix, supposed_ab: &Matrix) -> (r: Result<
        bool,
        FreivaldError,
    >)
        requires
            matrix_a.wf(),
            matrix_b.wf(),
            supposed_ab.wf(),
        ensures
            supposed_ab.rows == 0 ==> r == Err::<bool, FreivaldError>(FreivaldError::InvalidSize),
            supposed_ab.rows != 0 && !well_sized(*matrix_a, *matrix_b, *supposed_ab) ==> r
                == Err::<bool, FreivaldError>(FreivaldError::DimensionMismatch),
            r is Ok <==> well_sized(*matrix_a, *matrix_b, *supposed_ab),
            well_sized(*matrix_a, *matrix_b, *supposed_ab) ==> exists|rv: nat|
                #[trigger] probe_explains(*matrix_a, *matrix_b, *supposed_ab, rv, r->Ok_0),
            well_sized(*matrix_a, *matrix_b, *supposed_ab) && supposed_ab@ == matmul(
                matrix_a@,
                matrix_b@,
                supposed_ab.cols as nat,
            ) ==> r == Ok::<bool, FreivaldError>(true),
            r == Ok::<bool, FreivaldError>(false) ==> supposed_ab@ != matmul(
                matrix_a@,
                matrix_b@,
                supposed_ab.cols as nat,
            ),
    {
        let freivald = match Freivald::new(supposed_ab.rows) {
            Err(e) => {
                return Err(e);
            },
            Ok(f) => f,
        };
        let r = freivald.verify(matrix_a, matrix_b, supposed_ab);
        proof {
            if well_sized(*matrix_a, *matrix_b, *supposed_ab) {
                let n = freivald.x@.len();
                let rv = choose|q: nat| q < p() && vals(freivald.x@) == #[trigger] powers(q, n);
                assert(rv < p() && vals(freivald.x@) == powers(rv, n));
                assert(n == supposed_ab.rows as nat);
                assert(probe_explains(*matrix_a, *matrix_b, *supposed_ab, rv, r->Ok_0));
            }
        }
        r
    }

    /// Confidence amplification: `rounds` independent single rounds, each
    /// with a fresh probe vector, accepting only if every round accepts and
    /// rejecting at the first rejection. The false-accept probability drops
    /// to the per-round bound raised to the power `rounds`. On every
    /// well-sized input it returns a definite verdict, and either verdict is
    /// witnessed by a probe that gives it.
    pub fn verify_rounds(
        matrix_a: &Matrix,
        matrix_b: &Matrix,
        supposed_ab: &Matrix,
        rounds: usize,
    ) -> (r: Result<bool, FreivaldError>)
        requires
            rounds >= 1,
            matrix_a.wf(),
            matrix_b.wf(),
            supposed_ab.wf(),
        ensures
            supposed_ab.rows == 0 ==> r == Err::<bool, FreivaldError>(FreivaldError::InvalidSize),
            supposed_ab.rows != 0 && !well_sized(*matrix_a, *matrix_b, *supposed_ab) ==> r
                == Err::<bool, FreivaldError>(FreivaldError::DimensionMismatch),
            r is Ok <==> well_sized(*matrix_a, *matrix_b, *supposed_ab),
            well_sized(*matrix_a, *matrix_b, *supposed_ab) && supposed_ab@ == matmul(
                matrix_a@,
                matrix_b@,
                supposed_ab.cols as nat,
            ) ==> r == Ok::<bool, FreivaldError>(true),
            r == Ok::<bool, FreivaldError>(false) ==> supposed_ab@ != matmul(
                matrix_a@,
                matrix_b@,
                supposed_ab.cols as nat,
            ),
            r == Ok::<bool, FreivaldError>(true) ==> exists|rv: nat|
                #[trigger] probe_explains(*matrix_a, *matrix_b, *supposed_ab, rv, true),
            r == Ok::<bool, FreivaldError>(false) ==> exists|rv: nat|
                #[trigger] probe_explains(*matrix_a, *matrix_b, *supposed_ab, rv, false),
    {
        let mut k: usize = 0;
        while k < rounds
            invariant
                rounds >= 1,
                matrix_a.wf(),
                matrix_b.wf(),
                supposed_ab.wf(),
                k <= rounds,
                k > 0 ==> well_sized(*matrix_a, *matrix_b, *supposed_ab),
                k > 0 ==> exists|rv: nat|
                    #[trigger] probe_explains(*matrix_a, *matrix_b, *supposed_ab, rv, true),
            decreases rounds - k,
        {
            let res = Self::verify_once(matrix_a, matrix_b, supposed_ab);
            match res {
                Err(e) => {
                    return Err(e);
                },
                Ok(false) => {
                    proof {
                        let rv = choose|rv: nat|
                            #[trigger] probe_explains(
                                *matrix_a,
                                *matrix_b,
                                *supposed_ab,
                                rv,
                                res->Ok_0,
                            );
                        assert(probe_explains(*matrix_a, *matrix_b, *supposed_ab, rv, false));
                    }
                    return Ok(false);
                },
                Ok(true) => {
                    proof {
                        let rv = choose|rv: nat|
                            #[trigger] probe_explains(
                                *matrix_a,
                                *matrix_b,
                                *supposed_ab,
                                rv,
                                res->Ok_0,
                            );
                        assert(probe_explains(*matrix_a, *matrix_b, *supposed_ab, rv, true));
                    }
                },
            }
            k += 1;
        }
        Ok(true)
    }
}

} // verus!
