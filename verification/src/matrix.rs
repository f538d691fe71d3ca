//! Matrices of field elements, their mathematical model, and the verified
//! matrix-vector and matrix-matrix products the check is built from.
//!
//! A matrix is modeled as a sequence of rows, each row a sequence of
//! canonical field representatives; all products are stated over `fadd` and
//! `fmul`, integer arithmetic modulo the field's prime.

use vstd::prelude::*;
use crate::field::{
    Fe, fadd, fmul, lemma_fadd_rearrange, lemma_fmul_assoc, lemma_fmul_distrib,
    lemma_fmul_distrib_right, lemma_fmul_zero, lemma_p_bounds,
};
use vstd::arithmetic::div_mod::lemma_small_mod;

verus! {

/// The canonical representatives of a sequence of field elements.
pub open spec fn vals(v: Seq<Fe>) -> Seq<nat> {
    v.map_values(|e: Fe| e.val())
}

/// Every element of the sequence is a well-formed field element.
pub open spec fn vec_wf(v: Seq<Fe>) -> bool {
    forall|k: int| 0 <= k < v.len() ==> (#[trigger] v[k]).inv()
}

/// The dot product of two equal-length vectors, in the field.
pub open spec fn dot(u: Seq<nat>, w: Seq<nat>) -> nat
    recommends
        u.len() == w.len(),
    decreases u.len(),
{
    if u.len() == 0 {
        0
    } else {
        fadd(dot(u.drop_last(), w.drop_last()), fmul(u.last(), w.last()))
    }
}

/// Column `k` of a matrix given as a sequence of rows.
pub open spec fn col(m: Seq<Seq<nat>>, k: int) -> Seq<nat> {
    Seq::new(m.len(), |j: int| m[j][k])
}

/// The matrix-vector product: entry `i` is the dot product of row `i` with `x`.
pub open spec fn mvmul(m: Seq<Seq<nat>>, x: Seq<nat>) -> Seq<nat> {
    Seq::new(m.len(), |i: int| dot(m[i], x))
}

/// The matrix product of `a` and `b`, where `b` has `bcols` columns.
pub open spec fn matmul(a: Seq<Seq<nat>>, b: Seq<Seq<nat>>, bcols: nat) -> Seq<Seq<nat>> {
    Seq::new(a.len(), |i: int| Seq::new(bcols, |k: int| dot(a[i], col(b, k))))
}

/// `m` is a rectangular grid with `r` rows and `c` columns.
pub open spec fn is_grid(m: Seq<Seq<nat>>, r: nat, c: nat) -> bool {
    &&& m.len() == r
    &&& forall|i: int| 0 <= i < m.len() ==> (#[trigger] m[i]).len() == c
}

/// The pointwise field sum of two vectors.
pub open spec fn vadd(u: Seq<nat>, w: Seq<nat>) -> Seq<nat> {
    Seq::new(u.len(), |k: int| fadd(u[k], w[k]))
}

/// A vector scaled by a field element.
pub open spec fn vscale(c: nat, w: Seq<nat>) -> Seq<nat> {
    Seq::new(w.len(), |k: int| fmul(c, w[k]))
}

/// Extending both vectors by one entry extends their dot product by the
/// product of those entries.
pub proof fn lemma_dot_step(u: Seq<nat>, w: Seq<nat>, k: int)
    requires
        0 <= k < u.len(),
        k < w.len(),
    ensures
        dot(u.take(k + 1), w.take(k + 1)) == fadd(dot(u.take(k), w.take(k)), fmul(u[k], w[k])),
{
    assert(u.take(k + 1).drop_last() =~= u.take(k));
    assert(w.take(k + 1).drop_last() =~= w.take(k));
    assert(u.take(k + 1).last() == u[k]);
    assert(w.take(k + 1).last() == w[k]);
}

/// The dot product of an all-zero vector with anything is zero.
pub proof fn lemma_dot_zero_left(u: Seq<nat>, x: Seq<nat>)
    requires
        u.len() == x.len(),
        forall|k: int| 0 <= k < u.len() ==> u[k] == 0,
    ensures
        dot(u, x) == 0,
    decreases u.len(),
{
    lemma_p_bounds();
    if u.len() > 0 {
        lemma_dot_zero_left(u.drop_last(), x.drop_last());
        lemma_fmul_zero(x.last());
        lemma_small_mod(0, crate::field::p());
        assert(dot(u, x) == fadd(dot(u.drop_last(), x.drop_last()), fmul(u.last(), x.last())));
        assert(fadd(0, 0) == 0);
    }
}

/// The dot product is additive in its left argument.
pub proof fn lemma_dot_vadd(u: Seq<nat>, v: Seq<nat>, x: Seq<nat>)
    requires
        u.len() == x.len(),
        v.len() == x.len(),
    ensures
        dot(vadd(u, v), x) == fadd(dot(u, x), dot(v, x)),
    decreases x.len(),
{
    lemma_p_bounds();
    if x.len() == 0 {
        lemma_small_mod(0, crate::field::p());
        assert(vadd(u, v).len() == 0);
    } else {
        let u1 = u.drop_last();
        let v1 = v.drop_last();
        let x1 = x.drop_last();
        lemma_dot_vadd(u1, v1, x1);
        assert(vadd(u, v).drop_last() =~= vadd(u1, v1));
        assert(vadd(u, v).last() == fadd(u.last(), v.last()));
        assert(dot(vadd(u, v), x) == fadd(
            dot(vadd(u1, v1), x1),
            fmul(fadd(u.last(), v.last()), x.last()),
        ));
        lemma_fmul_distrib_right(u.last(), v.last(), x.last());
        lemma_fadd_rearrange(
            dot(u1, x1),
            dot(v1, x1),
            fmul(u.last(), x.last()),
            fmul(v.last(), x.last()),
        );
    }
}

/// The dot product is homogeneous in its left argument.
pub proof fn lemma_dot_vscale(c: nat, v: Seq<nat>, x: Seq<nat>)
    requires
        v.len() == x.len(),
    ensures
        dot(vscale(c, v), x) == fmul(c, dot(v, x)),
    decreases x.len(),
{
    lemma_p_bounds();
    if x.len() == 0 {
        lemma_fmul_zero(c);
    } else {
        let v1 = v.drop_last();
        let x1 = x.drop_last();
        lemma_dot_vscale(c, v1, x1);
        assert(vscale(c, v).drop_last() =~= vscale(c, v1));
        assert(vscale(c, v).last() == fmul(c, v.last()));
        assert(dot(vscale(c, v), x) == fadd(
            dot(vscale(c, v1), x1),
            fmul(fmul(c, v.last()), x.last()),
        ));
        lemma_fmul_assoc(c, v.last(), x.last());
        lemma_fmul_distrib(c, dot(v1, x1), fmul(v.last(), x.last()));
    }
}

/// Projecting a matrix-vector product onto `u` equals the dot product of `x`
/// with the vector of column projections: the two orders of summation agree.
pub proof fn lemma_dot_mv(u: Seq<nat>, b: Seq<Seq<nat>>, x: Seq<nat>)
    requires
        u.len() == b.len(),
        is_grid(b, b.len(), x.len()),
    ensures
        dot(u, mvmul(b, x)) == dot(Seq::new(x.len(), |k: int| dot(u, col(b, k))), x),
    decreases b.len(),
{
    let w = Seq::new(x.len(), |k: int| dot(u, col(b, k)));
    if b.len() == 0 {
        assert(mvmul(b, x).len() == 0);
        assert forall|k: int| 0 <= k < w.len() implies w[k] == 0 by {
            assert(col(b, k).len() == 0);
        }
        lemma_dot_zero_left(w, x);
    } else {
        let u1 = u.drop_last();
        let b1 = b.drop_last();
        let un = u.last();
        let bn = b.last();
        assert(is_grid(b1, b1.len(), x.len()));
        lemma_dot_mv(u1, b1, x);
        let w1 = Seq::new(x.len(), |k: int| dot(u1, col(b1, k)));
        assert(mvmul(b, x).drop_last() =~= mvmul(b1, x));
        assert(mvmul(b, x).last() == dot(bn, x));
        assert(dot(u, mvmul(b, x)) == fadd(dot(u1, mvmul(b1, x)), fmul(un, dot(bn, x))));
        assert(bn.len() == x.len());
        lemma_dot_vscale(un, bn, x);
        lemma_dot_vadd(w1, vscale(un, bn), x);
        assert forall|k: int| 0 <= k < x.len() implies vadd(w1, vscale(un, bn))[k] == w[k] by {
            assert(col(b, k).drop_last() =~= col(b1, k));
            assert(col(b, k).last() == bn[k]);
            assert(dot(u, col(b, k)) == fadd(dot(u1, col(b1, k)), fmul(un, bn[k])));
        }
        assert(vadd(w1, vscale(un, bn)) =~= w);
    }
}

/// Right-associating the probe product changes nothing: for shape-compatible
/// matrices, `A * (B * x)` equals `(A * B) * x`. A probe of a correct product
/// therefore always lands on equal vectors — the check never rejects a
/// correct product, whatever the probe.
pub proof fn lemma_mat_vec_assoc(a: Seq<Seq<nat>>, b: Seq<Seq<nat>>, x: Seq<nat>)
    requires
        is_grid(a, a.len(), b.len()),
        is_grid(b, b.len(), x.len()),
    ensures
        mvmul(a, mvmul(b, x)) == mvmul(matmul(a, b, x.len()), x),
{
    let lhs = mvmul(a, mvmul(b, x));
    let rhs = mvmul(matmul(a, b, x.len()), x);
    assert forall|i: int| 0 <= i < a.len() implies lhs[i] == rhs[i] by {
        assert(a[i].len() == b.len());
        lemma_dot_mv(a[i], b, x);
        assert(matmul(a, b, x.len())[i] =~= Seq::new(x.len(), |k: int| dot(a[i], col(b, k))));
    }
    assert(lhs =~= rhs);
}

/// A matrix of field elements with fixed row and column counts, stored as a
/// vector of rows. Inputs to the check are read, never mutated.
pub struct Matrix {
    pub rows: usize,
    pub cols: usize,
    pub data: Vec<Vec<Fe>>,
}

impl View for Matrix {
    type V = Seq<Seq<nat>>;

    open spec fn view(&self) -> Seq<Seq<nat>> {
        Seq::new(
            self.rows as nat,
            |i: int| Seq::new(self.cols as nat, |j: int| self.data@[i]@[j].val()),
        )
    }
}

impl Matrix {
    /// A well-formed matrix: the storage matches the stated row and column
    /// counts, and every entry is a well-formed field element.
    pub open spec fn wf(self) -> bool {
        &&& self.data@.len() == self.rows
        &&& forall|i: int| 0 <= i < self.data@.len() ==> (#[trigger] self.data@[i])@.len() == self.cols
        &&& forall|i: int, j: int|
            0 <= i < self.data@.len() && 0 <= j < self.data@[i]@.len()
                ==> (#[trigger] self.data@[i]@[j]).inv()
    }

    /// The entry in row `i`, column `j`.
    pub fn get(&self, i: usize, j: usize) -> (r: Fe)
        requires
            self.wf(),
            i < self.rows,
            j < self.cols,
        ensures
            r.inv(),
            r.val() == self@[i as int][j as int],
    {
        self.data[i][j]
    }

    /// Builds a matrix from small nonnegative integer entries, row by row;
    /// every row must have length `cols`.
    pub fn from_u64_rows(entries: &Vec<Vec<u64>>, cols: usize) -> (m: Matrix)
        requires
            forall|i: int| 0 <= i < entries@.len() ==> (#[trigger] entries@[i])@.len() == cols,
        ensures
            m.wf(),
            m.rows == entries@.len(),
            m.cols == cols,
            forall|i: int, j: int|
                0 <= i < entries@.len() && 0 <= j < cols ==> m@[i][j] == entries@[i]@[j],
    {
        let mut data: Vec<Vec<Fe>> = Vec::new();
        let mut i: usize = 0;
        while i < entries.len()
            invariant
                forall|t: int| 0 <= t < entries@.len() ==> (#[trigger] entries@[t])@.len() == cols,
                i <= entries@.len(),
                data@.len() == i,
                forall|t: int| 0 <= t < i ==> (#[trigger] data@[t])@.len() == cols,
                forall|t: int, u: int|
                    0 <= t < i && 0 <= u < cols ==> (#[trigger] data@[t]@[u]).inv(),
                forall|t: int, u: int|
                    0 <= t < i && 0 <= u < cols
                        ==> (#[trigger] data@[t]@[u]).val() == entries@[t]@[u],
            decreases entries@.len() - i,
        {
            let mut row: Vec<Fe> = Vec::new();
            let mut j: usize = 0;
            while j < cols
                invariant
                    forall|t: int| 0 <= t < entries@.len() ==> (#[trigger] entries@[t])@.len() == cols,
                    i < entries@.len(),
                    j <= cols,
                    row@.len() == j,
                    forall|u: int| 0 <= u < j ==> (#[trigger] row@[u]).inv(),
                    forall|u: int|
                        0 <= u < j ==> (#[trigger] row@[u]).val() == entries@[i as int]@[u],
                decreases cols - j,
            {
                let e = Fe::from_u64(entries[i][j]);
                row.push(e);
                j += 1;
            }
            data.push(row);
            i += 1;
        }
        Matrix { rows: entries.len(), cols, data }
    }
}

/// The product of a matrix and a column vector of matching length.
pub fn mat_vec_mul(m: &Matrix, x: &Vec<Fe>) -> (r: Vec<Fe>)
    requires
        m.wf(),
        vec_wf(x@),
        x@.len() == m.cols,
    ensures
        r@.len() == m.rows,
        vec_wf(r@),
        vals(r@) == mvmul(m@, vals(x@)),
{
    let mut out: Vec<Fe> = Vec::new();
    let mut i: usize = 0;
    while i < m.rows
        invariant
            m.wf(),
            vec_wf(x@),
            x@.len() == m.cols,
            i <= m.rows,
            out@.len() == i,
            forall|t: int| 0 <= t < i ==> (#[trigger] out@[t]).inv(),
            forall|t: int| 0 <= t < i ==> (#[trigger] out@[t]).val() == dot(m@[t], vals(x@)),
        decreases m.rows - i,
    {
        let e = row_dot(m, i, x);
        out.push(e);
        i += 1;
    }
    proof {
        assert(vals(out@) =~= mvmul(m@, vals(x@)));
    }
    out
}

/// The dot product of row `i` of `m` with `x`.
fn row_dot(m: &Matrix, i: usize, x: &Vec<Fe>) -> (r: Fe)
    requires
        m.wf(),
        vec_wf(x@),
        x@.len() == m.cols,
        i < m.rows,
    ensures
        r.inv(),
        r.val() == dot(m@[i as int], vals(x@)),
{
    let mut acc = Fe::zero();
    let mut j: usize = 0;
    while j < m.cols
        invariant
            m.wf(),
            vec_wf(x@),
            x@.len() == m.cols,
            i < m.rows,
            j <= m.cols,
            acc.inv(),
            acc.val() == dot(m@[i as int].take(j as int), vals(x@).take(j as int)),
        decreases m.cols - j,
    {
        let xj = x[j];
        let term = m.get(i, j).mul_fe(&xj);
        acc = acc.add_fe(&term);
        proof {
            lemma_dot_step(m@[i as int], vals(x@), j as int);
        }
        j += 1;
    }
    proof {
        assert(m@[i as int].take(m.cols as int) =~= m@[i as int]);
        assert(vals(x@).take(m.cols as int) =~= vals(x@));
    }
    acc
}

/// The dot product of row `i` of `a` with column `j` of `b`.
fn col_dot(a: &Matrix, b: &Matrix, i: usize, j: usize) -> (r: Fe)
    requires
        a.wf(),
        b.wf(),
        a.cols == b.rows,
        i < a.rows,
        j < b.cols,
    ensures
        r.inv(),
        r.val() == dot(a@[i as int], col(b@, j as int)),
{
    let mut acc = Fe::zero();
    let mut k: usize = 0;
    while k < a.cols
        invariant
            a.wf(),
            b.wf(),
            a.cols == b.rows,
            i < a.rows,
            j < b.cols,
            k <= a.cols,
            acc.inv(),
            acc.val() == dot(a@[i as int].take(k as int), col(b@, j as int).take(k as int)),
        decreases a.cols - k,
    {
        let bkj = b.get(k, j);
        let term = a.get(i, k).mul_fe(&bkj);
        acc = acc.add_fe(&term);
        proof {
            assert(col(b@, j as int)[k as int] == b@[k as int][j as int]);
            lemma_dot_step(a@[i as int], col(b@, j as int), k as int);
        }
        k += 1;
    }
    proof {
        assert(a@[i as int].take(a.cols as int) =~= a@[i as int]);
        assert(col(b@, j as int).take(a.cols as int) =~= col(b@, j as int));
    }
    acc
}

/// The full matrix product `a * b`, the cubic-time computation the check
/// exists to avoid; used to build known-correct products for testing.
pub fn mat_mul(a: &Matrix, b: &Matrix) -> (r: Matrix)
    requires
        a.wf(),
        b.wf(),
        a.cols == b.rows,
    ensures
        r.wf(),
        r.rows == a.rows,
        r.cols == b.cols,
        r@ == matmul(a@, b@, b.cols as nat),
{
    let mut data: Vec<Vec<Fe>> = Vec::new();
    let mut i: usize = 0;
    while i < a.rows
        invariant
            a.wf(),
            b.wf(),
            a.cols == b.rows,
            i <= a.rows,
            data@.len() == i,
            forall|t: int| 0 <= t < i ==> (#[trigger] data@[t])@.len() == b.cols,
            forall|t: int, u: int|
                0 <= t < i && 0 <= u < b.cols ==> (#[trigger] data@[t]@[u]).inv(),
            forall|t: int, u: int|
                0 <= t < i && 0 <= u < b.cols
                    ==> (#[trigger] data@[t]@[u]).val() == dot(a@[t], col(b@, u)),
        decreases a.rows - i,
    {
        let mut row: Vec<Fe> = Vec::new();
        let mut j: usize = 0;
        while j < b.cols
            invariant
                a.wf(),
                b.wf(),
                a.cols == b.rows,
                i < a.rows,
                j <= b.cols,
                row@.len() == j,
                forall|u: int| 0 <= u < j ==> (#[trigger] row@[u]).inv(),
                forall|u: int|
                    0 <= u < j ==> (#[trigger] row@[u]).val() == dot(a@[i as int], col(b@, u)),
            decreases b.cols - j,
        {
            let e = col_dot(a, b, i, j);
            row.push(e);
            j += 1;
        }
        data.push(row);
        i += 1;
    }
    let r = Matrix { rows: a.rows, cols: b.cols, data };
    proof {
        let mm = matmul(a@, b@, b.cols as nat);
        assert forall|t: int| 0 <= t < r.rows implies r@[t] =~= mm[t] by {}
        assert(r@ =~= mm);
    }
    r
}

/// The square of a square matrix, by the full cubic-time product.
pub fn matrix_square(m: &Matrix) -> (r: Matrix)
    requires
        m.wf(),
        m.rows == m.cols,
    ensures
        r.wf(),
        r.rows == m.rows,
        r.cols == m.cols,
        r@ == matmul(m@, m@, m.cols as nat),
{
    mat_mul(m, m)
}

/// A square matrix of uniformly random field elements; test support.
pub fn random_matrix(size: usize) -> (r: Matrix)
    ensures
        r.wf(),
        r.rows == size,
        r.cols == size,
{
    let mut data: Vec<Vec<Fe>> = Vec::new();
    let mut i: usize = 0;
    while i < size
        invariant
            i <= size,
            data@.len() == i,
            forall|t: int| 0 <= t < i ==> (#[trigger] data@[t])@.len() == size,
            forall|t: int, u: int|
                0 <= t < i && 0 <= u < size ==> (#[trigger] data@[t]@[u]).inv(),
        decreases size - i,
    {
        let mut row: Vec<Fe> = Vec::new();
        let mut j: usize = 0;
        while j < size
            invariant
                i < size,
                j <= size,
                row@.len() == j,
                forall|u: int| 0 <= u < j ==> (#[trigger] row@[u]).inv(),
            decreases size - j,
        {
            row.push(Fe::sample());
            j += 1;
        }
        data.push(row);
        i += 1;
    }
    Matrix { rows: size, cols: size, data }
}

/// Element-wise equality of two equal-length vectors of field elements.
pub fn vec_eq_fe(u: &Vec<Fe>, w: &Vec<Fe>) -> (r: bool)
    requires
        vec_wf(u@),
        vec_wf(w@),
        u@.len() == w@.len(),
    ensures
        r == (vals(u@) == vals(w@)),
{
    let n = u.len();
    let mut k: usize = 0;
    while k < n
        invariant
            vec_wf(u@),
            vec_wf(w@),
            u@.len() == w@.len(),
            n == u@.len(),
            k <= n,
            forall|t: int| 0 <= t < k ==> (#[trigger] u@[t]).val() == w@[t].val(),
        decreases n - k,
    {
        let uk = u[k];
        let wk = w[k];
        if !uk.eq_fe(&wk) {
            proof {
                assert(vals(u@)[k as int] != vals(w@)[k as int]);
            }
            return false;
        }
        k += 1;
    }
    proof {
        assert(vals(u@) =~= vals(w@));
    }
    true
}

} // verus!
