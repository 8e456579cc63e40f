//! The dense linear algebra of one damped Gauss-Newton step: assembling
//! the damped normal-equation system and solving it by Gaussian
//! elimination with partial pivoting. Every executable function here is
//! pinned to a spec-level mirror of its computation, so the whole solve
//! is a mathematical function of its inputs.

use vstd::prelude::*;

verus! {

use crate::fixed::{fx_add, fx_sub, fx_mul, fx_div, fx_abs};
use crate::fixed::{fx_add_spec, fx_sub_spec, fx_mul_spec, fx_div_spec, fx_clamp, int_abs};

/// The rows of a matrix of vectors, as plain sequences.
pub open spec fn matrix_view(m: Seq<Vec<i64>>) -> Seq<Seq<i64>> {
    Seq::new(m.len(), |i: int| m[i]@)
}

/// Saturating dot product of columns `p` and `q` of the Jacobian over its
/// first `n` rows.
pub open spec fn dot_cols_partial(jac: Seq<Seq<i64>>, p: int, q: int, n: int) -> int
    decreases n,
{
    if n <= 0 {
        0
    } else {
        fx_add_spec(
            dot_cols_partial(jac, p, q, n - 1),
            fx_mul_spec(jac[n - 1][p] as int, jac[n - 1][q] as int),
        )
    }
}

/// Entry `(p, q)` of the damped normal matrix `JtJ + lambda I`.
pub open spec fn normal_entry_spec(jac: Seq<Seq<i64>>, lambda: int, p: int, q: int) -> int {
    let s = dot_cols_partial(jac, p, q, jac.len() as int);
    if p == q {
        fx_add_spec(s, lambda)
    } else {
        s
    }
}

/// The whole damped normal matrix.
pub open spec fn normal_of(jac: Seq<Seq<i64>>, d: int, lambda: int) -> Seq<Seq<i64>> {
    Seq::new(
        d as nat,
        |p: int| Seq::new(d as nat, |q: int| normal_entry_spec(jac, lambda, p, q) as i64),
    )
}

/// Saturating dot product of column `p` of the Jacobian with the residual
/// vector over the first `n` rows.
pub open spec fn grad_partial(jac: Seq<Seq<i64>>, res: Seq<i64>, p: int, n: int) -> int
    decreases n,
{
    if n <= 0 {
        0
    } else {
        fx_add_spec(
            grad_partial(jac, res, p, n - 1),
            fx_mul_spec(jac[n - 1][p] as int, res[n - 1] as int),
        )
    }
}

/// Component `p` of the gradient-like vector `Jt r`.
pub open spec fn gradient_entry_spec(jac: Seq<Seq<i64>>, res: Seq<i64>, p: int) -> int {
    grad_partial(jac, res, p, jac.len() as int)
}

/// The whole vector `Jt r`.
pub open spec fn gradient_of(jac: Seq<Seq<i64>>, res: Seq<i64>, d: int) -> Seq<i64> {
    Seq::new(d as nat, |p: int| gradient_entry_spec(jac, res, p) as i64)
}

/// A vector negated entry by entry (saturating).
pub open spec fn neg_of(g: Seq<i64>) -> Seq<i64> {
    Seq::new(g.len(), |p: int| fx_sub_spec(0, g[p] as int) as i64)
}

/// Element-for-element copy of a coordinate vector.
fn copy_row(v: &Vec<i64>) -> (r: Vec<i64>)
    ensures
        r@ == v@,
{
    let mut out: Vec<i64> = Vec::new();
    let mut i: usize = 0;
    while i < v.len()
        invariant
            i <= v@.len(),
            out@.len() == i,
            forall|k: int| 0 <= k < i ==> out@[k] == v@[k],
        decreases v@.len() - i,
    {
        out.push(v[i]);
        i = i + 1;
    }
    proof {
        assert(out@ =~= v@);
    }
    out
}

/// The D-by-D damped normal matrix `JtJ + lambda I` of an N-by-D Jacobian.
pub fn normal_matrix(jac: &Vec<Vec<i64>>, d: usize, lambda: i64) -> (a: Vec<Vec<i64>>)
    requires
        forall|i: int| 0 <= i < jac@.len() ==> #[trigger] jac@[i]@.len() == d,
    ensures
        a@.len() == d,
        forall|p: int| 0 <= p < d ==> #[trigger] a@[p]@.len() == d,
        matrix_view(a@) == normal_of(matrix_view(jac@), d as int, lambda as int),
{
    let n: usize = jac.len();
    let mut a: Vec<Vec<i64>> = Vec::new();
    let mut p: usize = 0;
    while p < d
        invariant
            n == jac@.len(),
            forall|i: int| 0 <= i < jac@.len() ==> #[trigger] jac@[i]@.len() == d,
            p <= d,
            a@.len() == p,
            forall|pp: int| 0 <= pp < p ==> #[trigger] a@[pp]@.len() == d,
            forall|pp: int, qq: int|
                0 <= pp < p && 0 <= qq < d ==> #[trigger] a@[pp]@[qq] as int == normal_entry_spec(
                    matrix_view(jac@),
                    lambda as int,
                    pp,
                    qq,
                ),
        decreases d - p,
    {
        let mut row: Vec<i64> = Vec::new();
        let mut q: usize = 0;
        while q < d
            invariant
                n == jac@.len(),
                forall|i: int| 0 <= i < jac@.len() ==> #[trigger] jac@[i]@.len() == d,
                p < d,
                q <= d,
                row@.len() == q,
                forall|qq: int|
                    0 <= qq < q ==> #[trigger] row@[qq] as int == normal_entry_spec(
                        matrix_view(jac@),
                        lambda as int,
                        p as int,
                        qq,
                    ),
            decreases d - q,
        {
            let mut acc: i64 = 0;
            let mut i: usize = 0;
            while i < n
                invariant
                    n == jac@.len(),
                    forall|ii: int| 0 <= ii < jac@.len() ==> #[trigger] jac@[ii]@.len() == d,
                    p < d,
                    q < d,
                    i <= n,
                    acc as int == dot_cols_partial(matrix_view(jac@), p as int, q as int, i as int),
                decreases n - i,
            {
                acc = fx_add(acc, fx_mul(jac[i][p], jac[i][q]));
                i = i + 1;
            }
            if p == q {
                acc = fx_add(acc, lambda);
            }
            row.push(acc);
            q = q + 1;
        }
        a.push(row);
        p = p + 1;
    }
    proof {
        assert(matrix_view(a@) =~~= normal_of(matrix_view(jac@), d as int, lambda as int));
    }
    a
}

/// The length-D vector `Jt r` of an N-by-D Jacobian and length-N residual
/// vector.
pub fn gradient_vector(jac: &Vec<Vec<i64>>, res: &Vec<i64>, d: usize) -> (g: Vec<i64>)
    requires
        forall|i: int| 0 <= i < jac@.len() ==> #[trigger] jac@[i]@.len() == d,
        res@.len() == jac@.len(),
    ensures
        g@.len() == d,
        g@ == gradient_of(matrix_view(jac@), res@, d as int),
{
    let n: usize = jac.len();
    let mut g: Vec<i64> = Vec::new();
    let mut p: usize = 0;
    while p < d
        invariant
            n == jac@.len(),
            forall|i: int| 0 <= i < jac@.len() ==> #[trigger] jac@[i]@.len() == d,
            res@.len() == jac@.len(),
            p <= d,
            g@.len() == p,
            forall|pp: int|
                0 <= pp < p ==> #[trigger] g@[pp] as int == gradient_entry_spec(
                    matrix_view(jac@),
                    res@,
                    pp,
                ),
        decreases d - p,
    {
        let mut acc: i64 = 0;
        let mut i: usize = 0;
        while i < n
            invariant
                n == jac@.len(),
                forall|ii: int| 0 <= ii < jac@.len() ==> #[trigger] jac@[ii]@.len() == d,
                res@.len() == jac@.len(),
                p < d,
                i <= n,
                acc as int == grad_partial(matrix_view(jac@), res@, p as int, i as int),
            decreases n - i,
        {
            acc = fx_add(acc, fx_mul(jac[i][p], res[i]));
            i = i + 1;
        }
        g.push(acc);
        p = p + 1;
    }
    proof {
        assert(g@ =~= gradient_of(matrix_view(jac@), res@, d as int));
    }
    g
}

/// The magnitude a column entry competes with during pivoting.
pub open spec fn pivot_key(a: Seq<Seq<i64>>, r: int, k: int) -> int {
    fx_clamp(int_abs(a[r][k] as int))
}

/// The scan for the pivot row of column `k`: the first row of `[k, d)`
/// whose entry in column `k` has maximal magnitude.
pub open spec fn pivot_scan(a: Seq<Seq<i64>>, k: int, d: int, rr: int, piv: int) -> int
    decreases d - rr,
{
    if rr >= d {
        piv
    } else if pivot_key(a, rr, k) > pivot_key(a, piv, k) {
        pivot_scan(a, k, d, rr + 1, rr)
    } else {
        pivot_scan(a, k, d, rr + 1, piv)
    }
}

/// The pivot row chosen for column `k`.
pub open spec fn pivot_row(a: Seq<Seq<i64>>, k: int, d: int) -> int {
    pivot_scan(a, k, d, k + 1, k)
}

/// Two rows of a matrix exchanged.
pub open spec fn swap_rows(a: Seq<Seq<i64>>, i: int, j: int) -> Seq<Seq<i64>> {
    a.update(i, a[j]).update(j, a[i])
}

/// Two entries of a vector exchanged.
pub open spec fn swap_elems(b: Seq<i64>, i: int, j: int) -> Seq<i64> {
    b.update(i, b[j]).update(j, b[i])
}

/// One row after elimination against the pivot row.
pub open spec fn elim_row(arow: Seq<i64>, prow: Seq<i64>, factor: int, d: int) -> Seq<i64> {
    Seq::new(d as nat, |c: int| fx_sub_spec(arow[c] as int, fx_mul_spec(factor, prow[c] as int)) as i64)
}

/// Column `k` of every row below `r2 - 1` eliminated in turn.
pub open spec fn elim_below(a: Seq<Seq<i64>>, b: Seq<i64>, k: int, d: int, r2: int) -> (
    Seq<Seq<i64>>,
    Seq<i64>,
)
    decreases d - r2,
{
    if r2 >= d {
        (a, b)
    } else {
        let factor = fx_div_spec(a[r2][k] as int, a[k][k] as int);
        let a2 = a.update(r2, elim_row(a[r2], a[k], factor, d));
        let b2 = b.update(r2, fx_sub_spec(b[r2] as int, fx_mul_spec(factor, b[k] as int)) as i64);
        elim_below(a2, b2, k, d, r2 + 1)
    }
}

/// One forward-elimination column: pivot choice, the singularity test,
/// the row exchange, and the eliminations below.
pub open spec fn elim_step(a: Seq<Seq<i64>>, b: Seq<i64>, k: int, d: int) -> Option<
    (Seq<Seq<i64>>, Seq<i64>),
> {
    let piv = pivot_row(a, k, d);
    if pivot_key(a, piv, k) < 1 {
        None
    } else {
        Some(elim_below(swap_rows(a, k, piv), swap_elems(b, k, piv), k, d, k + 1))
    }
}

/// Forward elimination over the columns `[k, d)`.
pub open spec fn forward_elim(a: Seq<Seq<i64>>, b: Seq<i64>, k: int, d: int) -> Option<
    (Seq<Seq<i64>>, Seq<i64>),
>
    decreases d - k,
{
    if k >= d {
        Some((a, b))
    } else {
        match elim_step(a, b, k, d) {
            None => None,
            Some((a2, b2)) => forward_elim(a2, b2, k + 1, d),
        }
    }
}

/// The running right-hand side of one back-substitution row, after the
/// already-solved columns `[c, d)` still to be subtracted.
pub open spec fn back_sum(arow: Seq<i64>, x: Seq<i64>, d: int, c: int, s: int) -> int
    decreases d - c,
{
    if c >= d {
        s
    } else {
        back_sum(arow, x, d, c + 1, fx_sub_spec(s, fx_mul_spec(arow[c] as int, x[c] as int)))
    }
}

/// Back substitution upward from row `kk - 1`; `None` on a zero diagonal.
pub open spec fn back_subst(a: Seq<Seq<i64>>, b: Seq<i64>, x: Seq<i64>, kk: int, d: int) -> Option<
    Seq<i64>,
>
    decreases kk,
{
    if kk <= 0 {
        Some(x)
    } else {
        let k2 = kk - 1;
        let s = back_sum(a[k2], x, d, k2 + 1, b[k2] as int);
        if a[k2][k2] == 0 {
            None
        } else {
            back_subst(a, b, x.update(k2, fx_div_spec(s, a[k2][k2] as int) as i64), k2, d)
        }
    }
}

/// A length-`d` vector of zeroes.
pub open spec fn zero_seq(d: int) -> Seq<i64> {
    Seq::new(d as nat, |i: int| 0i64)
}

/// What the elimination computes: `None` exactly when some column offers
/// no pivot of magnitude at least one resolution unit (or the eliminated
/// diagonal vanished), otherwise the back-substituted solution.
pub open spec fn linear_solve_spec(a: Seq<Seq<i64>>, b: Seq<i64>, d: int) -> Option<Seq<i64>> {
    match forward_elim(a, b, 0, d) {
        None => None,
        Some((a2, b2)) => back_subst(a2, b2, zero_seq(d), d, d),
    }
}

/// Solves the D-by-D system `A x = b` on copies, by Gaussian elimination
/// with partial pivoting on the fixed-point entries; the result is
/// exactly `linear_solve_spec` of the inputs.
pub fn solve_linear_system(a_in: &Vec<Vec<i64>>, b_in: &Vec<i64>, d: usize) -> (r: Option<
    Vec<i64>,
>)
    requires
        a_in@.len() == d,
        forall|i: int| 0 <= i < d ==> #[trigger] a_in@[i]@.len() == d,
        b_in@.len() == d,
    ensures
        r is Some <==> linear_solve_spec(matrix_view(a_in@), b_in@, d as int) is Some,
        r matches Some(x) ==> x@.len() == d && linear_solve_spec(
            matrix_view(a_in@),
            b_in@,
            d as int,
        ) == Some(x@),
{
    let ghost a0 = matrix_view(a_in@);
    let ghost b0 = b_in@;
    let mut a: Vec<Vec<i64>> = Vec::new();
    let mut i: usize = 0;
    while i < d
        invariant
            a_in@.len() == d,
            forall|ii: int| 0 <= ii < d ==> #[trigger] a_in@[ii]@.len() == d,
            i <= d,
            a@.len() == i,
            forall|ii: int| 0 <= ii < i ==> #[trigger] a@[ii]@ == a_in@[ii]@,
        decreases d - i,
    {
        a.push(copy_row(&a_in[i]));
        i = i + 1;
    }
    let mut b: Vec<i64> = copy_row(b_in);
    proof {
        assert(matrix_view(a@) =~~= a0);
    }

    // Forward elimination with partial pivoting.
    let mut k: usize = 0;
    while k < d
        invariant
            k <= d,
            a@.len() == d,
            forall|ii: int| 0 <= ii < d ==> #[trigger] a@[ii]@.len() == d,
            b@.len() == d,
            a0 == matrix_view(a_in@),
            b0 == b_in@,
            forward_elim(matrix_view(a@), b@, k as int, d as int) == forward_elim(
                a0,
                b0,
                0,
                d as int,
            ),
        decreases d - k,
    {
        let ghost pre_a = matrix_view(a@);
        let ghost pre_b = b@;
        let mut piv: usize = k;
        let mut best: i64 = fx_abs(a[k][k]);
        let mut rr: usize = k + 1;
        while rr < d
            invariant
                k < d,
                k <= piv < d,
                k < rr <= d,
                a@.len() == d,
                forall|ii: int| 0 <= ii < d ==> #[trigger] a@[ii]@.len() == d,
                pre_a == matrix_view(a@),
                best as int == pivot_key(pre_a, piv as int, k as int),
                pivot_scan(pre_a, k as int, d as int, rr as int, piv as int) == pivot_row(
                    pre_a,
                    k as int,
                    d as int,
                ),
            decreases d - rr,
        {
            let cand: i64 = fx_abs(a[rr][k]);
            if cand > best {
                best = cand;
                piv = rr;
            }
            rr = rr + 1;
        }
        proof {
            assert(piv as int == pivot_row(pre_a, k as int, d as int));
        }
        if best < 1 {
            proof {
                assert(elim_step(pre_a, pre_b, k as int, d as int) is None);
                assert(forward_elim(pre_a, pre_b, k as int, d as int) is None);
                assert(linear_solve_spec(a0, b0, d as int) is None);
            }
            return None;
        }
        if piv != k {
            let row_k: Vec<i64> = copy_row(&a[k]);
            let row_p: Vec<i64> = copy_row(&a[piv]);
            a[k] = row_p;
            a[piv] = row_k;
            let tmp: i64 = b[k];
            b[k] = b[piv];
            b[piv] = tmp;
        }
        proof {
            assert(matrix_view(a@) =~~= swap_rows(pre_a, k as int, piv as int));
            assert(b@ =~= swap_elems(pre_b, k as int, piv as int));
        }
        let ghost s_a = matrix_view(a@);
        let ghost s_b = b@;
        let pivot: i64 = a[k][k];
        assert(pivot != 0);
        let mut r2: usize = k + 1;
        while r2 < d
            invariant
                k < d,
                k < r2 <= d,
                pivot != 0,
                pivot == a@[k as int]@[k as int],
                a@.len() == d,
                forall|ii: int| 0 <= ii < d ==> #[trigger] a@[ii]@.len() == d,
                b@.len() == d,
                elim_below(matrix_view(a@), b@, k as int, d as int, r2 as int) == elim_below(
                    s_a,
                    s_b,
                    k as int,
                    d as int,
                    k as int + 1,
                ),
            decreases d - r2,
        {
            let ghost cur_a = matrix_view(a@);
            let ghost cur_b = b@;
            let factor: i64 = fx_div(a[r2][k], pivot);
            let mut new_row: Vec<i64> = Vec::new();
            let mut c: usize = 0;
            while c < d
                invariant
                    k < d,
                    r2 < d,
                    c <= d,
                    new_row@.len() == c,
                    a@.len() == d,
                    forall|ii: int| 0 <= ii < d ==> #[trigger] a@[ii]@.len() == d,
                    cur_a == matrix_view(a@),
                    forall|cc: int|
                        0 <= cc < c ==> #[trigger] new_row@[cc] == elim_row(
                            cur_a[r2 as int],
                            cur_a[k as int],
                            factor as int,
                            d as int,
                        )[cc],
                decreases d - c,
            {
                new_row.push(fx_sub(a[r2][c], fx_mul(factor, a[k][c])));
                c = c + 1;
            }
            proof {
                assert(new_row@ =~= elim_row(
                    cur_a[r2 as int],
                    cur_a[k as int],
                    factor as int,
                    d as int,
                ));
            }
            a[r2] = new_row;
            b[r2] = fx_sub(b[r2], fx_mul(factor, b[k]));
            proof {
                assert(matrix_view(a@) =~~= cur_a.update(
                    r2 as int,
                    elim_row(cur_a[r2 as int], cur_a[k as int], factor as int, d as int),
                ));
            }
            r2 = r2 + 1;
        }
        k = k + 1;
    }

    // Back substitution, from the last row upward.
    let ghost fin_a = matrix_view(a@);
    let ghost fin_b = b@;
    proof {
        assert(forward_elim(a0, b0, 0, d as int) == Some((fin_a, fin_b)));
    }
    let mut x: Vec<i64> = Vec::new();
    let mut i2: usize = 0;
    while i2 < d
        invariant
            i2 <= d,
            x@.len() == i2,
            forall|ii: int| 0 <= ii < i2 ==> #[trigger] x@[ii] == 0i64,
        decreases d - i2,
    {
        x.push(0);
        i2 = i2 + 1;
    }
    proof {
        assert(x@ =~= zero_seq(d as int));
    }
    let mut kk: usize = d;
    while kk > 0
        invariant
            kk <= d,
            x@.len() == d,
            a@.len() == d,
            forall|ii: int| 0 <= ii < d ==> #[trigger] a@[ii]@.len() == d,
            b@.len() == d,
            fin_a == matrix_view(a@),
            fin_b == b@,
            a0 == matrix_view(a_in@),
            b0 == b_in@,
            forward_elim(a0, b0, 0, d as int) == Some((fin_a, fin_b)),
            back_subst(fin_a, fin_b, x@, kk as int, d as int) == back_subst(
                fin_a,
                fin_b,
                zero_seq(d as int),
                d as int,
                d as int,
            ),
        decreases kk,
    {
        let k2: usize = kk - 1;
        let mut s: i64 = b[k2];
        let mut c: usize = k2 + 1;
        while c < d
            invariant
                k2 < d,
                k2 < c <= d,
                x@.len() == d,
                a@.len() == d,
                forall|ii: int| 0 <= ii < d ==> #[trigger] a@[ii]@.len() == d,
                b@.len() == d,
                fin_a == matrix_view(a@),
                fin_b == b@,
                back_sum(fin_a[k2 as int], x@, d as int, c as int, s as int) == back_sum(
                    fin_a[k2 as int],
                    x@,
                    d as int,
                    k2 as int + 1,
                    fin_b[k2 as int] as int,
                ),
            decreases d - c,
        {
            s = fx_sub(s, fx_mul(a[k2][c], x[c]));
            c = c + 1;
        }
        let pivot: i64 = a[k2][k2];
        if pivot == 0 {
            // The spec mirror reports this diagonal as singular too.
            proof {
                assert(fin_a[k2 as int] == a@[k2 as int]@);
                assert(back_subst(fin_a, fin_b, x@, kk as int, d as int) is None);
                assert(linear_solve_spec(a0, b0, d as int) is None);
            }
            return None;
        }
        x[k2] = fx_div(s, pivot);
        kk = k2;
    }
    Some(x)
}

} // verus!
