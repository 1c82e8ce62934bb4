use vstd::prelude::*;

verus! {

/// A cell `(i, j)` of an `n` by `m` grid laid out row after row lies inside it.
pub proof fn lemma_cell_in_grid(i: int, j: int, n: int, m: int)
    requires
        0 <= i < n,
        0 <= j < m,
    ensures
        0 <= i * m + j < n * m,
        i * m + j + 1 <= (i + 1) * m,
        (i + 1) * m <= n * m,
{
    assert(0 <= i * m) by (nonlinear_arith)
        requires
            0 <= i,
            0 <= m,
    ;
    assert((i + 1) * m <= n * m) by (nonlinear_arith)
        requires
            i + 1 <= n,
            0 <= m,
    ;
    assert((i + 1) * m == i * m + m) by (nonlinear_arith);
}

/// Frames laid out one after another: frame `a + b` starts where `b` frames
/// after the start of frame `a` end.
pub proof fn lemma_frame_start(a: int, b: int, m: int)
    ensures
        (a + b) * m == a * m + b * m,
{
    assert((a + b) * m == a * m + b * m) by (nonlinear_arith);
}

/// A multiple of a positive `m` grows with its factor.
pub proof fn lemma_mul_le(a: int, b: int, m: int)
    requires
        0 <= a <= b,
        0 <= m,
    ensures
        0 <= a * m <= b * m,
{
    assert(0 <= a * m <= b * m) by (nonlinear_arith)
        requires
            0 <= a <= b,
            0 <= m,
    ;
}

/// Whole groups of `m` in `n` items take no more than `n` items.
pub proof fn lemma_whole_groups(n: int, m: int)
    requires
        0 <= n,
        0 < m,
    ensures
        0 <= (n / m) * m <= n,
        0 <= n / m,
{
    assert(0 <= (n / m) * m <= n && 0 <= n / m) by (nonlinear_arith)
        requires
            0 <= n,
            0 < m,
    ;
}

} // verus!
