//! Sums of whole numbers, for what kernels compute where the arithmetic is exact.

use vstd::prelude::*;

verus! {

/// The sum of the first `n` values.
pub open spec fn sum_of(f: spec_fn(int) -> int, n: int) -> int
    decreases n,
{
    if n <= 0 {
        0
    } else {
        sum_of(f, n - 1) + f(n - 1)
    }
}

/// Equal values have equal sums.
pub proof fn sums_agree(f: spec_fn(int) -> int, g: spec_fn(int) -> int, n: int)
    requires
        forall|i: int| 0 <= i < n ==> #[trigger] f(i) == g(i),
    ensures
        sum_of(f, n) == sum_of(g, n),
    decreases n,
{
    if n > 0 {
        sums_agree(f, g, n - 1);
        assert(f(n - 1) == g(n - 1));
    }
}

/// A sum is the sum of its front and of its rest.
pub proof fn sum_splits(f: spec_fn(int) -> int, m: int, n: int)
    requires
        m >= 0,
        n >= 0,
    ensures
        sum_of(f, m + n) == sum_of(f, m) + sum_of(|i: int| f(m + i), n),
    decreases n,
{
    if n > 0 {
        sum_splits(f, m, n - 1);
    }
}

/// Values that are zero from `m` on add nothing.
pub proof fn zeros_add_nothing(f: spec_fn(int) -> int, m: int, n: int)
    requires
        0 <= m <= n,
        forall|i: int| m <= i < n ==> #[trigger] f(i) == 0,
    ensures
        sum_of(f, n) == sum_of(f, m),
    decreases n,
{
    if m < n {
        zeros_add_nothing(f, m, n - 1);
        assert(f(n - 1) == 0);
    }
}

/// A sum over rows of equal length is the sum of the sums of the rows.
pub proof fn sum_by_rows(f: spec_fn(int) -> int, rows: int, cols: int)
    requires
        rows >= 0,
        cols >= 0,
    ensures
        sum_of(f, rows * cols) == sum_of(
            |i: int| sum_of(|j: int| f(i * cols + j), cols),
            rows,
        ),
    decreases rows,
{
    let by_row = |i: int| sum_of(|j: int| f(i * cols + j), cols);
    if rows > 0 {
        sum_by_rows(f, rows - 1, cols);
        assert((rows - 1) * cols + cols == rows * cols) by (nonlinear_arith);
        assert(0 <= (rows - 1) * cols) by (nonlinear_arith)
            requires
                rows >= 1,
                cols >= 0,
        ;
        sum_splits(f, (rows - 1) * cols, cols);
        sums_agree(
            |j: int| f((rows - 1) * cols + j),
            |j: int| f((rows - 1) * cols + j),
            cols,
        );
        assert(by_row(rows - 1) == sum_of(|j: int| f((rows - 1) * cols + j), cols));
    } else {
        assert(0 * cols == 0) by (nonlinear_arith);
    }
}

} // verus!
