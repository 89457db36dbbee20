//! Products of tensor extents.

use vstd::prelude::*;

verus! {

/// The product of the extents with index `from`, up to but without `to`.
pub open spec fn product(dims: Seq<nat>, from: int, to: int) -> nat
    decreases to - from,
{
    if from >= to {
        1
    } else {
        product(dims, from, to - 1) * dims[to - 1]
    }
}

/// A product can be taken apart at its first factor.
pub proof fn product_front(dims: Seq<nat>, from: int, to: int)
    requires
        from < to,
    ensures
        product(dims, from, to) == dims[from] * product(dims, from + 1, to),
    decreases to - from,
{
    if from + 1 < to {
        product_front(dims, from, to - 1);
        assert((dims[from] * product(dims, from + 1, to - 1)) * dims[to - 1] == dims[from] * (
        product(dims, from + 1, to - 1) * dims[to - 1])) by (nonlinear_arith);
    } else {
        assert(product(dims, from, to - 1) == 1);
        assert(product(dims, from + 1, to) == 1);
        assert(1 * dims[from] == dims[from] * 1) by (nonlinear_arith);
    }
}

/// A product can be taken apart at any place.
pub proof fn product_split(dims: Seq<nat>, from: int, mid: int, to: int)
    requires
        from <= mid <= to,
    ensures
        product(dims, from, to) == product(dims, from, mid) * product(dims, mid, to),
    decreases to - mid,
{
    let head = product(dims, from, mid);
    if mid < to {
        product_split(dims, from, mid, to - 1);
        let body = product(dims, mid, to - 1);
        let last = dims[to - 1];
        assert((head * body) * last == head * (body * last)) by (nonlinear_arith);
    } else {
        assert(head * 1 == head) by (nonlinear_arith);
    }
}

/// The product depends on the extents in its range only.
pub proof fn product_local(a: Seq<nat>, b: Seq<nat>, from: int, to: int)
    requires
        forall|i: int| from <= i < to ==> a[i] == b[i],
    ensures
        product(a, from, to) == product(b, from, to),
    decreases to - from,
{
    if from < to {
        product_local(a, b, from, to - 1);
    }
}

/// A product of positive extents is positive.
pub proof fn product_positive(dims: Seq<nat>, from: int, to: int)
    requires
        forall|i: int| from <= i < to ==> dims[i] > 0,
    ensures
        product(dims, from, to) > 0,
    decreases to - from,
{
    if from < to {
        product_positive(dims, from, to - 1);
        let body = product(dims, from, to - 1);
        let last = dims[to - 1];
        assert(body * last > 0) by (nonlinear_arith)
            requires
                body > 0,
                last > 0,
        ;
    }
}

/// A product with a zero extent is zero.
pub proof fn product_zero(dims: Seq<nat>, from: int, at: int, to: int)
    requires
        from <= at < to,
        dims[at] == 0,
    ensures
        product(dims, from, to) == 0,
    decreases to - from,
{
    if at < to - 1 {
        product_zero(dims, from, at, to - 1);
        assert(0 * dims[to - 1] == 0) by (nonlinear_arith);
    } else {
        let body = product(dims, from, to - 1);
        assert(body * 0 == 0) by (nonlinear_arith);
    }
}

/// Growing the range of a product of positive extents does not shrink it.
pub proof fn product_grows(dims: Seq<nat>, from: int, mid: int, to: int)
    requires
        from <= mid <= to,
        forall|i: int| mid <= i < to ==> dims[i] > 0,
    ensures
        product(dims, from, mid) <= product(dims, from, to),
{
    product_split(dims, from, mid, to);
    product_positive(dims, mid, to);
    let head = product(dims, from, mid);
    let tail = product(dims, mid, to);
    assert(head <= head * tail) by (nonlinear_arith)
        requires
            tail > 0,
    ;
}

/// A pair of positions joined to one stays below the product of the extents.
pub proof fn joined_below(outer: nat, outers: nat, inner: nat, inners: nat)
    requires
        outer < outers,
        inner < inners,
    ensures
        outer * inners + inner < outers * inners,
        (outer * inners + inner) / inners == outer,
        (outer * inners + inner) % inners == inner,
{
    assert(outer * inners + inner < outers * inners) by (nonlinear_arith)
        requires
            outer + 1 <= outers,
            inner < inners,
    ;
    vstd::arithmetic::div_mod::lemma_fundamental_div_mod_converse(
        (outer * inners + inner) as int,
        inners as int,
        outer as int,
        inner as int,
    );
}

/// A joined position can be split again.
pub proof fn split_below(joined: nat, outers: nat, inners: nat)
    requires
        joined < outers * inners,
    ensures
        inners > 0,
        joined / inners < outers,
        joined % inners < inners,
        (joined / inners) * inners + joined % inners == joined,
{
    if inners == 0 {
        assert(outers * inners == 0) by (nonlinear_arith)
            requires
                inners == 0,
        ;
    }
    vstd::arithmetic::div_mod::lemma_fundamental_div_mod(joined as int, inners as int);
    vstd::arithmetic::div_mod::lemma_mod_bound(joined as int, inners as int);
    let q = joined / inners;
    assert(inners * q == q * inners) by (nonlinear_arith);
    assert(q < outers) by (nonlinear_arith)
        requires
            q * inners <= joined,
            joined < outers * inners,
            inners > 0,
    ;
}

} // verus!
