//! The first elements of each lane in order.

use crate::backend::call::CallContext;
use crate::backend::float::{read_float_tensor, write_float_tensor};
use crate::backend::gather::{same_shape, write_indices};
use crate::backend::meta::{normalize_axis, shape_product, TensorMeta};
use crate::backend::nn::{read_lane, write_lane};
use crate::uabi::desc::AiDtype;
use crate::uabi::error::BackendErr;
use crate::uabi::kernelattr::TopKAttr;
use vstd::prelude::*;

verus! {

/// Place of a single-precision bit pattern in the total order of such patterns: numbers
/// below zero first, the larger the magnitude the earlier.
pub open spec fn ordinal(bits: u32) -> int {
    if bits < 0x8000_0000 {
        bits as int
    } else {
        0x7fff_ffff - bits
    }
}

/// Place of a single-precision bit pattern in the total order of such patterns.
pub fn ordinal_of(bits: u32) -> (r: i64)
    ensures
        r == ordinal(bits),
{
    if bits < 0x8000_0000 {
        bits as i64
    } else {
        0x7fff_ffff - bits as i64
    }
}

/// Element `i` comes before element `j`: by value, and by index where the values are equal.
pub open spec fn precedes(values: Seq<u32>, largest: bool, i: int, j: int) -> bool {
    let a = ordinal(values[i]);
    let b = ordinal(values[j]);
    if a == b {
        i < j
    } else if largest {
        a > b
    } else {
        a < b
    }
}

fn comes_before(values: &Vec<u32>, largest: bool, i: usize, j: usize) -> (r: bool)
    requires
        i < values@.len(),
        j < values@.len(),
    ensures
        r == precedes(values@, largest, i as int, j as int),
{
    let a: i64 = ordinal_of(values[i]);
    let b: i64 = ordinal_of(values[j]);
    if a == b {
        i < j
    } else if largest {
        a > b
    } else {
        a < b
    }
}

/// Index `j` is among the chosen.
pub open spec fn is_chosen(chosen: Seq<usize>, j: int) -> bool {
    exists|p: int| 0 <= p < chosen.len() && #[trigger] chosen[p] == j
}

/// The chosen indices are the first of the first `n` elements, in order: each comes before
/// the next, and every one of them before all that were left out.
pub open spec fn ranked(values: Seq<u32>, largest: bool, chosen: Seq<usize>, n: int) -> bool {
    &&& forall|p: int| 0 <= p < chosen.len() ==> #[trigger] chosen[p] < n
    &&& forall|p: int, q: int|
        0 <= p < q < chosen.len() ==> precedes(
            values,
            largest,
            #[trigger] chosen[p] as int,
            #[trigger] chosen[q] as int,
        )
    &&& forall|j: int, p: int|
        0 <= j < n && !is_chosen(chosen, j) && 0 <= p < chosen.len() ==> #[trigger] precedes(
            values,
            largest,
            #[trigger] chosen[p] as int,
            j,
        )
}

/// Where the next element goes among the chosen.
fn insertion_point(values: &Vec<u32>, largest: bool, chosen: &Vec<usize>, i: usize) -> (r: usize)
    requires
        i < values@.len(),
        ranked(values@, largest, chosen@, i as int),
    ensures
        r <= chosen@.len(),
        forall|p: int|
            0 <= p < r ==> precedes(values@, largest, #[trigger] chosen@[p] as int, i as int),
        forall|p: int|
            r <= p < chosen@.len() ==> precedes(
                values@,
                largest,
                i as int,
                #[trigger] chosen@[p] as int,
            ),
{
    let mut at: usize = chosen.len();
    while at > 0 && comes_before(values, largest, i, chosen[at - 1])
        invariant
            at <= chosen@.len(),
            i < values@.len(),
            ranked(values@, largest, chosen@, i as int),
            forall|p: int|
                at <= p < chosen@.len() ==> precedes(
                    values@,
                    largest,
                    i as int,
                    #[trigger] chosen@[p] as int,
                ),
        decreases at,
    {
        at = at - 1;
    }
    proof {
        if at > 0 {
            assert(chosen@[at - 1] < i);
            assert forall|p: int| 0 <= p < at implies precedes(
                values@,
                largest,
                #[trigger] chosen@[p] as int,
                i as int,
            ) by {
                if p < at - 1 {
                    assert(precedes(
                        values@,
                        largest,
                        chosen@[p] as int,
                        chosen@[at - 1] as int,
                    ));
                }
            }
        }
    }
    at
}

/// Chooses the first `k` elements of a lane in order.
pub fn choose_top(values: &Vec<u32>, k: usize, largest: bool) -> (r: Vec<usize>)
    requires
        k <= values@.len(),
    ensures
        r@.len() == k,
        ranked(values@, largest, r@, values@.len() as int),
        k == values@.len() ==> forall|j: int| 0 <= j < k ==> #[trigger] is_chosen(r@, j),
{
    let mut chosen: Vec<usize> = Vec::new();
    let mut i: usize = 0;
    while i < values.len()
        invariant
            i <= values@.len(),
            k <= values@.len(),
            chosen@.len() == (if i < k {
                i
            } else {
                k
            }),
            i <= k ==> forall|j: int| 0 <= j < i ==> #[trigger] is_chosen(chosen@, j),
            ranked(values@, largest, chosen@, i as int),
        decreases values@.len() - i,
    {
        let at: usize = insertion_point(values, largest, &chosen, i);
        let ghost before = chosen@;
        if at < k {
            chosen.insert(at, i);
            proof {
                insert_ranked(values@, largest, before, at as int, i);
                if i < k {
                    assert forall|j: int| 0 <= j < i + 1 implies #[trigger] is_chosen(
                        chosen@,
                        j,
                    ) by {
                        if j == i {
                            assert(chosen@[at as int] == j);
                        } else {
                            assert(is_chosen(before, j));
                            let p = choose|p: int|
                                0 <= p < before.len() && #[trigger] before[p] == j;
                            if p < at {
                                assert(chosen@[p] == j);
                            } else {
                                assert(chosen@[p + 1] == j);
                            }
                        }
                    }
                }
            }
            if chosen.len() > k {
                let ghost longer = chosen@;
                let dropped: Option<usize> = chosen.pop();
                proof {
                    drop_ranked(values@, largest, longer, i + 1);
                    assert(chosen@ =~= longer.drop_last());
                }
            }
        } else {
            assert(ranked(values@, largest, chosen@, i + 1)) by {
                assert forall|j: int, p: int|
                    0 <= j < i + 1 && !is_chosen(before, j) && 0 <= p < before.len() implies
                    #[trigger] precedes(
                    values@,
                    largest,
                    #[trigger] before[p] as int,
                    j,
                ) by {
                    assert(precedes(values@, largest, before[p] as int, i as int));
                }
            }
        }
        i = i + 1;
    }
    chosen
}

/// Inserting the next element where it belongs keeps the ranking.
proof fn insert_ranked(values: Seq<u32>, largest: bool, chosen: Seq<usize>, at: int, i: usize)
    requires
        0 <= at <= chosen.len(),
        at == chosen.len() ==> forall|j: int| 0 <= j < i ==> #[trigger] is_chosen(chosen, j),
        ranked(values, largest, chosen, i as int),
        forall|p: int|
            0 <= p < at ==> precedes(values, largest, #[trigger] chosen[p] as int, i as int),
        forall|p: int|
            at <= p < chosen.len() ==> precedes(
                values,
                largest,
                i as int,
                #[trigger] chosen[p] as int,
            ),
    ensures
        ranked(values, largest, chosen.insert(at, i), i + 1),
{
    let longer = chosen.insert(at, i);
    let index = |p: int|
        if p < at {
            p
        } else {
            p - 1
        };
    assert forall|p: int| 0 <= p < longer.len() implies #[trigger] longer[p] == (if p == at {
        i
    } else {
        chosen[index(p)]
    }) by {}
    assert forall|p: int| 0 <= p < longer.len() implies #[trigger] longer[p] < i + 1 by {
        if p != at {
            assert(chosen[index(p)] < i);
        }
    }
    assert forall|p: int, q: int| 0 <= p < q < longer.len() implies precedes(
        values,
        largest,
        #[trigger] longer[p] as int,
        #[trigger] longer[q] as int,
    ) by {
        if p == at {
            assert(longer[q] == chosen[q - 1]);
        } else if q == at {
            assert(longer[p] == chosen[p]);
        } else {
            assert(longer[p] == chosen[index(p)] && longer[q] == chosen[index(q)]);
        }
    }
    assert forall|j: int, p: int|
        0 <= j < i + 1 && !is_chosen(longer, j) && 0 <= p < longer.len() implies
        #[trigger] precedes(values, largest, #[trigger] longer[p] as int, j) by {
        assert(j != i) by {
            assert(longer[at] == i);
        }
        assert(!is_chosen(chosen, j)) by {
            if is_chosen(chosen, j) {
                let q = choose|q: int| 0 <= q < chosen.len() && #[trigger] chosen[q] == j;
                if q < at {
                    assert(longer[q] == j);
                } else {
                    assert(longer[q + 1] == j);
                }
            }
        }
        if p == at {
            if at < chosen.len() {
                assert(precedes(values, largest, chosen[at] as int, j));
                assert(precedes(values, largest, i as int, chosen[at] as int));
            } else {
                assert(is_chosen(chosen, j));
            }
        } else {
            assert(longer[p] == chosen[index(p)]);
            assert(precedes(values, largest, chosen[index(p)] as int, j));
        }
    }
}

/// Dropping the last of the chosen keeps the ranking.
proof fn drop_ranked(values: Seq<u32>, largest: bool, chosen: Seq<usize>, n: int)
    requires
        chosen.len() > 0,
        ranked(values, largest, chosen, n),
    ensures
        ranked(values, largest, chosen.drop_last(), n),
{
    let shorter = chosen.drop_last();
    let last = chosen.len() - 1;
    assert forall|p: int| 0 <= p < shorter.len() implies #[trigger] shorter[p] < n by {
        assert(shorter[p] == chosen[p]);
    }
    assert forall|p: int, q: int| 0 <= p < q < shorter.len() implies precedes(
        values,
        largest,
        #[trigger] shorter[p] as int,
        #[trigger] shorter[q] as int,
    ) by {
        assert(shorter[p] == chosen[p] && shorter[q] == chosen[q]);
    }
    assert forall|j: int, p: int|
        0 <= j < n && !is_chosen(shorter, j) && 0 <= p < shorter.len() implies
        #[trigger] precedes(values, largest, #[trigger] shorter[p] as int, j) by {
        assert(shorter[p] == chosen[p]);
        if is_chosen(chosen, j) {
            let q = choose|q: int| 0 <= q < chosen.len() && #[trigger] chosen[q] == j;
            if q < last {
                assert(shorter[q] == j);
            }
            assert(precedes(values, largest, chosen[p] as int, chosen[last] as int));
        } else {
            assert(precedes(values, largest, chosen[p] as int, j));
        }
    }
}

/// Chosen indices as 64-bit numbers.
pub open spec fn as_indices(chosen: Seq<usize>) -> Seq<i64> {
    Seq::new(chosen.len(), |s: int| chosen[s] as i64)
}

/// The values at the chosen indices.
pub open spec fn chosen_values(values: Seq<u32>, chosen: Seq<usize>) -> Seq<u32> {
    Seq::new(chosen.len(), |s: int| values[chosen[s] as int])
}

/// One lane of the result: the first elements of the lane in order, with their indices.
pub open spec fn top_lane(
    values: Seq<u32>,
    largest: bool,
    k: nat,
    top: Seq<u32>,
    indices: Seq<i64>,
) -> bool {
    exists|chosen: Seq<usize>|
        {
            &&& chosen.len() == k
            &&& #[trigger] ranked(values, largest, chosen, values.len() as int)
            &&& top == chosen_values(values, chosen)
            &&& indices == as_indices(chosen)
        }
}

/// Takes the first `k` elements along the axis of every lane.
pub fn top_k(
    input: &[u32],
    outer: usize,
    len: usize,
    inner: usize,
    k: usize,
    largest: bool,
) -> (r: (Vec<u32>, Vec<i64>))
    requires
        input@.len() == outer as nat * len as nat * inner as nat,
        k <= len,
        len <= i64::MAX,
        outer as nat * k as nat * inner as nat <= usize::MAX,
    ensures
        r.0@.len() == outer as nat * k as nat * inner as nat,
        r.1@.len() == outer as nat * k as nat * inner as nat,
        forall|o: nat, i: nat|
            o < outer && i < inner ==> top_lane(
                #[trigger] crate::backend::nn::lane(input@, len as nat, inner as nat, o, i),
                largest,
                k as nat,
                crate::backend::nn::lane(r.0@, k as nat, inner as nat, o, i),
                crate::backend::nn::lane(r.1@, k as nat, inner as nat, o, i),
            ),
{
    let total: usize = lane_total(outer, k, inner);
    let mut values: Vec<u32> = vec![0u32; total];
    let mut indices: Vec<i64> = vec![0i64; total];
    let mut o: usize = 0;
    while o < outer
        invariant
            o <= outer,
            input@.len() == outer as nat * len as nat * inner as nat,
            k <= len,
            len <= i64::MAX,
            values@.len() == outer as nat * k as nat * inner as nat,
            indices@.len() == outer as nat * k as nat * inner as nat,
            forall|p: nat, i: nat|
                p < o && i < inner ==> top_lane(
                    #[trigger] crate::backend::nn::lane(input@, len as nat, inner as nat, p, i),
                    largest,
                    k as nat,
                    crate::backend::nn::lane(values@, k as nat, inner as nat, p, i),
                    crate::backend::nn::lane(indices@, k as nat, inner as nat, p, i),
                ),
        decreases outer - o,
    {
        let mut i: usize = 0;
        while i < inner
            invariant
                i <= inner,
                o < outer,
                input@.len() == outer as nat * len as nat * inner as nat,
                k <= len,
                len <= i64::MAX,
                values@.len() == outer as nat * k as nat * inner as nat,
                indices@.len() == outer as nat * k as nat * inner as nat,
                forall|p: nat, j: nat|
                    (p < o && j < inner) || (p == o && j < i) ==> top_lane(
                        #[trigger] crate::backend::nn::lane(
                            input@,
                            len as nat,
                            inner as nat,
                            p,
                            j,
                        ),
                        largest,
                        k as nat,
                        crate::backend::nn::lane(values@, k as nat, inner as nat, p, j),
                        crate::backend::nn::lane(indices@, k as nat, inner as nat, p, j),
                    ),
            decreases inner - i,
        {
            let row: Vec<u32> = read_lane(input, outer, len, inner, o, i);
            let chosen: Vec<usize> = choose_top(&row, k, largest);
            let (top, at) = pick_top(&row, &chosen);
            let ghost values_before = values@;
            let ghost indices_before = indices@;
            write_lane(&mut values, outer, k, inner, o, i, &top);
            write_lane(&mut indices, outer, k, inner, o, i, &at);
            proof {
                let n = inner as nat;
                let kk = k as nat;
                lane_written(values_before, values@, outer as nat, kk, n, o as nat, i as nat, top@);
                lane_written(
                    indices_before,
                    indices@,
                    outer as nat,
                    kk,
                    n,
                    o as nat,
                    i as nat,
                    at@,
                );
                assert(top_lane(row@, largest, kk, top@, at@));
                assert forall|p: nat, j: nat|
                    (p < o && j < inner) || (p == o && j < i) implies top_lane(
                    #[trigger] crate::backend::nn::lane(input@, len as nat, n, p, j),
                    largest,
                    kk,
                    crate::backend::nn::lane(values@, kk, n, p, j),
                    crate::backend::nn::lane(indices@, kk, n, p, j),
                ) by {
                    lane_kept(
                        values_before,
                        values@,
                        outer as nat,
                        kk,
                        n,
                        o as nat,
                        i as nat,
                        top@,
                        p,
                        j,
                    );
                    lane_kept(
                        indices_before,
                        indices@,
                        outer as nat,
                        kk,
                        n,
                        o as nat,
                        i as nat,
                        at@,
                        p,
                        j,
                    );
                }
            }
            i = i + 1;
        }
        o = o + 1;
    }
    (values, indices)
}

/// Number of elements of all lanes.
fn lane_total(outer: usize, len: usize, inner: usize) -> (r: usize)
    requires
        outer as nat * len as nat * inner as nat <= usize::MAX,
    ensures
        r == outer as nat * len as nat * inner as nat,
{
    if inner == 0 {
        assert(outer as nat * len as nat * 0 == 0) by (nonlinear_arith);
        return 0;
    }
    proof {
        let lines = outer as nat * len as nat;
        assert(lines <= lines * inner as nat) by (nonlinear_arith)
            requires
                inner >= 1,
        ;
    }
    outer * len * inner
}

/// The effect of writing a lane.
spec fn lane_replaced<T>(
    before: Seq<T>,
    after: Seq<T>,
    len: nat,
    inner: nat,
    o: nat,
    i: nat,
    row: Seq<T>,
) -> bool {
    &&& after.len() == before.len()
    &&& forall|t: int|
        0 <= t < after.len() ==> #[trigger] after[t] == (if crate::backend::nn::in_lane(
            len,
            inner,
            t as nat,
            o,
            i,
        ) {
            row[crate::backend::nn::along(len, inner, t as nat) as int]
        } else {
            before[t]
        })
}

/// A written lane holds what was written.
proof fn lane_written<T>(
    before: Seq<T>,
    after: Seq<T>,
    outers: nat,
    len: nat,
    inner: nat,
    o: nat,
    i: nat,
    row: Seq<T>,
)
    requires
        lane_replaced(before, after, len, inner, o, i, row),
        after.len() == outers * len * inner,
        row.len() == len,
        o < outers,
        i < inner,
    ensures
        crate::backend::nn::lane(after, len, inner, o, i) == row,
{
    assert forall|a: int| 0 <= a < len implies #[trigger] crate::backend::nn::lane(
        after,
        len,
        inner,
        o,
        i,
    )[a] == row[a] by {
        crate::backend::nn::lane_decodes(len, inner, outers, o, a as nat, i);
    }
    assert(crate::backend::nn::lane(after, len, inner, o, i) =~= row);
}

/// Writing one lane leaves the others alone.
proof fn lane_kept<T>(
    before: Seq<T>,
    after: Seq<T>,
    outers: nat,
    len: nat,
    inner: nat,
    o: nat,
    i: nat,
    row: Seq<T>,
    p: nat,
    j: nat,
)
    requires
        lane_replaced(before, after, len, inner, o, i, row),
        after.len() == outers * len * inner,
        p < outers,
        j < inner,
        p != o || j != i,
    ensures
        crate::backend::nn::lane(after, len, inner, p, j) == crate::backend::nn::lane(
            before,
            len,
            inner,
            p,
            j,
        ),
{
    assert forall|a: int| 0 <= a < len implies #[trigger] crate::backend::nn::lane(
        after,
        len,
        inner,
        p,
        j,
    )[a] == crate::backend::nn::lane(before, len, inner, p, j)[a] by {
        crate::backend::nn::lane_decodes(len, inner, outers, p, a as nat, j);
    }
    assert(crate::backend::nn::lane(after, len, inner, p, j) =~= crate::backend::nn::lane(
        before,
        len,
        inner,
        p,
        j,
    ));
}

/// Values and indices of the chosen elements.
fn pick_top(values: &Vec<u32>, chosen: &Vec<usize>) -> (r: (Vec<u32>, Vec<i64>))
    requires
        values@.len() <= i64::MAX,
        forall|p: int| 0 <= p < chosen@.len() ==> #[trigger] chosen@[p] < values@.len(),
    ensures
        r.0@ == chosen_values(values@, chosen@),
        r.1@ == as_indices(chosen@),
{
    let mut top: Vec<u32> = Vec::new();
    let mut at: Vec<i64> = Vec::new();
    let mut s: usize = 0;
    while s < chosen.len()
        invariant
            s <= chosen@.len(),
            values@.len() <= i64::MAX,
            forall|p: int| 0 <= p < chosen@.len() ==> #[trigger] chosen@[p] < values@.len(),
            top@.len() == s,
            at@.len() == s,
            forall|p: int| 0 <= p < s ==> #[trigger] top@[p] == values@[chosen@[p] as int],
            forall|p: int| 0 <= p < s ==> #[trigger] at@[p] == chosen@[p] as i64,
        decreases chosen@.len() - s,
    {
        let index: usize = chosen[s];
        top.push(values[index]);
        at.push(index as i64);
        s = s + 1;
    }
    assert(top@ =~= chosen_values(values@, chosen@));
    assert(at@ =~= as_indices(chosen@));
    (top, at)
}

/// A checked selection.
#[derive(Clone, Copy, Debug)]
pub struct TopKPlan {
    /// The input.
    pub input: TensorMeta,
    /// The values.
    pub values: TensorMeta,
    /// The indices.
    pub indices: TensorMeta,
    /// The axis.
    pub axis: usize,
    /// How many elements of each lane.
    pub k: usize,
    /// Whether the largest come first.
    pub largest: bool,
}

impl TopKPlan {
    /// Input and values are half-precision tensors, the indices 64-bit numbers, and both
    /// results have `k` elements along the axis.
    pub open spec fn wf(self) -> bool {
        &&& crate::backend::float::halves(self.input)
        &&& crate::backend::float::halves(self.values)
        &&& self.indices.wf()
        &&& self.indices.element_size == 8
        &&& self.indices.dims() == self.values.dims()
        &&& self.axis < self.input.rank == self.values.rank
        &&& 0 < self.k <= self.input.shape[self.axis as int]
        &&& self.input.shape[self.axis as int] <= u32::MAX
        &&& shrinks_to(self.input.dims(), self.values.dims(), self.axis as int, self.k as nat)
    }

    /// The bytes of every tensor, and the extents after the axis, can be counted.
    pub open spec fn possible(self) -> bool {
        &&& crate::backend::logical::countable(self.input)
        &&& crate::backend::logical::countable(self.values)
        &&& crate::backend::logical::countable(self.indices)
        &&& crate::backend::meta::multiplies(
            self.input.dims(),
            self.axis + 1,
            self.input.rank as int,
        )
    }
}

/// The shape of the result: `k` elements along the axis, all else as in the input.
pub open spec fn shrinks_to(input: Seq<nat>, output: Seq<nat>, axis: int, k: nat) -> bool {
    forall|a: int|
        0 <= a < input.len() ==> #[trigger] output[a] == (if a == axis {
            k
        } else {
            input[a]
        })
}

/// What is wrong with a call of the selection, where anything is.
pub open spec fn top_k_fault(ctx: CallContext) -> Option<BackendErr> {
    let input = ctx.inputs[0];
    let values = ctx.outputs[0];
    let indices = ctx.outputs[1];
    let rank = input.ndim.0 as int;
    if crate::backend::transform::io_fault(ctx, 1, 2) is Some {
        crate::backend::transform::io_fault(ctx, 1, 2)
    } else {
        match ctx.attr_as::<TopKAttr>() {
            None => Some(BackendErr::InvalidAttr),
            Some(attr) => {
                let axis = crate::backend::meta::axis_of(attr.axis, rank);
                if crate::backend::meta::view_fault(input) is Some {
                    crate::backend::meta::view_fault(input)
                } else if crate::backend::meta::view_fault(values) is Some {
                    crate::backend::meta::view_fault(values)
                } else if crate::backend::meta::view_fault(indices) is Some {
                    crate::backend::meta::view_fault(indices)
                } else if crate::backend::gather::axis_fault(attr.axis, rank) is Some {
                    crate::backend::gather::axis_fault(attr.axis, rank)
                } else if attr.k.0 == 0 || attr.k.0 > input.shape[axis].0 || input.dtype
                    != values.dtype || indices.dtype.0 != AiDtype::I64
                    || crate::backend::meta::view_dims(values) != crate::backend::meta::view_dims(
                    indices,
                ) || values.ndim != input.ndim || !shrinks_to(
                    crate::backend::meta::view_dims(input),
                    crate::backend::meta::view_dims(values),
                    axis,
                    attr.k.0 as nat,
                ) {
                    Some(BackendErr::InvalidTensor)
                } else if input.dtype.0 != AiDtype::F16 {
                    Some(BackendErr::UnsupportedDtype)
                } else {
                    None
                }
            },
        }
    }
}

/// Checks a call of the selection.
pub fn check_top_k(ctx: &CallContext) -> (r: Result<TopKPlan, BackendErr>)
    requires
        ctx.wf(),
    ensures
        match r {
            Ok(plan) => {
                let attr = ctx.attr_as::<TopKAttr>()->0;
                &&& top_k_fault(*ctx) is None
                &&& plan.wf()
                &&& crate::backend::call::checked(ctx.inputs[0], plan.input)
                &&& crate::backend::call::checked(ctx.outputs[0], plan.values)
                &&& crate::backend::call::checked(ctx.outputs[1], plan.indices)
                &&& plan.axis == crate::backend::meta::axis_of(attr.axis, plan.input.rank as int)
                &&& plan.k == attr.k.0
                &&& plan.largest == (attr.largest != 0)
            },
            Err(err) => top_k_fault(*ctx) == Some(err),
        },
{
    ctx.expect_io(1, 2)?;
    ctx.reject_input_output_alias()?;
    let attr: TopKAttr = ctx.read_attr::<TopKAttr>()?;
    let input: TensorMeta = ctx.inputs[0].checked_meta()?;
    let values: TensorMeta = ctx.outputs[0].checked_meta()?;
    let indices: TensorMeta = ctx.outputs[1].checked_meta()?;
    let axis: usize = normalize_axis(attr.axis, input.rank)?;
    let k: usize = attr.k.0 as usize;
    assert(input.shape[axis as int] == ctx.inputs[0].shape[axis as int].0);
    if k == 0 || k > input.shape[axis] || ctx.inputs[0].dtype.0 != ctx.outputs[0].dtype.0
        || ctx.outputs[1].dtype.0 != AiDtype::I64 || !same_shape(&values, &indices) || values.rank
        != input.rank {
        return Err(BackendErr::InvalidTensor);
    }
    let ghost from = input.dims();
    let ghost to = values.dims();
    let mut a: usize = 0;
    while a < input.rank
        invariant
            a <= input.rank == values.rank,
            input.rank <= 8,
            axis < input.rank,
            from == input.dims(),
            to == values.dims(),
            !shrinks_to(from, to, axis as int, k as nat) ==> top_k_fault(*ctx) == Some(
                BackendErr::InvalidTensor,
            ),
            forall|b: int|
                0 <= b < a ==> #[trigger] to[b] == (if b == axis {
                    k as nat
                } else {
                    from[b]
                }),
        decreases input.rank - a,
    {
        let expected: usize = if a == axis {
            k
        } else {
            input.shape[a]
        };
        if values.shape[a] != expected {
            assert(to[a as int] == values.shape[a as int]);
            assert(from[a as int] == input.shape[a as int]);
            return Err(BackendErr::InvalidTensor);
        }
        a = a + 1;
    }
    if ctx.inputs[0].dtype.0 != AiDtype::F16 {
        return Err(BackendErr::UnsupportedDtype);
    }
    Ok(TopKPlan { input, values, indices, axis, k, largest: attr.largest != 0 })
}

/// What running a selection does: the input is widened, the first elements of every lane
/// taken, and the values narrowed; the indices come back. Tensors that cannot be counted
/// are refused.
pub open spec fn top_k_outcome<W: Fn(u16) -> u32, N: Fn(u32) -> u16>(
    plan: TopKPlan,
    widen: W,
    narrow: N,
    raw: Seq<u8>,
    before: Seq<u8>,
    after: Seq<u8>,
    r: Result<Vec<i64>, BackendErr>,
) -> bool {
    let len = plan.input.shape[plan.axis as int] as nat;
    let outer = crate::shape::product(plan.input.dims(), 0, plan.axis as int);
    let inner = crate::shape::product(plan.input.dims(), plan.axis + 1, plan.input.rank as int);
    match r {
        Ok(indices) => plan.possible() && exists|wide: Seq<u32>, top: Seq<u32>|
            {
                &&& #[trigger] crate::backend::float::widened(widen, raw, plan.input, wide)
                &&& top.len() == indices@.len() == plan.values.element_count
                &&& forall|o: nat, i: nat|
                    o < outer && i < inner ==> top_lane(
                        #[trigger] crate::backend::nn::lane(wide, len, inner, o, i),
                        plan.largest,
                        plan.k as nat,
                        crate::backend::nn::lane(top, plan.k as nat, inner, o, i),
                        crate::backend::nn::lane(indices@, plan.k as nat, inner, o, i),
                    )
                &&& #[trigger] crate::backend::float::narrowed(
                    narrow,
                    top,
                    plan.values,
                    before,
                    after,
                )
            },
        Err(err) => !plan.possible() && err == BackendErr::InvalidTensor && after == before,
    }
}

/// Selects the first elements of every lane. The indices come back.
pub fn run_top_k<W: Fn(u16) -> u32, N: Fn(u32) -> u16>(
    plan: &TopKPlan,
    raw: &[u8],
    output: &mut [u8],
    widen: &W,
    narrow: &N,
) -> (r: Result<Vec<i64>, BackendErr>)
    requires
        plan.wf(),
        plan.input.lies_in(raw@.len() as int / 2),
        plan.values.lies_in(old(output)@.len() as int / 2),
        forall|h: u16| #[trigger] widen.requires((h,)),
        forall|v: u32| #[trigger] narrow.requires((v,)),
    ensures
        top_k_outcome(*plan, *widen, *narrow, raw@, old(output)@, final(output)@, r),
{
    if plan.values.element_count.checked_mul(plan.values.element_size).is_none()
        || plan.indices.element_count.checked_mul(plan.indices.element_size).is_none() {
        return Err(BackendErr::InvalidTensor);
    }
    let axis: usize = plan.axis;
    proof {
        let from = plan.input.dims();
        let to = plan.values.dims();
        let rank = plan.input.rank as int;
        crate::backend::nn::lanes_cover(plan.input, axis as int);
        crate::backend::nn::lanes_cover(plan.values, axis as int);
        assert forall|a: int| 0 <= a < axis implies from[a] == to[a] by {
            assert(to[a] == from[a]);
        }
        assert forall|a: int| axis + 1 <= a < rank implies from[a] == to[a] by {
            assert(to[a] == from[a]);
        }
        crate::shape::product_local(from, to, 0, axis as int);
        crate::shape::product_local(from, to, axis + 1, rank);
        assert(to[axis as int] == plan.k);
        assert(to[axis as int] == plan.values.shape[axis as int]);
    }
    let wide: Vec<u32> = read_float_tensor(raw, &plan.input, widen)?;
    let outer: usize = shape_product(&plan.input, 0, axis)?;
    let inner: usize = shape_product(&plan.input, axis + 1, plan.input.rank)?;
    let (top, indices) = top_k(
        &wide,
        outer,
        plan.input.shape[axis],
        inner,
        plan.k,
        plan.largest,
    );
    write_float_tensor(&top, output, &plan.values, narrow)?;
    Ok(indices)
}

/// What selecting into both outputs does: what selecting does, and the indices written.
pub open spec fn top_k_filled<W: Fn(u16) -> u32, N: Fn(u32) -> u16>(
    plan: TopKPlan,
    widen: W,
    narrow: N,
    raw: Seq<u8>,
    before: (Seq<u8>, Seq<u8>),
    after: (Seq<u8>, Seq<u8>),
    r: Result<(), BackendErr>,
) -> bool {
    match r {
        Ok(_) => exists|indices: Vec<i64>|
            {
                &&& #[trigger] top_k_outcome(
                    plan,
                    widen,
                    narrow,
                    raw,
                    before.0,
                    after.0,
                    Ok(indices),
                )
                &&& crate::backend::gather::indices_written(
                    indices@,
                    plan.indices,
                    before.1,
                    after.1,
                )
            },
        Err(err) => !plan.possible() && err == BackendErr::InvalidTensor && after == before,
    }
}

/// Selects the first elements of every lane, and writes their indices to the second output.
pub fn run_top_k_with_indices<W: Fn(u16) -> u32, N: Fn(u32) -> u16>(
    plan: &TopKPlan,
    raw: &[u8],
    output: &mut [u8],
    positions: &mut [u8],
    widen: &W,
    narrow: &N,
) -> (r: Result<(), BackendErr>)
    requires
        plan.wf(),
        plan.input.lies_in(raw@.len() as int / 2),
        plan.values.lies_in(old(output)@.len() as int / 2),
        plan.indices.lies_in(old(positions)@.len() as int / 8),
        forall|h: u16| #[trigger] widen.requires((h,)),
        forall|v: u32| #[trigger] narrow.requires((v,)),
    ensures
        top_k_filled(
            *plan,
            *widen,
            *narrow,
            raw@,
            (old(output)@, old(positions)@),
            (final(output)@, final(positions)@),
            r,
        ),
{
    let indices: Vec<i64> = run_top_k(plan, raw, output, widen, narrow)?;
    assert(plan.indices.dims().len() == plan.values.dims().len());
    let written: Result<(), BackendErr> = write_indices(&indices, positions, &plan.indices);
    proof {
        let before = (old(output)@, old(positions)@);
        let after = (output@, positions@);
        assert(top_k_outcome(*plan, *widen, *narrow, raw@, before.0, after.0, Ok(indices)));
    }
    written
}


/// The number of one pattern is below that of another: by sign first, then by magnitude,
/// which counts downwards below zero.
pub open spec fn number_below(a: u32, b: u32) -> bool {
    let (a_negative, b_negative) = (a >= 0x8000_0000, b >= 0x8000_0000);
    let (a_size, b_size) = (a as int % 0x8000_0000, b as int % 0x8000_0000);
    if a_negative != b_negative {
        a_negative
    } else if a_negative {
        a_size > b_size
    } else {
        a_size < b_size
    }
}

/// Places in the order follow the numbers.
pub proof fn places_follow_numbers(a: u32, b: u32)
    ensures
        (ordinal(a) < ordinal(b)) == number_below(a, b),
        ordinal(a) == ordinal(b) ==> a == b,
{
}

/// Selecting gives the first elements in order: each value is that of the lane at its index,
/// no later one belongs before an earlier one, equal ones stand by index, and nothing that
/// was left out belongs before one that was taken.
pub proof fn selection_is_sorted(
    values: Seq<u32>,
    largest: bool,
    k: nat,
    top: Seq<u32>,
    indices: Seq<i64>,
)
    requires
        top_lane(values, largest, k, top, indices),
        values.len() <= i64::MAX,
    ensures
        top.len() == k,
        indices.len() == k,
        forall|s: int|
            0 <= s < k ==> 0 <= #[trigger] indices[s] < values.len() && top[s]
                == values[indices[s] as int],
        forall|s: int, u: int|
            0 <= s < u < k ==> {
                &&& (if largest {
                    !number_below(top[s], top[u])
                } else {
                    !number_below(top[u], top[s])
                })
                &&& top[s] == top[u] ==> #[trigger] indices[s] < #[trigger] indices[u]
            },
        forall|s: int, j: int|
            0 <= s < k && 0 <= j < values.len() && (forall|u: int| 0 <= u < k ==> indices[u] != j)
                ==> if largest {
                !number_below(#[trigger] top[s], #[trigger] values[j])
            } else {
                !number_below(values[j], top[s])
            },
{
    let chosen = choose|chosen: Seq<usize>|
        {
            &&& chosen.len() == k
            &&& #[trigger] ranked(values, largest, chosen, values.len() as int)
            &&& top == chosen_values(values, chosen)
            &&& indices == as_indices(chosen)
        };
    assert forall|s: int| 0 <= s < k implies 0 <= #[trigger] indices[s] < values.len() && top[s]
        == values[indices[s] as int] by {
        assert(chosen[s] < values.len());
    }
    assert forall|s: int, u: int| 0 <= s < u < k implies {
        &&& (if largest {
            !number_below(top[s], top[u])
        } else {
            !number_below(top[u], top[s])
        })
        &&& top[s] == top[u] ==> #[trigger] indices[s] < #[trigger] indices[u]
    } by {
        assert(chosen[s] < values.len() && chosen[u] < values.len());
        assert(precedes(values, largest, chosen[s] as int, chosen[u] as int));
    }
    assert forall|s: int, j: int|
        0 <= s < k && 0 <= j < values.len() && (forall|u: int| 0 <= u < k ==> indices[u]
            != j) implies if largest {
        !number_below(#[trigger] top[s], #[trigger] values[j])
    } else {
        !number_below(values[j], top[s])
    } by {
        assert(!is_chosen(chosen, j)) by {
            if is_chosen(chosen, j) {
                let p = choose|p: int| 0 <= p < chosen.len() && #[trigger] chosen[p] == j;
                assert(indices[p] == j);
            }
        }
        assert(precedes(values, largest, chosen[s] as int, j));
    }
}

/// Selecting runs along the axis: the candidates of a lane are the elements of the input
/// whose coordinates differ along the axis alone, and the results stand along the same axis.
pub proof fn selection_runs_along_the_axis<W: Fn(u16) -> u32, N: Fn(u32) -> u16>(
    plan: TopKPlan,
    widen: W,
    narrow: N,
    raw: Seq<u8>,
    before: Seq<u8>,
    after: Seq<u8>,
    indices: Vec<i64>,
    coords: Seq<nat>,
) -> (r: (Seq<u32>, Seq<u32>))
    requires
        plan.wf(),
        top_k_outcome(plan, widen, narrow, raw, before, after, Ok(indices)),
        crate::backend::meta::coords_within(plan.values.dims(), coords),
    ensures
        crate::backend::float::widened(widen, raw, plan.input, r.0),
        crate::backend::float::narrowed(narrow, r.1, plan.values, before, after),
        ({
            let (axis, rank) = (plan.axis as int, plan.input.rank as int);
            let at = |a: int|
                crate::backend::meta::linear_of(
                    plan.input.dims(),
                    coords.update(axis, a as nat),
                    rank,
                ) as int;
            let to = |a: int|
                crate::backend::meta::linear_of(
                    plan.values.dims(),
                    coords.update(axis, a as nat),
                    rank,
                ) as int;
            top_lane(
                Seq::new(plan.input.shape[axis] as nat, |a: int| r.0[at(a)]),
                plan.largest,
                plan.k as nat,
                Seq::new(plan.k as nat, |a: int| r.1[to(a)]),
                Seq::new(plan.k as nat, |a: int| indices@[to(a)]),
            )
        }),
{
    let (axis, rank) = (plan.axis as int, plan.input.rank as int);
    let (wide_dims, dims) = (plan.input.dims(), plan.values.dims());
    let len = plan.input.shape[axis] as nat;
    let inner = crate::shape::product(wide_dims, axis + 1, rank);
    let outer = crate::shape::product(wide_dims, 0, axis);
    let (wide, top) = choose|wide: Seq<u32>, top: Seq<u32>|
        {
            &&& #[trigger] crate::backend::float::widened(widen, raw, plan.input, wide)
            &&& top.len() == indices@.len() == plan.values.element_count
            &&& forall|o: nat, i: nat|
                o < outer && i < inner ==> top_lane(
                    #[trigger] crate::backend::nn::lane(wide, len, inner, o, i),
                    plan.largest,
                    plan.k as nat,
                    crate::backend::nn::lane(top, plan.k as nat, inner, o, i),
                    crate::backend::nn::lane(indices@, plan.k as nat, inner, o, i),
                )
            &&& #[trigger] crate::backend::float::narrowed(
                narrow,
                top,
                plan.values,
                before,
                after,
            )
        };
    assert forall|a: int| 0 <= a < rank && a != axis implies wide_dims[a] == dims[a] by {
        assert(dims[a] == wide_dims[a]);
    }
    assert(dims[axis] == plan.k);
    assert forall|a: int| 0 <= a < wide_dims.len() implies #[trigger] coords[a] < wide_dims[a] by {
        assert(coords[a] < dims[a]);
    }
    crate::shape::product_local(wide_dims, dims, axis + 1, rank);
    crate::shape::product_local(wide_dims, dims, 0, axis);
    let (o, i) = crate::backend::nn::lane_by_coords(wide, wide_dims, axis, coords);
    let on_top = crate::backend::nn::lane_by_coords(top, dims, axis, coords);
    let on_indices = crate::backend::nn::lane_by_coords(indices@, dims, axis, coords);
    crate::backend::meta::position_is_local(wide_dims, dims, coords, coords, axis);
    assert(wide_dims.skip(axis + 1) =~= dims.skip(axis + 1));
    assert(on_top == (o, i) && on_indices == (o, i));
    let at = |a: int|
        crate::backend::meta::linear_of(wide_dims, coords.update(axis, a as nat), rank) as int;
    let to = |a: int|
        crate::backend::meta::linear_of(dims, coords.update(axis, a as nat), rank) as int;
    assert(Seq::new(len, |a: int| wide[at(a)]) =~= crate::backend::nn::lane(
        wide,
        len,
        inner,
        o,
        i,
    )) by {
        assert forall|a: int| 0 <= a < len implies wide[at(a)] == #[trigger] crate::backend::nn::lane(
            wide,
            len,
            inner,
            o,
            i,
        )[a] by {
            assert(a as nat as int == a);
        }
    }
    assert(Seq::new(plan.k as nat, |a: int| top[to(a)]) =~= crate::backend::nn::lane(
        top,
        plan.k as nat,
        inner,
        o,
        i,
    )) by {
        assert forall|a: int| 0 <= a < plan.k implies top[to(a)] == #[trigger] crate::backend::nn::lane(
            top,
            plan.k as nat,
            inner,
            o,
            i,
        )[a] by {
            assert(a as nat as int == a);
        }
    }
    assert(Seq::new(plan.k as nat, |a: int| indices@[to(a)]) =~= crate::backend::nn::lane(
        indices@,
        plan.k as nat,
        inner,
        o,
        i,
    )) by {
        assert forall|a: int| 0 <= a < plan.k implies indices@[to(a)]
            == #[trigger] crate::backend::nn::lane(indices@, plan.k as nat, inner, o, i)[a] by {
            assert(a as nat as int == a);
        }
    }
    (wide, top)
}

/// A checked selection follows its attribute: the axis it names, a negative number counting
/// from the back, as many elements as it asks for, and the largest first where it says so.
pub proof fn selection_follows_its_attribute(ctx: CallContext, plan: TopKPlan)
    requires
        call_ensures(check_top_k, (&ctx,), Ok::<TopKPlan, BackendErr>(plan)),
    ensures
        ({
            let attr = ctx.attr_as::<TopKAttr>()->0;
            &&& plan.axis == attr.axis.0 || plan.axis == attr.axis.0 + plan.input.rank
            &&& plan.axis < plan.input.rank
            &&& plan.k == attr.k.0
            &&& plan.largest == (attr.largest != 0)
            &&& plan.values.shape[plan.axis as int] == attr.k.0
        }),
{
    assert(plan.values.dims()[plan.axis as int] == plan.k);
}

} // verus!
