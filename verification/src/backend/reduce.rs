//! Maximum over some of the axes.

use crate::backend::call::CallContext;
use crate::backend::float::{read_float_tensor, write_float_tensor};
use crate::backend::gather::same_shape;
use crate::backend::logical::row_major_linear;
use crate::backend::meta::{normalize_axis, TensorMeta};
use crate::uabi::desc::AiDtype;
use crate::uabi::error::BackendErr;
use crate::uabi::kernelattr::ReduceMaxAttr;
use vstd::prelude::*;

verus! {

/// Number of axes before `axis` that stay.
pub open spec fn kept_before(reduced: Seq<bool>, axis: int) -> nat
    decreases axis,
{
    if axis <= 0 {
        0
    } else if reduced[axis - 1] {
        kept_before(reduced, axis - 1)
    } else {
        kept_before(reduced, axis - 1) + 1
    }
}

/// The axis of the output that an axis of the input becomes.
pub open spec fn output_axis(reduced: Seq<bool>, keep: bool, axis: int) -> int {
    if keep {
        axis
    } else {
        kept_before(reduced, axis) as int
    }
}

/// Product of the extents of the reduced axes before `axis`.
pub open spec fn reduced_product(dims: Seq<nat>, reduced: Seq<bool>, axis: int) -> nat
    decreases axis,
{
    if axis <= 0 {
        1
    } else if reduced[axis - 1] {
        reduced_product(dims, reduced, axis - 1) * dims[axis - 1]
    } else {
        reduced_product(dims, reduced, axis - 1)
    }
}

/// Product of the extents of the reduced axes from `axis` on.
pub open spec fn reduced_tail(dims: Seq<nat>, reduced: Seq<bool>, axis: int) -> nat
    decreases dims.len() - axis,
{
    if axis >= dims.len() {
        1
    } else if reduced[axis] {
        dims[axis] * reduced_tail(dims, reduced, axis + 1)
    } else {
        reduced_tail(dims, reduced, axis + 1)
    }
}

/// The products before and from an axis make the whole.
proof fn reduced_split(dims: Seq<nat>, reduced: Seq<bool>, axis: int)
    requires
        0 <= axis <= dims.len(),
    ensures
        reduced_product(dims, reduced, dims.len() as int) == reduced_product(dims, reduced, axis)
            * reduced_tail(dims, reduced, axis),
    decreases dims.len() - axis,
{
    let head = reduced_product(dims, reduced, axis);
    if axis < dims.len() {
        reduced_split(dims, reduced, axis + 1);
        let tail = reduced_tail(dims, reduced, axis + 1);
        let d = dims[axis];
        assert((head * d) * tail == head * (d * tail)) by (nonlinear_arith);
    } else {
        assert(head * 1 == head) by (nonlinear_arith);
    }
}

/// Coordinate of candidate `k` along a reduced axis.
pub open spec fn candidate_digit(dims: Seq<nat>, reduced: Seq<bool>, k: nat, axis: int) -> nat {
    (k / reduced_tail(dims, reduced, axis + 1)) % dims[axis]
}

/// The input coordinates of candidate `k` for an output element: kept axes as in the
/// output, reduced axes in row-major order.
pub open spec fn candidate_coords(
    dims: Seq<nat>,
    reduced: Seq<bool>,
    keep: bool,
    out_coords: Seq<nat>,
    k: nat,
) -> Seq<nat> {
    Seq::new(
        dims.len(),
        |a: int|
            if reduced[a] {
                candidate_digit(dims, reduced, k, a)
            } else {
                out_coords[output_axis(reduced, keep, a)]
            },
    )
}

/// Shapes of a reduction.
#[derive(Clone, Copy, Debug)]
pub struct ReduceShape {
    /// The input.
    pub input: TensorMeta,
    /// The output.
    pub output: TensorMeta,
    /// The axes that are reduced.
    pub reduced: [bool; 8],
}

impl ReduceShape {
    /// Reduced axes stay, with one element.
    pub open spec fn keep(self) -> bool {
        self.output.rank == self.input.rank
    }

    /// The output has the kept extents.
    pub open spec fn wf(self) -> bool {
        &&& self.input.wf()
        &&& self.output.wf()
        &&& forall|a: int|
            0 <= a < self.input.rank && !(#[trigger] self.reduced[a]) ==> {
                let o = output_axis(self.reduced@, self.keep(), a);
                o < self.output.rank && self.output.shape[o] == self.input.shape[a]
            }
    }

    /// Number of candidates for each output element.
    pub open spec fn candidates(self) -> nat {
        reduced_product(self.input.dims(), self.reduced@, self.input.rank as int)
    }

    /// The extents of the reduced axes can be multiplied one by one.
    pub open spec fn multiplies(self) -> bool {
        forall|n: int|
            0 <= n <= self.input.rank ==> #[trigger] reduced_product(
                self.input.dims(),
                self.reduced@,
                n,
            ) <= usize::MAX
    }

    /// Input position of candidate `k` for output position `i`.
    pub open spec fn candidate(self, i: nat, k: nat) -> nat {
        crate::backend::meta::linear_of(
            self.input.dims(),
            candidate_coords(
                self.input.dims(),
                self.reduced@,
                self.keep(),
                crate::backend::meta::coords_of(self.output.dims(), i),
                k,
            ),
            self.input.rank as int,
        )
    }

    /// `value` is the maximum of the candidates for output position `i`.
    pub open spec fn reduces<M: Fn(&Vec<u32>) -> u32>(
        self,
        input: Seq<u32>,
        maximum: M,
        i: nat,
        value: u32,
    ) -> bool {
        exists|candidates: Vec<u32>|
            {
                &&& candidates@.len() == self.candidates()
                &&& forall|k: int|
                    0 <= k < candidates@.len() ==> #[trigger] candidates@[k]
                        == input[self.candidate(i, k as nat) as int]
                &&& #[trigger] maximum.ensures((&candidates,), value)
            }
    }

    /// Product of the extents of the reduced axes.
    fn candidate_count(&self) -> (r: Result<usize, BackendErr>)
        requires
            self.input.rank <= 8,
        ensures
            match r {
                Ok(count) => self.multiplies() && count == self.candidates(),
                Err(err) => err == BackendErr::InvalidTensor && !self.multiplies(),
            },
    {
        let ghost dims = self.input.dims();
        let mut count: usize = 1;
        let mut axis: usize = 0;
        while axis < self.input.rank
            invariant
                axis <= self.input.rank <= 8,
                dims == self.input.dims(),
                count == reduced_product(dims, self.reduced@, axis as int),
                forall|n: int|
                    0 <= n <= axis ==> #[trigger] reduced_product(dims, self.reduced@, n)
                        <= usize::MAX,
            decreases self.input.rank - axis,
        {
            assert(dims[axis as int] == self.input.shape[axis as int]);
            if self.reduced[axis] {
                match count.checked_mul(self.input.shape[axis]) {
                    Some(next) => {
                        count = next;
                    },
                    None => {
                        assert(reduced_product(dims, self.reduced@, axis + 1) > usize::MAX);
                        return Err(BackendErr::InvalidTensor);
                    },
                }
            }
            axis = axis + 1;
        }
        Ok(count)
    }

    /// Input position of candidate `k` for an output element.
    fn candidate_position(
        &self,
        coordinates: &[usize; 8],
        k: usize,
        Ghost(i): Ghost<nat>,
    ) -> (r: usize)
        requires
            self.wf(),
            i < self.output.element_count,
            k < self.candidates(),
            crate::backend::meta::as_coords(*coordinates, self.output.rank as int)
                == crate::backend::meta::coords_of(self.output.dims(), i),
        ensures
            r == self.candidate(i, k as nat),
            r < self.input.element_count,
    {
        let ghost dims = self.input.dims();
        let ghost reduced = self.reduced@;
        let ghost keep = self.keep();
        let ghost wanted = crate::backend::meta::coords_of(self.output.dims(), i);
        let keep_axes: bool = self.output.rank == self.input.rank;
        proof {
            crate::backend::meta::coords_are_within(self.output.dims(), i);
        }
        let mut at: [usize; 8] = [0; 8];
        let mut o: usize = 0;
        let mut a: usize = 0;
        while a < self.input.rank
            invariant
                a <= self.input.rank <= 8,
                self.wf(),
                o <= a,
                o == output_axis(reduced, keep, a as int),
                dims == self.input.dims(),
                reduced == self.reduced@,
                keep == self.keep(),
                keep_axes == keep,
                wanted == crate::backend::meta::coords_of(self.output.dims(), i),
                crate::backend::meta::coords_within(self.output.dims(), wanted),
                crate::backend::meta::as_coords(*coordinates, self.output.rank as int) == wanted,
                forall|b: int|
                    0 <= b < a && !(#[trigger] reduced[b]) ==> at[b] == wanted[output_axis(
                        reduced,
                        keep,
                        b,
                    )] && at[b] < dims[b],
            decreases self.input.rank - a,
        {
            if !self.reduced[a] {
                proof {
                    assert(!reduced[a as int]);
                    assert(self.output.shape[o as int] == self.input.shape[a as int]);
                    assert(wanted[o as int] < self.output.dims()[o as int]);
                    assert(wanted[o as int] == coordinates[o as int]);
                }
                at[a] = coordinates[o];
                o = o + 1;
            } else if keep_axes {
                o = o + 1;
            }
            a = a + 1;
        }
        let mut remaining: usize = k;
        let mut a: usize = self.input.rank;
        proof {
            assert(k as nat / 1 == k) by (nonlinear_arith);
        }
        while a > 0
            invariant
                a <= self.input.rank <= 8,
                self.input.wf(),
                k < self.candidates(),
                dims == self.input.dims(),
                reduced == self.reduced@,
                remaining == k as nat / reduced_tail(dims, reduced, a as int),
                reduced_tail(dims, reduced, a as int) > 0,
                forall|b: int|
                    0 <= b < self.input.rank && !(#[trigger] reduced[b]) ==> at[b]
                        == wanted[output_axis(reduced, keep, b)] && at[b] < dims[b],
                forall|b: int|
                    a <= b < self.input.rank && #[trigger] reduced[b] ==> at[b] == candidate_digit(
                        dims,
                        reduced,
                        k as nat,
                        b,
                    ) && at[b] < dims[b],
            decreases a,
        {
            a = a - 1;
            if self.reduced[a] {
                proof {
                    assert(reduced[a as int]);
                    assert(dims[a as int] == self.input.shape[a as int]);
                    reduced_split(dims, reduced, a as int);
                    let head = reduced_product(dims, reduced, a as int);
                    let tail = reduced_tail(dims, reduced, a + 1);
                    let d = dims[a as int];
                    if d == 0 {
                        assert(head * (d * tail) == 0) by (nonlinear_arith)
                            requires
                                d == 0,
                        ;
                    }
                    assert(d * tail > 0) by (nonlinear_arith)
                        requires
                            d > 0,
                            tail > 0,
                    ;
                    vstd::arithmetic::div_mod::lemma_div_denominator(
                        k as int,
                        tail as int,
                        d as int,
                    );
                    assert(tail * d == d * tail) by (nonlinear_arith);
                    vstd::arithmetic::div_mod::lemma_mod_bound(
                        (k as nat / tail) as int,
                        d as int,
                    );
                }
                let extent: usize = self.input.shape[a];
                at[a] = remaining % extent;
                remaining = remaining / extent;
            }
        }
        proof {
            let coords = crate::backend::meta::as_coords(at, self.input.rank as int);
            let expected = candidate_coords(dims, reduced, keep, wanted, k as nat);
            assert forall|b: int| 0 <= b < self.input.rank implies #[trigger] coords[b]
                == expected[b] && coords[b] < dims[b] by {
                assert(coords[b] == at[b]);
            }
            assert(coords =~= expected);
            assert(crate::backend::meta::coords_within(dims, coords));
        }
        match row_major_linear(&self.input, &at) {
            Ok(position) => position,
            Err(_) => 0,
        }
    }
}

/// Takes the maximum over the reduced axes.
pub fn reduce_max<M: Fn(&Vec<u32>) -> u32>(input: &[u32], shape: &ReduceShape, maximum: &M) -> (r:
    Result<Vec<u32>, BackendErr>)
    requires
        shape.wf(),
        input@.len() == shape.input.element_count,
        forall|values: &Vec<u32>| #[trigger] maximum.requires((values,)),
    ensures
        match r {
            Ok(output) => {
                &&& shape.multiplies()
                &&& output@.len() == shape.output.element_count
                &&& forall|i: int|
                    0 <= i < output@.len() ==> shape.reduces(
                        input@,
                        *maximum,
                        i as nat,
                        #[trigger] output@[i],
                    )
            },
            Err(err) => err == BackendErr::InvalidTensor && !shape.multiplies(),
        },
{
    let count: usize = shape.candidate_count()?;
    let mut output: Vec<u32> = Vec::new();
    let mut i: usize = 0;
    while i < shape.output.element_count
        invariant
            i <= shape.output.element_count,
            shape.wf(),
            count == shape.candidates(),
            input@.len() == shape.input.element_count,
            forall|values: &Vec<u32>| #[trigger] maximum.requires((values,)),
            output@.len() == i,
            forall|j: int|
                0 <= j < i ==> shape.reduces(
                    input@,
                    *maximum,
                    j as nat,
                    #[trigger] output@[j],
                ),
        decreases shape.output.element_count - i,
    {
        let coordinates: [usize; 8] = match shape.output.coordinates(i) {
            Ok(coordinates) => coordinates,
            Err(_) => [0; 8],
        };
        let mut candidates: Vec<u32> = Vec::new();
        let mut k: usize = 0;
        while k < count
            invariant
                k <= count,
                i < shape.output.element_count,
                shape.wf(),
                count == shape.candidates(),
                input@.len() == shape.input.element_count,
                crate::backend::meta::as_coords(coordinates, shape.output.rank as int)
                    == crate::backend::meta::coords_of(shape.output.dims(), i as nat),
                candidates@.len() == k,
                forall|j: int|
                    0 <= j < k ==> #[trigger] candidates@[j] == input@[shape.candidate(
                        i as nat,
                        j as nat,
                    ) as int],
            decreases count - k,
        {
            let position: usize = shape.candidate_position(&coordinates, k, Ghost(i as nat));
            candidates.push(input[position]);
            k = k + 1;
        }
        let best: u32 = maximum(&candidates);
        assert(shape.reduces(input@, *maximum, i as nat, best));
        output.push(best);
        i = i + 1;
    }
    Ok(output)
}

/// The attribute names an axis among its first `n`.
pub open spec fn names_axis(attr: ReduceMaxAttr, rank: int, n: int, axis: int) -> bool {
    exists|q: int| 0 <= q < n && #[trigger] named_axis(attr, rank, q) == axis
}

/// The axis that entry `q` of the attribute names.
pub open spec fn named_axis(attr: ReduceMaxAttr, rank: int, q: int) -> int {
    crate::backend::meta::axis_of(attr.axes[q], rank)
}

/// The entries of the attribute name axes that exist, each at most once.
pub open spec fn axes_ok(attr: ReduceMaxAttr, rank: int) -> bool {
    let n = attr.axis_count.0 as int;
    &&& forall|q: int| 0 <= q < n ==> 0 <= #[trigger] named_axis(attr, rank, q) < rank
    &&& forall|p: int, q: int|
        0 <= p < q < n ==> #[trigger] named_axis(attr, rank, p) != #[trigger] named_axis(
            attr,
            rank,
            q,
        )
}

/// The axes that are reduced: those named, or all of them where none is.
pub open spec fn reduces_axis(attr: ReduceMaxAttr, rank: int, axis: int) -> bool {
    attr.axis_count.0 == 0 || names_axis(attr, rank, attr.axis_count.0 as int, axis)
}

/// The reduced axes as flags.
pub open spec fn reduced_axes(attr: ReduceMaxAttr, rank: int) -> Seq<bool> {
    Seq::new(8, |axis: int| reduces_axis(attr, rank, axis))
}

/// The output has the shape of a reduction.
pub open spec fn output_fits(
    input: Seq<nat>,
    output: Seq<nat>,
    reduced: Seq<bool>,
    keep: bool,
) -> bool {
    let rank = input.len() as int;
    &&& output.len() == output_axis(reduced, keep, rank)
    &&& forall|a: int|
        0 <= a < rank ==> axis_fits(input, output, reduced, keep, a)
}

/// One axis has the extent that it has after a reduction.
pub open spec fn axis_fits(
    input: Seq<nat>,
    output: Seq<nat>,
    reduced: Seq<bool>,
    keep: bool,
    a: int,
) -> bool {
    if !reduced[a] {
        output[output_axis(reduced, keep, a)] == input[a]
    } else {
        keep ==> output[a] == 1
    }
}

/// Keeping reduced axes was asked for.
pub open spec fn keeps(attr: ReduceMaxAttr) -> bool {
    attr.flags.0 & ReduceMaxAttr::KEEP_DIMS != 0
}

/// No axis is named, and that means that nothing is reduced.
pub open spec fn is_noop(attr: ReduceMaxAttr) -> bool {
    attr.axis_count.0 == 0 && attr.flags.0 & ReduceMaxAttr::NOOP_WITH_EMPTY_AXES != 0
}

/// What is wrong with a call of the reduction, where anything is.
pub open spec fn reduce_max_fault(ctx: CallContext) -> Option<BackendErr> {
    let input = ctx.inputs[0];
    let output = ctx.outputs[0];
    let rank = input.ndim.0 as int;
    if crate::backend::transform::io_fault(ctx, 1, 1) is Some {
        crate::backend::transform::io_fault(ctx, 1, 1)
    } else {
        match ctx.attr_as::<ReduceMaxAttr>() {
            None => Some(BackendErr::InvalidAttr),
            Some(attr) => if crate::backend::meta::view_fault(input) is Some {
                crate::backend::meta::view_fault(input)
            } else if crate::backend::meta::view_fault(output) is Some {
                crate::backend::meta::view_fault(output)
            } else if input.dtype.0 != AiDtype::F16 || output.dtype.0 != AiDtype::F16 {
                Some(BackendErr::UnsupportedDtype)
            } else if attr.axis_count.0 > rank {
                Some(BackendErr::InvalidAttr)
            } else if is_noop(attr) {
                if crate::backend::meta::view_dims(input) != crate::backend::meta::view_dims(
                    output,
                ) {
                    Some(BackendErr::InvalidTensor)
                } else {
                    None
                }
            } else if !axes_ok(attr, rank) {
                Some(BackendErr::InvalidAttr)
            } else if !output_fits(
                crate::backend::meta::view_dims(input),
                crate::backend::meta::view_dims(output),
                reduced_axes(attr, rank),
                keeps(attr),
            ) {
                Some(BackendErr::InvalidTensor)
            } else {
                None
            },
        }
    }
}

/// A checked reduction.
#[derive(Clone, Copy, Debug)]
pub struct ReducePlan {
    /// Shapes and axes.
    pub shape: ReduceShape,
    /// Nothing is reduced.
    pub identity: bool,
}

impl ReducePlan {
    /// The tensors are half-precision tensors of fitting shapes.
    pub open spec fn wf(self) -> bool {
        &&& crate::backend::float::halves(self.shape.input)
        &&& crate::backend::float::halves(self.shape.output)
        &&& if self.identity {
            self.shape.input.dims() == self.shape.output.dims()
        } else {
            self.shape.wf()
        }
    }

    /// The bytes of the tensors and the candidates can be counted.
    pub open spec fn possible(self) -> bool {
        &&& crate::backend::logical::countable(self.shape.input)
        &&& crate::backend::logical::countable(self.shape.output)
        &&& self.identity || self.shape.multiplies()
    }
}

/// Marks the axes that an attribute names.
fn mark_axes(attr: &ReduceMaxAttr, rank: usize) -> (r: Result<[bool; 8], BackendErr>)
    requires
        attr.axis_count.0 <= rank <= 8,
    ensures
        match r {
            Ok(reduced) => axes_ok(*attr, rank as int) && reduced@ == reduced_axes(
                *attr,
                rank as int,
            ),
            Err(err) => err == BackendErr::InvalidAttr && !axes_ok(*attr, rank as int),
        },
{
    let count: usize = attr.axis_count.0 as usize;
    let ghost k = rank as int;
    let all: bool = count == 0;
    let mut reduced: [bool; 8] = [false; 8];
    if all {
        reduced = [true; 8];
        assert(reduced@ =~= reduced_axes(*attr, k));
        return Ok(reduced);
    }
    let mut q: usize = 0;
    while q < count
        invariant
            q <= count <= rank <= 8,
            count == attr.axis_count.0,
            count > 0,
            k == rank,
            forall|p: int| 0 <= p < q ==> 0 <= #[trigger] named_axis(*attr, k, p) < k,
            forall|p: int, s: int|
                0 <= p < s < q ==> #[trigger] named_axis(*attr, k, p) != #[trigger] named_axis(
                    *attr,
                    k,
                    s,
                ),
            forall|a: int|
                0 <= a < 8 ==> (#[trigger] reduced[a] <==> names_axis(*attr, k, q as int, a)),
        decreases count - q,
    {
        match normalize_axis(attr.axes[q], rank) {
            Ok(axis) => {
                assert(named_axis(*attr, k, q as int) == axis);
                if reduced[axis] {
                    proof {
                        let p = choose|p: int|
                            0 <= p < q && #[trigger] named_axis(*attr, k, p) == axis;
                        assert(named_axis(*attr, k, p) == named_axis(*attr, k, q as int));
                    }
                    return Err(BackendErr::InvalidAttr);
                }
                assert(!names_axis(*attr, k, q as int, axis as int));
                let ghost before = reduced;
                reduced[axis] = true;
                proof {
                    assert forall|a: int| 0 <= a < 8 implies (#[trigger] reduced[a] <==> names_axis(
                        *attr,
                        k,
                        q + 1,
                        a,
                    )) by {
                        if a == axis {
                            assert(named_axis(*attr, k, q as int) == a);
                        } else {
                            assert(reduced[a] == before[a]);
                            if names_axis(*attr, k, q + 1, a) {
                                let p = choose|p: int|
                                    0 <= p < q + 1 && #[trigger] named_axis(*attr, k, p) == a;
                                assert(p < q);
                            }
                        }
                    }
                }
            },
            Err(_) => {
                assert(!(0 <= named_axis(*attr, k, q as int) < k));
                return Err(BackendErr::InvalidAttr);
            },
        }
        q = q + 1;
    }
    assert(reduced@ =~= reduced_axes(*attr, k));
    Ok(reduced)
}

/// Checks the shape of the output.
fn check_output(input: &TensorMeta, output: &TensorMeta, reduced: &[bool; 8], keep: bool) -> (r:
    Result<(), BackendErr>)
    requires
        input.rank <= 8,
        output.rank <= 8,
    ensures
        match r {
            Ok(_) => output_fits(input.dims(), output.dims(), reduced@, keep),
            Err(err) => err == BackendErr::InvalidTensor && !output_fits(
                input.dims(),
                output.dims(),
                reduced@,
                keep,
            ),
        },
{
    let ghost from = input.dims();
    let ghost to = output.dims();
    let mut kept: usize = 0;
    let mut a: usize = 0;
    while a < input.rank
        invariant
            a <= input.rank <= 8,
            kept == kept_before(reduced@, a as int),
            kept <= a,
        decreases input.rank - a,
    {
        if !reduced[a] {
            kept = kept + 1;
        }
        a = a + 1;
    }
    let expected: usize = if keep {
        input.rank
    } else {
        kept
    };
    if output.rank != expected {
        return Err(BackendErr::InvalidTensor);
    }
    let mut o: usize = 0;
    let mut a: usize = 0;
    while a < input.rank
        invariant
            a <= input.rank <= 8,
            output.rank <= 8,
            from == input.dims(),
            to == output.dims(),
            o == output_axis(reduced@, keep, a as int),
            o <= a,
            to.len() == output_axis(reduced@, keep, input.rank as int),
            forall|b: int| 0 <= b < a ==> #[trigger] axis_fits(from, to, reduced@, keep, b),
        decreases input.rank - a,
    {
        proof {
            kept_grows(reduced@, a + 1, input.rank as int);
            assert(from[a as int] == input.shape[a as int]);
        }
        if reduced[a] {
            if keep {
                assert(to[o as int] == output.shape[o as int]);
                if output.shape[o] != 1 {
                    assert(!axis_fits(from, to, reduced@, keep, a as int));
                    return Err(BackendErr::InvalidTensor);
                }
                o = o + 1;
            }
        } else {
            assert(to[o as int] == output.shape[o as int]);
            if output.shape[o] != input.shape[a] {
                assert(!axis_fits(from, to, reduced@, keep, a as int));
                return Err(BackendErr::InvalidTensor);
            }
            o = o + 1;
        }
        assert(axis_fits(from, to, reduced@, keep, a as int));
        a = a + 1;
    }
    Ok(())
}

proof fn kept_grows(reduced: Seq<bool>, a: int, b: int)
    requires
        0 <= a <= b,
    ensures
        kept_before(reduced, a) <= kept_before(reduced, b),
        kept_before(reduced, b) <= b,
    decreases b,
{
    if a < b {
        kept_grows(reduced, a, b - 1);
    } else if b > 0 {
        kept_grows(reduced, a - 1, b - 1);
    }
}

/// As many axes are kept as there are, only where none is reduced.
proof fn all_kept(reduced: Seq<bool>, rank: int, a: int)
    requires
        0 <= a <= rank,
        kept_before(reduced, rank) == rank,
    ensures
        kept_before(reduced, a) == a,
    decreases rank - a,
{
    if a < rank {
        all_kept(reduced, rank, a + 1);
        kept_grows(reduced, 0, a);
    }
}

/// A fitting output has the kept extents, whichever way its axes are counted.
proof fn fitting_shape(shape: ReduceShape, keep: bool)
    requires
        shape.input.wf(),
        shape.output.wf(),
        output_fits(shape.input.dims(), shape.output.dims(), shape.reduced@, keep),
    ensures
        shape.wf(),
{
    let reduced = shape.reduced@;
    let rank = shape.input.rank as int;
    let from = shape.input.dims();
    let to = shape.output.dims();
    assert forall|a: int| 0 <= a < rank && !(#[trigger] shape.reduced[a]) implies ({
        let o = output_axis(reduced, shape.keep(), a);
        o < shape.output.rank && shape.output.shape[o] == shape.input.shape[a]
    }) by {
        assert(axis_fits(from, to, reduced, keep, a));
        kept_grows(reduced, a + 1, rank);
        if !keep && shape.keep() {
            all_kept(reduced, rank, a);
        }
        let o = output_axis(reduced, shape.keep(), a);
        assert(to[o] == shape.output.shape[o]);
        assert(from[a] == shape.input.shape[a]);
    }
}

/// Checks a call of the reduction.
pub fn check_reduce_max(ctx: &CallContext) -> (r: Result<ReducePlan, BackendErr>)
    requires
        ctx.wf(),
    ensures
        match r {
            Ok(plan) => {
                let attr = ctx.attr_as::<ReduceMaxAttr>()->0;
                &&& reduce_max_fault(*ctx) is None
                &&& plan.wf()
                &&& crate::backend::call::checked(ctx.inputs[0], plan.shape.input)
                &&& crate::backend::call::checked(ctx.outputs[0], plan.shape.output)
                &&& plan.identity == is_noop(attr)
                &&& !plan.identity ==> plan.shape.reduced@ == reduced_axes(
                    attr,
                    plan.shape.input.rank as int,
                )
            },
            Err(err) => reduce_max_fault(*ctx) == Some(err),
        },
{
    ctx.expect_io(1, 1)?;
    ctx.reject_input_output_alias()?;
    let attr: ReduceMaxAttr = ctx.read_attr::<ReduceMaxAttr>()?;
    let input: TensorMeta = ctx.inputs[0].checked_meta()?;
    let output: TensorMeta = ctx.outputs[0].checked_meta()?;
    if ctx.inputs[0].dtype.0 != AiDtype::F16 || ctx.outputs[0].dtype.0 != AiDtype::F16 {
        return Err(BackendErr::UnsupportedDtype);
    }
    if attr.axis_count.0 as usize > input.rank {
        return Err(BackendErr::InvalidAttr);
    }
    if attr.axis_count.0 == 0 && attr.flags.0 & ReduceMaxAttr::NOOP_WITH_EMPTY_AXES != 0 {
        if !same_shape(&input, &output) {
            return Err(BackendErr::InvalidTensor);
        }
        let shape = ReduceShape { input, output, reduced: [false; 8] };
        return Ok(ReducePlan { shape, identity: true });
    }
    let reduced: [bool; 8] = mark_axes(&attr, input.rank)?;
    let keep: bool = attr.flags.0 & ReduceMaxAttr::KEEP_DIMS != 0;
    check_output(&input, &output, &reduced, keep)?;
    let shape = ReduceShape { input, output, reduced };
    proof {
        fitting_shape(shape, keep);
    }
    Ok(ReducePlan { shape, identity: false })
}

/// What running a reduction does: the input is widened, the maxima taken, and the output
/// narrowed. Tensors that cannot be counted are refused.
pub open spec fn reduce_max_outcome<
    W: Fn(u16) -> u32,
    M: Fn(&Vec<u32>) -> u32,
    N: Fn(u32) -> u16,
>(
    plan: ReducePlan,
    widen: W,
    maximum: M,
    narrow: N,
    raw: Seq<u8>,
    before: Seq<u8>,
    after: Seq<u8>,
    r: Result<(), BackendErr>,
) -> bool {
    match r {
        Ok(_) => plan.possible() && exists|wide: Seq<u32>, best: Seq<u32>|
            {
                &&& #[trigger] crate::backend::float::widened(
                    widen,
                    raw,
                    plan.shape.input,
                    wide,
                )
                &&& if plan.identity {
                    best == wide
                } else {
                    &&& best.len() == plan.shape.output.element_count
                    &&& forall|i: int|
                        0 <= i < best.len() ==> plan.shape.reduces(
                            wide,
                            maximum,
                            i as nat,
                            #[trigger] best[i],
                        )
                }
                &&& #[trigger] crate::backend::float::narrowed(
                    narrow,
                    best,
                    plan.shape.output,
                    before,
                    after,
                )
            },
        Err(err) => !plan.possible() && err == BackendErr::InvalidTensor && after == before,
    }
}

/// Reduces: `maximum` takes the largest of the elements that fall together.
pub fn run_reduce_max<W: Fn(u16) -> u32, M: Fn(&Vec<u32>) -> u32, N: Fn(u32) -> u16>(
    plan: &ReducePlan,
    raw: &[u8],
    output: &mut [u8],
    widen: &W,
    maximum: &M,
    narrow: &N,
) -> (r: Result<(), BackendErr>)
    requires
        plan.wf(),
        plan.shape.input.lies_in(raw@.len() as int / 2),
        plan.shape.output.lies_in(old(output)@.len() as int / 2),
        forall|h: u16| #[trigger] widen.requires((h,)),
        forall|values: &Vec<u32>| #[trigger] maximum.requires((values,)),
        forall|v: u32| #[trigger] narrow.requires((v,)),
    ensures
        reduce_max_outcome(
            *plan,
            *widen,
            *maximum,
            *narrow,
            raw@,
            old(output)@,
            final(output)@,
            r,
        ),
{
    let wide: Vec<u32> = read_float_tensor(raw, &plan.shape.input, widen)?;
    if plan.identity {
        assert(plan.shape.input.dims().len() == plan.shape.output.dims().len());
        return write_float_tensor(&wide, output, &plan.shape.output, narrow);
    }
    let best: Vec<u32> = reduce_max(&wide, &plan.shape, maximum)?;
    write_float_tensor(&best, output, &plan.shape.output, narrow)
}


/// Position of input coordinates among the candidates: the reduced axes in row-major order.
spec fn candidate_of(dims: Seq<nat>, reduced: Seq<bool>, coords: Seq<nat>, n: int) -> nat
    decreases n,
{
    if n <= 0 {
        0
    } else if reduced[n - 1] {
        candidate_of(dims, reduced, coords, n - 1) * dims[n - 1] + coords[n - 1]
    } else {
        candidate_of(dims, reduced, coords, n - 1)
    }
}

/// The position of coordinates among the candidates is one of them.
proof fn candidate_is_within(dims: Seq<nat>, reduced: Seq<bool>, coords: Seq<nat>, n: int)
    requires
        crate::backend::meta::coords_within(dims, coords),
        0 <= n <= dims.len(),
    ensures
        candidate_of(dims, reduced, coords, n) < reduced_product(dims, reduced, n),
    decreases n,
{
    if n > 0 {
        candidate_is_within(dims, reduced, coords, n - 1);
        if reduced[n - 1] {
            let (c, p) = (
                candidate_of(dims, reduced, coords, n - 1) as int,
                reduced_product(dims, reduced, n - 1) as int,
            );
            let (d, x) = (dims[n - 1] as int, coords[n - 1] as int);
            assert(x < d);
            assert(c * d + x < p * d) by (nonlinear_arith)
                requires
                    c < p,
                    0 <= x < d,
            ;
        }
    }
}

/// Dividing a candidate by what the reduced axes from `n` on hold leaves the candidate up to
/// there.
proof fn candidate_head(dims: Seq<nat>, reduced: Seq<bool>, coords: Seq<nat>, n: int)
    requires
        crate::backend::meta::coords_within(dims, coords),
        0 <= n <= dims.len(),
    ensures
        reduced_tail(dims, reduced, n) > 0,
        candidate_of(dims, reduced, coords, dims.len() as int) / reduced_tail(dims, reduced, n)
            == candidate_of(dims, reduced, coords, n),
    decreases dims.len() - n,
{
    if n < dims.len() {
        candidate_head(dims, reduced, coords, n + 1);
        if reduced[n] {
            let whole = candidate_of(dims, reduced, coords, dims.len() as int) as int;
            let tail = reduced_tail(dims, reduced, n + 1) as int;
            let (d, x) = (dims[n] as int, coords[n] as int);
            let front = candidate_of(dims, reduced, coords, n) as int;
            assert(x < d);
            assert(d * tail > 0) by (nonlinear_arith)
                requires
                    d > 0,
                    tail > 0,
            ;
            vstd::arithmetic::div_mod::lemma_div_denominator(whole, tail, d);
            assert(tail * d == d * tail) by (nonlinear_arith);
            assert((front * d + x) / d == front) by (nonlinear_arith)
                requires
                    0 <= x < d,
            ;
            assert(candidate_of(dims, reduced, coords, n + 1) == front * d + x);
            assert(reduced_tail(dims, reduced, n) == d * tail);
            assert(whole / (d * tail) == whole / tail / d);
        }
    } else {
        let whole = candidate_of(dims, reduced, coords, dims.len() as int);
        assert(whole / 1 == whole);
    }
}

/// Coordinates are those of the candidate at their position.
proof fn candidate_has_coords(
    dims: Seq<nat>,
    reduced: Seq<bool>,
    keep: bool,
    out: Seq<nat>,
    coords: Seq<nat>,
)
    requires
        crate::backend::meta::coords_within(dims, coords),
        forall|a: int|
            0 <= a < dims.len() && !reduced[a] ==> #[trigger] coords[a] == out[output_axis(
                reduced,
                keep,
                a,
            )],
    ensures
        candidate_coords(
            dims,
            reduced,
            keep,
            out,
            candidate_of(dims, reduced, coords, dims.len() as int),
        ) == coords,
{
    let k = candidate_of(dims, reduced, coords, dims.len() as int);
    let found = candidate_coords(dims, reduced, keep, out, k);
    assert forall|a: int| 0 <= a < dims.len() implies #[trigger] found[a] == coords[a] by {
        assert(coords[a] < dims[a]);
        if reduced[a] {
            candidate_head(dims, reduced, coords, a + 1);
            let (front, d, x) = (
                candidate_of(dims, reduced, coords, a) as int,
                dims[a] as int,
                coords[a] as int,
            );
            assert((front * d + x) % d == x) by (nonlinear_arith)
                requires
                    0 <= x < d,
                    front >= 0,
            ;
        }
    }
}

proof fn kept_is_count(reduced: Seq<bool>, a: int)
    ensures
        kept_before(reduced, a) == crate::backend::sums::sum_of(
            |b: int|
                if reduced[b] {
                    0int
                } else {
                    1int
                },
            a,
        ),
    decreases a,
{
    if a > 0 {
        kept_is_count(reduced, a - 1);
    }
}

/// The axis of the output that an axis of the input becomes: its own where reduced axes stay,
/// else the one after as many as are kept before it.
pub open spec fn stays_as(reduced: Seq<bool>, keep: bool, a: int) -> int {
    if keep {
        a
    } else {
        crate::backend::sums::sum_of(
            |b: int|
                if reduced[b] {
                    0int
                } else {
                    1int
                },
            a,
        )
    }
}

/// Coordinates of the input fall together at an element of the output: they agree along the
/// axes that are kept.
pub open spec fn falls_at(shape: ReduceShape, coords: Seq<nat>, out: Seq<nat>) -> bool {
    &&& crate::backend::meta::coords_within(shape.input.dims(), coords)
    &&& forall|a: int|
        0 <= a < shape.input.rank && !shape.reduced[a] ==> #[trigger] coords[a]
            == out[stays_as(shape.reduced@, shape.output.rank == shape.input.rank, a)]
}

/// The function gives the largest of its arguments: one of them, and none is above it.
pub open spec fn takes_largest<M: Fn(&Vec<u32>) -> u32>(
    maximum: M,
    height: spec_fn(u32) -> int,
) -> bool {
    forall|values: Vec<u32>, best: u32|
        values@.len() > 0 && #[trigger] maximum.ensures((&values,), best) ==> values@.contains(best)
            && forall|k: int| 0 <= k < values@.len() ==> height(#[trigger] values@[k]) <= height(best)
}

/// Reducing takes the largest: no element that falls together at an element of the output is
/// above it.
pub proof fn nothing_falls_above_the_maximum<M: Fn(&Vec<u32>) -> u32>(
    shape: ReduceShape,
    input: Seq<u32>,
    maximum: M,
    height: spec_fn(u32) -> int,
    value: u32,
    out: Seq<nat>,
    coords: Seq<nat>,
)
    requires
        shape.wf(),
        takes_largest(maximum, height),
        crate::backend::meta::coords_within(shape.output.dims(), out),
        shape.reduces(
            input,
            maximum,
            crate::backend::meta::linear_of(shape.output.dims(), out, shape.output.rank as int),
            value,
        ),
        falls_at(shape, coords, out),
    ensures
        height(
            input[crate::backend::meta::linear_of(
                shape.input.dims(),
                coords,
                shape.input.rank as int,
            ) as int],
        ) <= height(value),
{
    let i = crate::backend::meta::linear_of(shape.output.dims(), out, shape.output.rank as int);
    crate::backend::meta::coords_survive_linear(shape.output.dims(), out);
    let candidates = choose|candidates: Vec<u32>|
        {
            &&& candidates@.len() == shape.candidates()
            &&& forall|k: int|
                0 <= k < candidates@.len() ==> #[trigger] candidates@[k] == input[shape.candidate(
                    i,
                    k as nat,
                ) as int]
            &&& #[trigger] maximum.ensures((&candidates,), value)
        };
    let dims = shape.input.dims();
    let k = candidate_of(dims, shape.reduced@, coords, dims.len() as int);
    candidate_is_within(dims, shape.reduced@, coords, dims.len() as int);
    assert forall|a: int| 0 <= a < dims.len() && !shape.reduced@[a] implies #[trigger] coords[a]
        == out[output_axis(shape.reduced@, shape.keep(), a)] by {
        kept_is_count(shape.reduced@, a);
        assert(!shape.reduced[a]);
    }
    candidate_has_coords(dims, shape.reduced@, shape.keep(), out, coords);
    assert(candidates@[k as int] == input[shape.candidate(i, k) as int]);
}

/// Reducing takes one of the elements that fall together.
pub proof fn the_maximum_falls_there<M: Fn(&Vec<u32>) -> u32>(
    shape: ReduceShape,
    input: Seq<u32>,
    maximum: M,
    height: spec_fn(u32) -> int,
    value: u32,
    out: Seq<nat>,
) -> (coords: Seq<nat>)
    requires
        shape.wf(),
        takes_largest(maximum, height),
        shape.candidates() > 0,
        crate::backend::meta::coords_within(shape.output.dims(), out),
        shape.reduces(
            input,
            maximum,
            crate::backend::meta::linear_of(shape.output.dims(), out, shape.output.rank as int),
            value,
        ),
    ensures
        falls_at(shape, coords, out),
        input[crate::backend::meta::linear_of(
            shape.input.dims(),
            coords,
            shape.input.rank as int,
        ) as int] == value,
{
    let i = crate::backend::meta::linear_of(shape.output.dims(), out, shape.output.rank as int);
    crate::backend::meta::coords_survive_linear(shape.output.dims(), out);
    let candidates = choose|candidates: Vec<u32>|
        {
            &&& candidates@.len() == shape.candidates()
            &&& forall|k: int|
                0 <= k < candidates@.len() ==> #[trigger] candidates@[k] == input[shape.candidate(
                    i,
                    k as nat,
                ) as int]
            &&& #[trigger] maximum.ensures((&candidates,), value)
        };
    let k = choose|k: int| 0 <= k < candidates@.len() && candidates@[k] == value;
    let dims = shape.input.dims();
    let coords = candidate_coords(dims, shape.reduced@, shape.keep(), out, k as nat);
    assert forall|a: int| 0 <= a < dims.len() implies #[trigger] coords[a] < dims[a] by {
        if shape.reduced@[a] {
            extent_is_positive(dims, shape.reduced@, a);
        } else {
            let o = output_axis(shape.reduced@, shape.keep(), a);
            kept_grows(shape.reduced@, 0, a);
            assert(!shape.reduced[a]);
            assert(out[o] < shape.output.dims()[o]);
        }
    }
    assert forall|a: int| 0 <= a < shape.input.rank && !shape.reduced[a] implies #[trigger] coords[a]
        == out[stays_as(shape.reduced@, shape.output.rank == shape.input.rank, a)] by {
        kept_is_count(shape.reduced@, a);
    }
    coords
}

/// Where there are candidates, no reduced axis is empty.
proof fn extent_is_positive(dims: Seq<nat>, reduced: Seq<bool>, a: int)
    requires
        0 <= a < dims.len(),
        reduced[a],
        reduced_product(dims, reduced, dims.len() as int) > 0,
    ensures
        dims[a] > 0,
{
    reduced_split(dims, reduced, a);
    if dims[a] == 0 {
        let (p, t) = (reduced_product(dims, reduced, a), reduced_tail(dims, reduced, a + 1));
        assert(p * (0 * t) == 0) by (nonlinear_arith);
    }
}

/// A checked reduction reduces the axes that its attribute names, a negative number counting
/// from the back, or all axes where it names none.
pub proof fn reduction_takes_named_axes(ctx: CallContext, plan: ReducePlan, a: int)
    requires
        call_ensures(check_reduce_max, (&ctx,), Ok::<ReducePlan, BackendErr>(plan)),
        !plan.identity,
        0 <= a < plan.shape.input.rank,
    ensures
        ({
            let attr = ctx.attr_as::<ReduceMaxAttr>()->0;
            let rank = plan.shape.input.rank;
            plan.shape.reduced[a] <==> attr.axis_count.0 == 0 || exists|q: int|
                0 <= q < attr.axis_count.0 && (#[trigger] attr.axes[q]).0 == a || 0 <= q
                    < attr.axis_count.0 && attr.axes[q].0 == a - rank
        }),
{
    let attr = ctx.attr_as::<ReduceMaxAttr>()->0;
    let rank = plan.shape.input.rank as int;
    let n = attr.axis_count.0 as int;
    assert(plan.shape.reduced@[a] == reduces_axis(attr, rank, a));
    if exists|q: int|
        0 <= q < n && (#[trigger] attr.axes[q]).0 == a || 0 <= q < n && attr.axes[q].0 == a - rank {
        let q = choose|q: int|
            0 <= q < n && (#[trigger] attr.axes[q]).0 == a || 0 <= q < n && attr.axes[q].0 == a
                - rank;
        assert(named_axis(attr, rank, q) == a);
    }
    if names_axis(attr, rank, n, a) {
        let q = choose|q: int| 0 <= q < n && #[trigger] named_axis(attr, rank, q) == a;
        assert(attr.axes[q].0 == a || attr.axes[q].0 == a - rank);
    }
}


/// A reduction that names no axis and is told to do nothing then copies its input; any other
/// takes maxima.
pub proof fn reduction_copies_or_takes_maxima<
    W: Fn(u16) -> u32,
    M: Fn(&Vec<u32>) -> u32,
    N: Fn(u32) -> u16,
>(
    plan: ReducePlan,
    widen: W,
    maximum: M,
    narrow: N,
    raw: Seq<u8>,
    before: Seq<u8>,
    after: Seq<u8>,
    i: nat,
) -> (r: (Seq<u32>, Seq<u32>))
    requires
        reduce_max_outcome(plan, widen, maximum, narrow, raw, before, after, Ok(())),
        i < plan.shape.output.element_count,
    ensures
        crate::backend::float::widened(widen, raw, plan.shape.input, r.0),
        crate::backend::float::narrowed(narrow, r.1, plan.shape.output, before, after),
        plan.identity ==> r.1 == r.0,
        !plan.identity ==> plan.shape.reduces(r.0, maximum, i, r.1[i as int]),
{
    let (wide, best) = choose|wide: Seq<u32>, best: Seq<u32>|
        {
            &&& #[trigger] crate::backend::float::widened(widen, raw, plan.shape.input, wide)
            &&& if plan.identity {
                best == wide
            } else {
                &&& best.len() == plan.shape.output.element_count
                &&& forall|i: int|
                    0 <= i < best.len() ==> plan.shape.reduces(
                        wide,
                        maximum,
                        i as nat,
                        #[trigger] best[i],
                    )
            }
            &&& #[trigger] crate::backend::float::narrowed(
                narrow,
                best,
                plan.shape.output,
                before,
                after,
            )
        };
    assert(best[i as int] == best[i as int]);
    (wide, best)
}

/// A reduction does nothing where its attribute names no axis and says so, and keeps reduced
/// axes where it says so.
pub proof fn reduction_flags_are_bits(attr: ReduceMaxAttr)
    ensures
        is_noop(attr) == (attr.axis_count.0 == 0 && attr.flags.0 / 2 % 2 == 1),
        keeps(attr) == (attr.flags.0 % 2 == 1),
{
    let flags = attr.flags.0;
    assert((flags & 2 != 0) == (flags / 2 % 2 == 1)) by (bit_vector);
    assert((flags & 1 != 0) == (flags % 2 == 1)) by (bit_vector);
}

} // verus!
