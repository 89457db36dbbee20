//! Normalisation along one axis and rotary position encoding.
//!
//! Numbers are carried as single-precision bit patterns in row-major order. What happens
//! within a lane, the elements along one axis, is handed in by the caller.

use crate::backend::call::CallContext;
use crate::backend::float::{
    not_positive, or_default, read_float_tensor, write_float_tensor, ONE_BITS,
};
use crate::backend::gather::{read_indices, same_shape};
use crate::backend::meta::{normalize_axis, shape_product, TensorMeta};
use crate::uabi::desc::AiDtype;
use crate::uabi::error::BackendErr;
use crate::uabi::kernelattr::{RmsNormAttr, RopeAttr, SoftmaxAttr};
use vstd::prelude::*;

verus! {

/// Row-major position of element `a` of the lane with `o` before and `i` after the axis.
pub open spec fn lane_place(len: nat, inner: nat, o: nat, a: nat, i: nat) -> nat {
    (o * len + a) * inner + i
}

/// The elements of a lane.
pub open spec fn lane<T>(values: Seq<T>, len: nat, inner: nat, o: nat, i: nat) -> Seq<T> {
    Seq::new(len, |a: int| values[lane_place(len, inner, o, a as nat, i) as int])
}

/// One lane comes out when another goes in.
pub open spec fn maps_lane<P, F: Fn(Vec<u32>, &P) -> Vec<u32>>(
    f: F,
    parameter: P,
    before: Seq<u32>,
    after: Seq<u32>,
) -> bool {
    exists|v: Vec<u32>, w: Vec<u32>| #[trigger]
        f.ensures((v, &parameter), w) && v@ == before && w@ == after
}

/// Position `t` belongs to the lane with `o` before and `i` after the axis.
pub open spec fn in_lane(len: nat, inner: nat, t: nat, o: nat, i: nat) -> bool {
    t / inner / len == o && t % inner == i
}

/// Which element of its lane position `t` is.
pub open spec fn along(len: nat, inner: nat, t: nat) -> nat {
    t / inner % len
}

/// Positions of a lane belong to that lane alone.
pub proof fn lane_decodes(len: nat, inner: nat, outers: nat, o: nat, a: nat, i: nat)
    requires
        o < outers,
        a < len,
        i < inner,
    ensures
        lane_place(len, inner, o, a, i) < outers * len * inner,
        lane_place(len, inner, o, a, i) / inner / len == o,
        lane_place(len, inner, o, a, i) / inner % len == a,
        lane_place(len, inner, o, a, i) % inner == i,
{
    crate::shape::joined_below(o, outers, a, len);
    crate::shape::joined_below(o * len + a, outers * len, i, inner);
}

/// A position belongs to the lane that it decodes to.
pub proof fn lane_encodes(len: nat, inner: nat, outers: nat, t: nat)
    requires
        t < outers * len * inner,
    ensures
        inner > 0,
        len > 0,
        t / inner / len < outers,
        t / inner % len < len,
        t % inner < inner,
        lane_place(len, inner, t / inner / len, t / inner % len, t % inner) == t,
{
    crate::shape::split_below(t, outers * len, inner);
    crate::shape::split_below(t / inner, outers, len);
}

/// A function that keeps the length of a lane.
pub open spec fn keeps_length<P, F: Fn(Vec<u32>, &P) -> Vec<u32>>(f: F, parameter: P) -> bool {
    &&& forall|v: Vec<u32>| #[trigger] f.requires((v, &parameter))
    &&& forall|v: Vec<u32>, w: Vec<u32>| #[trigger]
        f.ensures((v, &parameter), w) ==> w@.len() == v@.len()
}

/// Replaces every lane by what `f` makes of it.
pub fn map_lanes<P, F: Fn(Vec<u32>, &P) -> Vec<u32>>(
    values: &[u32],
    outer: usize,
    len: usize,
    inner: usize,
    f: &F,
    parameter: &P,
) -> (r: Vec<u32>)
    requires
        values@.len() == outer as nat * len as nat * inner as nat,
        keeps_length(*f, *parameter),
    ensures
        r@.len() == values@.len(),
        forall|o: nat, i: nat|
            o < outer && i < inner ==> maps_lane(
                *f,
                *parameter,
                #[trigger] lane(values@, len as nat, inner as nat, o, i),
                lane(r@, len as nat, inner as nat, o, i),
            ),
{
    let total: usize = values.len();
    let mut output: Vec<u32> = vec![0u32; total];
    let mut o: usize = 0;
    while o < outer
        invariant
            o <= outer,
            total == values@.len(),
            total == outer as nat * len as nat * inner as nat,
            output@.len() == total,
            keeps_length(*f, *parameter),
            forall|p: nat, i: nat|
                p < o && i < inner ==> maps_lane(
                    *f,
                    *parameter,
                    #[trigger] lane(values@, len as nat, inner as nat, p, i),
                    lane(output@, len as nat, inner as nat, p, i),
                ),
        decreases outer - o,
    {
        let mut i: usize = 0;
        while i < inner
            invariant
                i <= inner,
                o < outer,
                total == values@.len(),
                total == outer as nat * len as nat * inner as nat,
                output@.len() == total,
                keeps_length(*f, *parameter),
                forall|p: nat, j: nat|
                    (p < o && j < inner) || (p == o && j < i) ==> maps_lane(
                        *f,
                        *parameter,
                        #[trigger] lane(values@, len as nat, inner as nat, p, j),
                        lane(output@, len as nat, inner as nat, p, j),
                    ),
            decreases inner - i,
        {
            let row: Vec<u32> = read_lane(values, outer, len, inner, o, i);
            let ghost before = output@;
            let ghost taken = row;
            let done: Vec<u32> = f(row, parameter);
            write_lane(&mut output, outer, len, inner, o, i, &done);
            proof {
                let l = len as nat;
                let n = inner as nat;
                assert(lane(output@, l, n, o as nat, i as nat) =~= done@) by {
                    assert forall|a: int| 0 <= a < l implies #[trigger] lane(
                        output@,
                        l,
                        n,
                        o as nat,
                        i as nat,
                    )[a] == done@[a] by {
                        lane_decodes(l, n, outer as nat, o as nat, a as nat, i as nat);
                    }
                }
                assert(maps_lane(
                    *f,
                    *parameter,
                    lane(values@, l, n, o as nat, i as nat),
                    lane(output@, l, n, o as nat, i as nat),
                ));
                assert forall|p: nat, j: nat|
                    (p < o && j < inner) || (p == o && j < i) implies maps_lane(
                    *f,
                    *parameter,
                    #[trigger] lane(values@, l, n, p, j),
                    lane(output@, l, n, p, j),
                ) by {
                    assert(lane(output@, l, n, p, j) =~= lane(before, l, n, p, j)) by {
                        assert forall|a: int| 0 <= a < l implies #[trigger] lane(
                            output@,
                            l,
                            n,
                            p,
                            j,
                        )[a] == lane(before, l, n, p, j)[a] by {
                            lane_decodes(l, n, outer as nat, p, a as nat, j);
                        }
                    }
                }
            }
            i = i + 1;
        }
        o = o + 1;
    }
    output
}

/// Reads a lane.
pub fn read_lane(values: &[u32], outer: usize, len: usize, inner: usize, o: usize, i: usize) -> (r:
    Vec<u32>)
    requires
        values@.len() == outer as nat * len as nat * inner as nat,
        o < outer,
        i < inner,
    ensures
        r@ == lane(values@, len as nat, inner as nat, o as nat, i as nat),
{
    let total: usize = values.len();
    let mut row: Vec<u32> = Vec::new();
    let mut a: usize = 0;
    while a < len
        invariant
            a <= len,
            o < outer,
            i < inner,
            total == values@.len(),
            total == outer as nat * len as nat * inner as nat,
            row@.len() == a,
            forall|b: int|
                0 <= b < a ==> #[trigger] row@[b] == lane(
                    values@,
                    len as nat,
                    inner as nat,
                    o as nat,
                    i as nat,
                )[b],
        decreases len - a,
    {
        let place: usize = lane_index(outer, len, inner, o, a, i, total);
        row.push(values[place]);
        a = a + 1;
    }
    assert(row@ =~= lane(values@, len as nat, inner as nat, o as nat, i as nat));
    row
}

/// Row-major position of an element of a lane.
pub fn lane_index(
    outer: usize,
    len: usize,
    inner: usize,
    o: usize,
    a: usize,
    i: usize,
    total: usize,
) -> (r: usize)
    requires
        total == outer as nat * len as nat * inner as nat,
        o < outer,
        a < len,
        i < inner,
    ensures
        r == lane_place(len as nat, inner as nat, o as nat, a as nat, i as nat),
        r < total,
{
    proof {
        lane_decodes(len as nat, inner as nat, outer as nat, o as nat, a as nat, i as nat);
        assert(0 <= o * len) by (nonlinear_arith)
            requires
                o >= 0,
                len >= 0,
        ;
        let line = o * len + a;
        assert(line <= line * inner) by (nonlinear_arith)
            requires
                line >= 0,
                inner >= 1,
        ;
    }
    (o * len + a) * inner + i
}

/// Writes a lane.
pub fn write_lane<T: Copy>(
    output: &mut Vec<T>,
    outer: usize,
    len: usize,
    inner: usize,
    o: usize,
    i: usize,
    row: &Vec<T>,
)
    requires
        old(output)@.len() == outer as nat * len as nat * inner as nat,
        o < outer,
        i < inner,
        row@.len() == len,
    ensures
        final(output)@.len() == old(output)@.len(),
        forall|t: int|
            0 <= t < final(output)@.len() ==> #[trigger] final(output)@[t] == (if in_lane(
                len as nat,
                inner as nat,
                t as nat,
                o as nat,
                i as nat,
            ) {
                row@[along(len as nat, inner as nat, t as nat) as int]
            } else {
                old(output)@[t]
            }),
{
    let total: usize = output.len();
    let ghost before = output@;
    let mut a: usize = 0;
    while a < len
        invariant
            a <= len,
            o < outer,
            i < inner,
            row@.len() == len,
            total == before.len(),
            total == outer as nat * len as nat * inner as nat,
            output@.len() == total,
            forall|t: int|
                0 <= t < total ==> #[trigger] output@[t] == (if in_lane(
                    len as nat,
                    inner as nat,
                    t as nat,
                    o as nat,
                    i as nat,
                ) && along(len as nat, inner as nat, t as nat) < a {
                    row@[along(len as nat, inner as nat, t as nat) as int]
                } else {
                    before[t]
                }),
        decreases len - a,
    {
        let place: usize = lane_index(outer, len, inner, o, a, i, total);
        let ghost now = output@;
        output.set(place, row[a]);
        proof {
            let l = len as nat;
            let n = inner as nat;
            lane_decodes(l, n, outer as nat, o as nat, a as nat, i as nat);
            assert forall|t: int| 0 <= t < total implies #[trigger] output@[t] == (if in_lane(
                l,
                n,
                t as nat,
                o as nat,
                i as nat,
            ) && along(l, n, t as nat) < a + 1 {
                row@[along(l, n, t as nat) as int]
            } else {
                before[t]
            }) by {
                lane_encodes(l, n, outer as nat, t as nat);
                if t != place {
                    assert(output@[t] == now[t]);
                }
            }
        }
        a = a + 1;
    }
    proof {
        assert forall|t: int| 0 <= t < total implies #[trigger] output@[t] == (if in_lane(
            len as nat,
            inner as nat,
            t as nat,
            o as nat,
            i as nat,
        ) {
            row@[along(len as nat, inner as nat, t as nat) as int]
        } else {
            before[t]
        }) by {
            lane_encodes(len as nat, inner as nat, outer as nat, t as nat);
        }
    }
}

/// Both tensors hold half-precision numbers and have the same shape.
pub open spec fn float_pair_fault(ctx: CallContext) -> Option<BackendErr> {
    let input = ctx.inputs[0];
    let output = ctx.outputs[0];
    if input.dtype.0 != AiDtype::F16 || output.dtype.0 != AiDtype::F16 {
        Some(BackendErr::UnsupportedDtype)
    } else if crate::backend::meta::view_dims(input) != crate::backend::meta::view_dims(output) {
        Some(BackendErr::InvalidTensor)
    } else {
        None
    }
}

fn check_float_pair(ctx: &CallContext, input: &TensorMeta, output: &TensorMeta) -> (r: Result<
    (),
    BackendErr,
>)
    requires
        ctx.inputs@.len() > 0,
        ctx.outputs@.len() > 0,
        crate::backend::call::checked(ctx.inputs[0], *input),
        crate::backend::call::checked(ctx.outputs[0], *output),
    ensures
        r == (match float_pair_fault(*ctx) {
            None => Ok::<(), BackendErr>(()),
            Some(err) => Err(err),
        }),
{
    if ctx.inputs[0].dtype.0 != AiDtype::F16 || ctx.outputs[0].dtype.0 != AiDtype::F16 {
        return Err(BackendErr::UnsupportedDtype);
    }
    if !same_shape(input, output) {
        return Err(BackendErr::InvalidTensor);
    }
    Ok(())
}

/// A checked softmax.
#[derive(Clone, Copy, Debug)]
pub struct SoftmaxPlan {
    /// The input.
    pub input: TensorMeta,
    /// The output.
    pub output: TensorMeta,
    /// The axis.
    pub axis: usize,
    /// Bits of the factor that the elements are multiplied with first.
    pub scale: u32,
}

impl SoftmaxPlan {
    /// Both tensors are half-precision tensors of the same shape.
    pub open spec fn wf(self) -> bool {
        &&& crate::backend::float::halves(self.input)
        &&& crate::backend::float::halves(self.output)
        &&& self.input.dims() == self.output.dims()
        &&& self.axis < self.input.rank
    }
}

/// What is wrong with a call of the softmax, where anything is.
pub open spec fn softmax_fault(ctx: CallContext) -> Option<BackendErr> {
    let input = ctx.inputs[0];
    let output = ctx.outputs[0];
    if crate::backend::transform::io_fault(ctx, 1, 1) is Some {
        crate::backend::transform::io_fault(ctx, 1, 1)
    } else {
        match ctx.attr_as::<SoftmaxAttr>() {
            None => Some(BackendErr::InvalidAttr),
            Some(attr) => if crate::backend::meta::view_fault(input) is Some {
                crate::backend::meta::view_fault(input)
            } else if crate::backend::meta::view_fault(output) is Some {
                crate::backend::meta::view_fault(output)
            } else if float_pair_fault(ctx) is Some {
                float_pair_fault(ctx)
            } else {
                crate::backend::gather::axis_fault(attr.axis, input.ndim.0 as int)
            },
        }
    }
}

/// Checks a call of the softmax. A scale of zero stands for one.
pub fn check_softmax(ctx: &CallContext) -> (r: Result<SoftmaxPlan, BackendErr>)
    requires
        ctx.wf(),
    ensures
        match r {
            Ok(plan) => {
                let attr = ctx.attr_as::<SoftmaxAttr>()->0;
                &&& softmax_fault(*ctx) is None
                &&& plan.wf()
                &&& crate::backend::call::checked(ctx.inputs[0], plan.input)
                &&& crate::backend::call::checked(ctx.outputs[0], plan.output)
                &&& plan.axis == crate::backend::meta::axis_of(attr.axis, plan.input.rank as int)
                &&& plan.scale == crate::backend::float::unless_zero(attr.scale.0, ONE_BITS)
            },
            Err(err) => softmax_fault(*ctx) == Some(err),
        },
{
    ctx.expect_io(1, 1)?;
    ctx.reject_input_output_alias()?;
    let attr: SoftmaxAttr = ctx.read_attr::<SoftmaxAttr>()?;
    let input: TensorMeta = ctx.inputs[0].checked_meta()?;
    let output: TensorMeta = ctx.outputs[0].checked_meta()?;
    check_float_pair(ctx, &input, &output)?;
    let axis: usize = normalize_axis(attr.axis, input.rank)?;
    let scale: u32 = or_default(attr.scale.0, ONE_BITS);
    Ok(SoftmaxPlan { input, output, axis, scale })
}

/// The elements of a tensor are the elements of its lanes.
pub proof fn lanes_cover(meta: TensorMeta, axis: int)
    requires
        meta.wf(),
        0 <= axis < meta.rank,
    ensures
        crate::shape::product(meta.dims(), 0, axis) * meta.shape[axis] as nat
            * crate::shape::product(meta.dims(), axis + 1, meta.rank as int) == meta.element_count,
        crate::backend::meta::multiplies(meta.dims(), 0, axis),
{
    let dims = meta.dims();
    crate::shape::product_split(dims, 0, axis + 1, meta.rank as int);
    assert(dims[axis] == meta.shape[axis]);
}

/// Applies `row` along the axis of a softmax.
pub fn softmax_lanes<R: Fn(Vec<u32>, &u32) -> Vec<u32>>(
    values: &[u32],
    meta: &TensorMeta,
    axis: usize,
    scale: u32,
    row: &R,
) -> (r: Result<Vec<u32>, BackendErr>)
    requires
        meta.wf(),
        axis < meta.rank,
        values@.len() == meta.element_count,
        keeps_length(*row, scale),
    ensures
        match r {
            Ok(output) => {
                &&& crate::backend::meta::multiplies(meta.dims(), axis + 1, meta.rank as int)
                &&& lanes_mapped(*row, scale, *meta, axis as int, values@, output@)
            },
            Err(err) => {
                &&& err == BackendErr::InvalidTensor
                &&& !crate::backend::meta::multiplies(meta.dims(), axis + 1, meta.rank as int)
            },
        },
{
    proof {
        lanes_cover(*meta, axis as int);
    }
    let outer: usize = shape_product(meta, 0, axis)?;
    let inner: usize = shape_product(meta, axis + 1, meta.rank)?;
    Ok(map_lanes(values, outer, meta.shape[axis], inner, row, &scale))
}

/// Every lane of a tensor along an axis was replaced by what `f` makes of it.
pub open spec fn lanes_mapped<P, F: Fn(Vec<u32>, &P) -> Vec<u32>>(
    f: F,
    parameter: P,
    meta: TensorMeta,
    axis: int,
    before: Seq<u32>,
    after: Seq<u32>,
) -> bool {
    let len = meta.shape[axis] as nat;
    let outer = crate::shape::product(meta.dims(), 0, axis);
    let inner = crate::shape::product(meta.dims(), axis + 1, meta.rank as int);
    &&& after.len() == before.len()
    &&& forall|o: nat, i: nat|
        o < outer && i < inner ==> maps_lane(
            f,
            parameter,
            #[trigger] lane(before, len, inner, o, i),
            lane(after, len, inner, o, i),
        )
}

/// What running a lane operator does: the input is widened, every lane replaced, and the
/// output narrowed; tensors whose bytes or lanes cannot be counted are refused.
pub open spec fn lane_outcome<
    W: Fn(u16) -> u32,
    P,
    F: Fn(Vec<u32>, &P) -> Vec<u32>,
    N: Fn(u32) -> u16,
>(
    input: TensorMeta,
    output: TensorMeta,
    axis: int,
    widen: W,
    f: F,
    parameter: P,
    narrow: N,
    raw: Seq<u8>,
    before: Seq<u8>,
    after: Seq<u8>,
    r: Result<(), BackendErr>,
) -> bool {
    let possible = crate::backend::logical::countable(input)
        && crate::backend::meta::multiplies(input.dims(), axis + 1, input.rank as int);
    match r {
        Ok(_) => possible && exists|wide: Seq<u32>, done: Seq<u32>|
            {
                &&& #[trigger] crate::backend::float::widened(widen, raw, input, wide)
                &&& lanes_mapped(f, parameter, input, axis, wide, done)
                &&& #[trigger] crate::backend::float::narrowed(
                    narrow,
                    done,
                    output,
                    before,
                    after,
                )
            },
        Err(err) => !possible && err == BackendErr::InvalidTensor && after == before,
    }
}

/// What running a softmax does: what a lane operator does along the axis of the plan, with
/// the scale of the plan.
pub open spec fn softmax_outcome<
    W: Fn(u16) -> u32,
    R: Fn(Vec<u32>, &u32) -> Vec<u32>,
    N: Fn(u32) -> u16,
>(
    plan: SoftmaxPlan,
    widen: W,
    row: R,
    narrow: N,
    raw: Seq<u8>,
    before: Seq<u8>,
    after: Seq<u8>,
    r: Result<(), BackendErr>,
) -> bool {
    lane_outcome(
        plan.input,
        plan.output,
        plan.axis as int,
        widen,
        row,
        plan.scale,
        narrow,
        raw,
        before,
        after,
        r,
    )
}

/// Softmax: `row` turns the elements along the axis, scaled, into shares of one.
pub fn run_softmax<W: Fn(u16) -> u32, R: Fn(Vec<u32>, &u32) -> Vec<u32>, N: Fn(u32) -> u16>(
    plan: &SoftmaxPlan,
    raw: &[u8],
    output: &mut [u8],
    widen: &W,
    row: &R,
    narrow: &N,
) -> (r: Result<(), BackendErr>)
    requires
        plan.wf(),
        plan.input.lies_in(raw@.len() as int / 2),
        plan.output.lies_in(old(output)@.len() as int / 2),
        forall|h: u16| #[trigger] widen.requires((h,)),
        keeps_length(*row, plan.scale),
        forall|v: u32| #[trigger] narrow.requires((v,)),
    ensures
        softmax_outcome(
            *plan,
            *widen,
            *row,
            *narrow,
            raw@,
            old(output)@,
            final(output)@,
            r,
        ),
{
    proof {
        assert(plan.input.dims().len() == plan.output.dims().len());
    }
    let wide: Vec<u32> = read_float_tensor(raw, &plan.input, widen)?;
    let done: Vec<u32> = softmax_lanes(&wide, &plan.input, plan.axis, plan.scale, row)?;
    write_float_tensor(&done, output, &plan.output, narrow)
}

/// What a row of a normalisation is computed with.
#[derive(Debug)]
pub struct RmsParameters {
    /// Bits of the weight of each element.
    pub weight: Vec<u32>,
    /// Bits of what is added under the root.
    pub epsilon: u32,
}

/// A checked normalisation.
#[derive(Clone, Copy, Debug)]
pub struct RmsNormPlan {
    /// The input.
    pub input: TensorMeta,
    /// The weights.
    pub weight: TensorMeta,
    /// The output.
    pub output: TensorMeta,
    /// Bits of what is added under the root.
    pub epsilon: u32,
}

impl RmsNormPlan {
    /// The tensors are half-precision tensors, input and output of the same shape, with a
    /// weight for each element of the last axis.
    pub open spec fn wf(self) -> bool {
        &&& crate::backend::float::halves(self.input)
        &&& crate::backend::float::halves(self.weight)
        &&& crate::backend::float::halves(self.output)
        &&& self.input.dims() == self.output.dims()
        &&& self.input.rank > 0
        &&& self.weight.element_count == self.input.shape[self.input.rank - 1]
    }
}

/// What is wrong with a call of the normalisation, where anything is.
pub open spec fn rms_norm_fault(ctx: CallContext) -> Option<BackendErr> {
    let input = ctx.inputs[0];
    let weight = ctx.inputs[1];
    let output = ctx.outputs[0];
    let rank = input.ndim.0 as int;
    if crate::backend::transform::io_fault(ctx, 2, 1) is Some {
        crate::backend::transform::io_fault(ctx, 2, 1)
    } else {
        match ctx.attr_as::<RmsNormAttr>() {
            None => Some(BackendErr::InvalidAttr),
            Some(attr) => if crate::backend::meta::view_fault(input) is Some {
                crate::backend::meta::view_fault(input)
            } else if crate::backend::meta::view_fault(weight) is Some {
                crate::backend::meta::view_fault(weight)
            } else if crate::backend::meta::view_fault(output) is Some {
                crate::backend::meta::view_fault(output)
            } else if float_pair_fault(ctx) is Some {
                float_pair_fault(ctx)
            } else if attr.hidden_size.0 == 0 || rank == 0 || input.shape[rank - 1]
                != attr.hidden_size || crate::backend::transform::element_total(weight)
                != attr.hidden_size.0 || weight.dtype != input.dtype
                || crate::backend::float::at_most_zero(attr.eps.0) {
                Some(BackendErr::InvalidAttr)
            } else {
                None
            },
        }
    }
}

/// Checks a call of the normalisation.
pub fn check_rms_norm(ctx: &CallContext) -> (r: Result<RmsNormPlan, BackendErr>)
    requires
        ctx.wf(),
    ensures
        match r {
            Ok(plan) => {
                &&& rms_norm_fault(*ctx) is None
                &&& plan.wf()
                &&& crate::backend::call::checked(ctx.inputs[0], plan.input)
                &&& crate::backend::call::checked(ctx.inputs[1], plan.weight)
                &&& crate::backend::call::checked(ctx.outputs[0], plan.output)
                &&& plan.epsilon == (ctx.attr_as::<RmsNormAttr>()->0).eps.0
            },
            Err(err) => rms_norm_fault(*ctx) == Some(err),
        },
{
    ctx.expect_io(2, 1)?;
    ctx.reject_input_output_alias()?;
    let attr: RmsNormAttr = ctx.read_attr::<RmsNormAttr>()?;
    let input: TensorMeta = ctx.inputs[0].checked_meta()?;
    let weight: TensorMeta = ctx.inputs[1].checked_meta()?;
    let output: TensorMeta = ctx.outputs[0].checked_meta()?;
    check_float_pair(ctx, &input, &output)?;
    let hidden: usize = attr.hidden_size.0 as usize;
    if hidden == 0 || input.rank == 0 || input.shape[input.rank - 1] != hidden
        || weight.element_count != hidden || ctx.inputs[1].dtype.0 != ctx.inputs[0].dtype.0
        || not_positive(attr.eps.0) {
        return Err(BackendErr::InvalidAttr);
    }
    Ok(RmsNormPlan { input, weight, output, epsilon: attr.eps.0 })
}

/// What running a normalisation does: input and weights are widened, every row along the
/// last axis replaced, and the output narrowed; tensors whose bytes cannot be counted are
/// refused.
pub open spec fn rms_norm_outcome<
    W: Fn(u16) -> u32,
    R: Fn(Vec<u32>, &RmsParameters) -> Vec<u32>,
    N: Fn(u32) -> u16,
>(
    plan: RmsNormPlan,
    widen: W,
    row: R,
    narrow: N,
    raw: Seq<u8>,
    raw_weight: Seq<u8>,
    before: Seq<u8>,
    after: Seq<u8>,
    r: Result<(), BackendErr>,
) -> bool {
    let possible = crate::backend::logical::countable(plan.input)
        && crate::backend::logical::countable(plan.weight);
    match r {
        Ok(_) => possible && exists|wide: Seq<u32>, parameters: RmsParameters, done: Seq<u32>|
            {
                &&& #[trigger] crate::backend::float::widened(widen, raw, plan.input, wide)
                &&& crate::backend::float::widened(
                    widen,
                    raw_weight,
                    plan.weight,
                    parameters.weight@,
                )
                &&& parameters.epsilon == plan.epsilon
                &&& #[trigger] lanes_mapped(
                    row,
                    parameters,
                    plan.input,
                    plan.input.rank - 1,
                    wide,
                    done,
                )
                &&& crate::backend::float::narrowed(narrow, done, plan.output, before, after)
            },
        Err(err) => !possible && err == BackendErr::InvalidTensor && after == before,
    }
}

/// Normalises rows: `row` divides the elements along the last axis by their root mean
/// square and multiplies them with their weights.
pub fn run_rms_norm<
    W: Fn(u16) -> u32,
    R: Fn(Vec<u32>, &RmsParameters) -> Vec<u32>,
    N: Fn(u32) -> u16,
>(
    plan: &RmsNormPlan,
    raw: &[u8],
    raw_weight: &[u8],
    output: &mut [u8],
    widen: &W,
    row: &R,
    narrow: &N,
) -> (r: Result<(), BackendErr>)
    requires
        plan.wf(),
        plan.input.lies_in(raw@.len() as int / 2),
        plan.weight.lies_in(raw_weight@.len() as int / 2),
        plan.output.lies_in(old(output)@.len() as int / 2),
        forall|h: u16| #[trigger] widen.requires((h,)),
        forall|parameters: RmsParameters| #[trigger] keeps_length(*row, parameters),
        forall|v: u32| #[trigger] narrow.requires((v,)),
    ensures
        rms_norm_outcome(
            *plan,
            *widen,
            *row,
            *narrow,
            raw@,
            raw_weight@,
            old(output)@,
            final(output)@,
            r,
        ),
{
    proof {
        assert(plan.input.dims().len() == plan.output.dims().len());
    }
    let wide: Vec<u32> = read_float_tensor(raw, &plan.input, widen)?;
    let weight: Vec<u32> = read_float_tensor(raw_weight, &plan.weight, widen)?;
    let parameters = RmsParameters { weight, epsilon: plan.epsilon };
    let done: Vec<u32> = rms_norm_rows(&wide, &plan.input, &parameters, row);
    write_float_tensor(&done, output, &plan.output, narrow)
}

/// Applies `row` along the last axis.
pub fn rms_norm_rows<R: Fn(Vec<u32>, &RmsParameters) -> Vec<u32>>(
    values: &[u32],
    meta: &TensorMeta,
    parameters: &RmsParameters,
    row: &R,
) -> (r: Vec<u32>)
    requires
        meta.wf(),
        meta.rank > 0,
        values@.len() == meta.element_count,
        keeps_length(*row, *parameters),
    ensures
        lanes_mapped(*row, *parameters, *meta, meta.rank - 1, values@, r@),
{
    let axis: usize = meta.rank - 1;
    proof {
        lanes_cover(*meta, axis as int);
        assert(crate::shape::product(meta.dims(), axis + 1, meta.rank as int) == 1);
    }
    let outer: usize = match shape_product(meta, 0, axis) {
        Ok(product) => product,
        Err(_) => 0,
    };
    map_lanes(values, outer, meta.shape[axis], 1, row, parameters)
}

/// Bits of the frequency base that stands for zero.
pub const ROPE_BASE_BITS: u32 = 0x461c_4000;

/// What the rotation of a pair depends on.
#[derive(Clone, Copy, PartialEq, Eq, Structural, Debug)]
pub struct RopeAngle {
    /// Position in the sequence.
    pub position: i64,
    /// Number of the pair.
    pub pair: usize,
    /// Elements that are rotated.
    pub n_dims: usize,
    /// Bits of the frequency base.
    pub base: u32,
    /// Bits of the factor on the angle.
    pub frequency_scale: u32,
    /// Bits of the factor on the result.
    pub attention_scale: u32,
}

/// Shape and parameters of a rotation.
#[derive(Clone, Copy, Debug)]
pub struct RopeGeom {
    /// Sequences.
    pub batch: usize,
    /// Positions of a sequence.
    pub sequence: usize,
    /// Heads of a position.
    pub heads: usize,
    /// Elements of a head.
    pub head_dim: usize,
    /// Elements of a head that are rotated.
    pub n_dims: usize,
    /// How elements are paired.
    pub mode: u32,
    /// Bits of the frequency base.
    pub base: u32,
    /// Bits of the factor on the angle.
    pub frequency_scale: u32,
    /// Bits of the factor on the result.
    pub attention_scale: u32,
}

impl RopeGeom {
    /// The rotated elements make pairs, and there are not more than there are elements.
    pub open spec fn wf(self) -> bool {
        self.n_dims <= self.head_dim && self.n_dims % 2 == 0
    }

    /// First element of a pair.
    pub open spec fn first(self, pair: int) -> int {
        if self.mode == RopeAttr::MODE_GPT_J {
            2 * pair
        } else {
            pair
        }
    }

    /// Second element of a pair.
    pub open spec fn second(self, pair: int) -> int {
        if self.mode == RopeAttr::MODE_GPT_J {
            2 * pair + 1
        } else {
            pair + self.n_dims as int / 2
        }
    }

    /// Number of heads over all positions and sequences.
    pub open spec fn rows(self) -> nat {
        self.batch as nat * self.sequence as nat * self.heads as nat
    }

    /// Positions are given for one sequence, or for every one.
    pub open spec fn positions_fit(self, positions: Option<Seq<i64>>) -> bool {
        positions matches Some(values) ==> values.len() == self.sequence || values.len()
            == self.batch as nat * self.sequence as nat
    }

    /// The position that a head belongs to: as given, or counted from zero.
    pub open spec fn position(self, positions: Option<Seq<i64>>, row: nat) -> i64 {
        let at = row / self.heads as nat;
        match positions {
            None => (at % self.sequence as nat) as i64,
            Some(values) => if values.len() == self.sequence {
                values[(at % self.sequence as nat) as int]
            } else {
                values[at as int]
            },
        }
    }

    /// What the rotation of a pair of a head depends on.
    pub open spec fn angle(self, positions: Option<Seq<i64>>, row: nat, pair: int) -> RopeAngle {
        RopeAngle {
            position: self.position(positions, row),
            pair: pair as usize,
            n_dims: self.n_dims,
            base: self.base,
            frequency_scale: self.frequency_scale,
            attention_scale: self.attention_scale,
        }
    }
}

/// The elements of a list that may be missing.
pub open spec fn listed(positions: Option<&Vec<i64>>) -> Option<Seq<i64>> {
    match positions {
        Some(values) => Some(values@),
        None => None,
    }
}

/// A pair of a head was rotated.
pub open spec fn pair_rotated<R: Fn(RopeAngle, u32, u32) -> (u32, u32)>(
    geom: RopeGeom,
    positions: Option<Seq<i64>>,
    rotate: R,
    before: Seq<u32>,
    after: Seq<u32>,
    row: nat,
    pair: int,
) -> bool {
    let start = row * geom.head_dim;
    rotate.ensures(
        (
            geom.angle(positions, row, pair),
            before[start + geom.first(pair)],
            before[start + geom.second(pair)],
        ),
        (after[start + geom.first(pair)], after[start + geom.second(pair)]),
    )
}

/// Element `d` of a head does not belong to a pair.
pub open spec fn outside(geom: RopeGeom, pair: int, d: int) -> bool {
    geom.first(pair) != d && geom.second(pair) != d
}

/// Element `d` of a head belongs to none of the first `n` pairs.
pub open spec fn unpaired(geom: RopeGeom, n: int, d: int) -> bool {
    forall|pair: int| 0 <= pair < n ==> #[trigger] outside(geom, pair, d)
}

/// Every pair of every head was rotated; the elements behind the pairs did not change.
pub open spec fn all_rotated<R: Fn(RopeAngle, u32, u32) -> (u32, u32)>(
    geom: RopeGeom,
    positions: Option<Seq<i64>>,
    rotate: R,
    before: Seq<u32>,
    after: Seq<u32>,
) -> bool {
    &&& after.len() == before.len()
    &&& forall|row: nat, pair: int|
        row < geom.rows() && 0 <= pair < geom.n_dims as int / 2 ==> #[trigger] pair_rotated(
            geom,
            positions,
            rotate,
            before,
            after,
            row,
            pair,
        )
    &&& forall|row: nat, d: int|
        row < geom.rows() && geom.n_dims <= d < geom.head_dim ==> #[trigger] after[row
            * geom.head_dim + d] == before[row * geom.head_dim + d]
}

/// Rotates the pairs of one head.
fn rotate_head<R: Fn(RopeAngle, u32, u32) -> (u32, u32)>(
    geom: &RopeGeom,
    position: i64,
    start: usize,
    output: &mut Vec<u32>,
    rotate: &R,
    Ghost(positions): Ghost<Option<Seq<i64>>>,
    Ghost(row): Ghost<nat>,
)
    requires
        geom.wf(),
        start == row * geom.head_dim,
        start + geom.head_dim <= old(output)@.len(),
        position == geom.position(positions, row),
        forall|angle: RopeAngle, x: u32, y: u32| #[trigger] rotate.requires((angle, x, y)),
    ensures
        final(output)@.len() == old(output)@.len(),
        forall|pair: int|
            0 <= pair < geom.n_dims as int / 2 ==> #[trigger] pair_rotated(
                *geom,
                positions,
                *rotate,
                old(output)@,
                final(output)@,
                row,
                pair,
            ),
        forall|t: int|
            0 <= t < final(output)@.len() && !(start <= t < start + geom.n_dims)
                ==> #[trigger] final(output)@[t] == old(output)@[t],
{
    let total: usize = output.len();
    let ghost before = output@;
    let half: usize = geom.n_dims / 2;
    let mut pair: usize = 0;
    while pair < half
        invariant
            pair <= half,
            half == geom.n_dims / 2,
            geom.wf(),
            start == row * geom.head_dim,
            start + geom.head_dim <= before.len(),
            before.len() <= usize::MAX,
            output@.len() == before.len(),
            position == geom.position(positions, row),
            forall|angle: RopeAngle, x: u32, y: u32| #[trigger] rotate.requires((angle, x, y)),
            forall|q: int|
                0 <= q < pair ==> #[trigger] pair_rotated(
                    *geom,
                    positions,
                    *rotate,
                    before,
                    output@,
                    row,
                    q,
                ),
            forall|t: int|
                0 <= t < output@.len() && unpaired(*geom, pair as int, t - start)
                    ==> #[trigger] output@[t] == before[t],
        decreases half - pair,
    {
        let first: usize = if geom.mode == RopeAttr::MODE_GPT_J {
            2 * pair
        } else {
            pair
        };
        let second: usize = if geom.mode == RopeAttr::MODE_GPT_J {
            2 * pair + 1
        } else {
            pair + half
        };
        let angle = RopeAngle {
            position,
            pair,
            n_dims: geom.n_dims,
            base: geom.base,
            frequency_scale: geom.frequency_scale,
            attention_scale: geom.attention_scale,
        };
        let ghost now = output@;
        let x: u32 = output[start + first];
        let y: u32 = output[start + second];
        let (turned_x, turned_y) = rotate(angle, x, y);
        output.set(start + first, turned_x);
        output.set(start + second, turned_y);
        proof {
            assert(first == geom.first(pair as int) && second == geom.second(pair as int));
            assert(unpaired(*geom, pair as int, first as int));
            assert(unpaired(*geom, pair as int, second as int));
            assert(now[start + first] == before[start + first]);
            assert(now[start + second] == before[start + second]);
            assert(pair_rotated(
                *geom,
                positions,
                *rotate,
                before,
                output@,
                row,
                pair as int,
            ));
            assert forall|q: int| 0 <= q < pair implies #[trigger] pair_rotated(
                *geom,
                positions,
                *rotate,
                before,
                output@,
                row,
                q,
            ) by {
                assert(pair_rotated(*geom, positions, *rotate, before, now, row, q));
                assert(geom.first(q) != first && geom.first(q) != second);
                assert(geom.second(q) != first && geom.second(q) != second);
            }
            assert forall|t: int|
                0 <= t < output@.len() && unpaired(*geom, pair + 1, t - start) implies
                #[trigger] output@[t] == before[t] by {
                assert(outside(*geom, pair as int, t - start));
                assert(unpaired(*geom, pair as int, t - start));
                assert(now[t] == before[t]);
            }
        }
        pair = pair + 1;
    }
    proof {
        assert forall|t: int|
            0 <= t < output@.len() && !(start <= t < start + geom.n_dims) implies
            #[trigger] output@[t] == before[t] by {
            assert(unpaired(*geom, half as int, t - start));
        }
    }
}

/// Rotates the pairs of every head.
pub fn rope_rows<R: Fn(RopeAngle, u32, u32) -> (u32, u32)>(
    values: &[u32],
    geom: &RopeGeom,
    positions: Option<&Vec<i64>>,
    rotate: &R,
) -> (r: Vec<u32>)
    requires
        geom.wf(),
        values@.len() == geom.rows() * geom.head_dim as nat,
        geom.positions_fit(listed(positions)),
        geom.batch as nat * geom.sequence as nat <= usize::MAX,
        geom.rows() <= usize::MAX,
        geom.sequence <= i64::MAX,
        forall|angle: RopeAngle, x: u32, y: u32| #[trigger] rotate.requires((angle, x, y)),
    ensures
        all_rotated(*geom, listed(positions), *rotate, values@, r@),
{
    let total: usize = values.len();
    let ghost places = listed(positions);
    let mut output: Vec<u32> = copy_values(values);
    let rows: usize = geom.batch * geom.sequence * geom.heads;
    let mut row: usize = 0;
    while row < rows
        invariant
            row <= rows,
            rows == geom.rows(),
            total == values@.len(),
            total == geom.rows() * geom.head_dim as nat,
            output@.len() == total,
            geom.wf(),
            places == listed(positions),
            geom.positions_fit(places),
            geom.sequence <= i64::MAX,
            forall|angle: RopeAngle, x: u32, y: u32| #[trigger] rotate.requires((angle, x, y)),
            forall|p: nat, pair: int|
                p < row && 0 <= pair < geom.n_dims as int / 2 ==> #[trigger] pair_rotated(
                    *geom,
                    places,
                    *rotate,
                    values@,
                    output@,
                    p,
                    pair,
                ),
            forall|p: nat, d: int|
                p < row && geom.n_dims <= d < geom.head_dim ==> #[trigger] output@[p
                    * geom.head_dim + d] == values@[p * geom.head_dim + d],
            forall|t: int|
                row * geom.head_dim <= t < total ==> #[trigger] output@[t] == values@[t],
        decreases rows - row,
    {
        proof {
            crate::shape::split_below(
                row as nat,
                geom.batch as nat * geom.sequence as nat,
                geom.heads as nat,
            );
            crate::shape::split_below(
                row as nat / geom.heads as nat,
                geom.batch as nat,
                geom.sequence as nat,
            );
            let h = geom.head_dim as int;
            assert((row + 1) * h == row * h + h) by (nonlinear_arith);
            assert((row + 1) * h <= rows * h) by (nonlinear_arith)
                requires
                    row + 1 <= rows,
                    h >= 0,
            ;
            assert(0 <= row * h) by (nonlinear_arith)
                requires
                    row >= 0,
                    h >= 0,
            ;
        }
        let at: usize = row / geom.heads;
        let position: i64 = match positions {
            None => (at % geom.sequence) as i64,
            Some(values) => if values.len() == geom.sequence {
                values[at % geom.sequence]
            } else {
                values[at]
            },
        };
        let start: usize = row * geom.head_dim;
        let ghost now = output@;
        rotate_head(geom, position, start, &mut output, rotate, Ghost(places), Ghost(row as nat));
        proof {
            let h = geom.head_dim as int;
            assert forall|p: nat, pair: int|
                p < row + 1 && 0 <= pair < geom.n_dims as int / 2 implies #[trigger] pair_rotated(
                *geom,
                places,
                *rotate,
                values@,
                output@,
                p,
                pair,
            ) by {
                let first = geom.first(pair);
                let second = geom.second(pair);
                if p == row {
                    assert(pair_rotated(*geom, places, *rotate, now, output@, p, pair));
                    assert(now[p * h + first] == values@[p * h + first]);
                    assert(now[p * h + second] == values@[p * h + second]);
                } else {
                    assert(pair_rotated(*geom, places, *rotate, values@, now, p, pair));
                    assert(p * h + h <= row * h) by (nonlinear_arith)
                        requires
                            p + 1 <= row,
                            h >= 0,
                    ;
                    assert(0 <= p * h) by (nonlinear_arith)
                        requires
                            p >= 0,
                            h >= 0,
                    ;
                    assert(output@[p * h + first] == now[p * h + first]);
                    assert(output@[p * h + second] == now[p * h + second]);
                }
            }
            assert forall|p: nat, d: int|
                p < row + 1 && geom.n_dims <= d < geom.head_dim implies #[trigger] output@[p
                * geom.head_dim + d] == values@[p * geom.head_dim + d] by {
                assert(0 <= p * h) by (nonlinear_arith)
                    requires
                        p >= 0,
                        h >= 0,
                ;
                if p < row {
                    assert(p * h + h <= row * h) by (nonlinear_arith)
                        requires
                            p + 1 <= row,
                            h >= 0,
                    ;
                }
                assert(output@[p * h + d] == now[p * h + d]);
            }
        }
        row = row + 1;
    }
    output
}

/// Copies a row of numbers.
fn copy_values(values: &[u32]) -> (r: Vec<u32>)
    ensures
        r@ == values@,
{
    let mut copy: Vec<u32> = Vec::new();
    let mut i: usize = 0;
    while i < values.len()
        invariant
            i <= values@.len(),
            copy@ == values@.subrange(0, i as int),
        decreases values@.len() - i,
    {
        copy.push(values[i]);
        assert(copy@ =~= values@.subrange(0, i + 1));
        i = i + 1;
    }
    assert(copy@ =~= values@);
    copy
}

/// A checked rotation.
#[derive(Clone, Copy, Debug)]
pub struct RopePlan {
    /// The input.
    pub input: TensorMeta,
    /// The positions, with their element type, where there are any.
    pub positions: Option<(TensorMeta, AiDtype)>,
    /// The output.
    pub output: TensorMeta,
    /// Shape and parameters.
    pub geom: RopeGeom,
}

impl RopePlan {
    /// The tensors are half-precision tensors of the same shape, and the positions fit.
    pub open spec fn wf(self) -> bool {
        &&& crate::backend::float::halves(self.input)
        &&& crate::backend::float::halves(self.output)
        &&& self.input.dims() == self.output.dims()
        &&& self.input.rank == 4
        &&& self.geom.wf()
        &&& self.geom.batch == self.input.shape[0]
        &&& self.geom.sequence == self.input.shape[1]
        &&& self.geom.heads == self.input.shape[2]
        &&& self.geom.head_dim == self.input.shape[3]
        &&& self.geom.sequence <= u32::MAX
        &&& match self.positions {
            Some((meta, dtype)) => {
                &&& crate::backend::gather::indexes(meta, dtype)
                &&& meta.element_count == self.geom.sequence || meta.element_count
                    == self.geom.batch as nat * self.geom.sequence as nat
            },
            None => true,
        }
    }

    /// The positions as given.
    pub open spec fn given(self, raw_positions: Seq<u8>) -> Option<Seq<i64>> {
        match self.positions {
            Some((meta, dtype)) => Some(
                Seq::new(
                    meta.element_count as nat,
                    |i: int|
                        crate::backend::gather::index_value(
                            raw_positions,
                            dtype,
                            meta.place(i as nat) as int,
                        ),
                ),
            ),
            None => None,
        }
    }
}

/// The attribute fits the shape of the input.
pub open spec fn rope_attr_ok(attr: RopeAttr, heads: nat, head_dim: nat) -> bool {
    &&& 0 < attr.n_dims.0 <= head_dim
    &&& attr.n_dims.0 % 2 == 0
    &&& attr.head_count.0 == 0 || attr.head_count.0 == heads
    &&& attr.mode == RopeAttr::MODE_GPT_J || attr.mode == RopeAttr::MODE_NEOX
}

/// What is wrong with the positions, where anything is.
pub open spec fn positions_fault(ctx: CallContext) -> Option<BackendErr> {
    let input = ctx.inputs[0];
    let positions = ctx.inputs[1];
    let count = crate::backend::transform::element_total(positions);
    if ctx.inputs@.len() == 1 {
        None
    } else if crate::backend::meta::view_fault(positions) is Some {
        crate::backend::meta::view_fault(positions)
    } else if crate::backend::gather::index_fault(positions) is Some {
        crate::backend::gather::index_fault(positions)
    } else if count != input.shape[1].0 && count != input.shape[0].0 as nat
        * input.shape[1].0 as nat {
        Some(BackendErr::InvalidTensor)
    } else {
        None
    }
}

/// What is wrong with a call of the rotation, where anything is.
pub open spec fn rope_fault(ctx: CallContext) -> Option<BackendErr> {
    let input = ctx.inputs[0];
    let output = ctx.outputs[0];
    if !(1 <= ctx.inputs@.len() <= 2) || ctx.outputs@.len() != 1 {
        Some(BackendErr::InvalidInput)
    } else if !crate::backend::call::no_overlap(ctx.inputs@, ctx.outputs@) {
        Some(BackendErr::InvalidTensor)
    } else {
        match ctx.attr_as::<RopeAttr>() {
            None => Some(BackendErr::InvalidAttr),
            Some(attr) => if crate::backend::meta::view_fault(input) is Some {
                crate::backend::meta::view_fault(input)
            } else if crate::backend::meta::view_fault(output) is Some {
                crate::backend::meta::view_fault(output)
            } else if float_pair_fault(ctx) is Some {
                float_pair_fault(ctx)
            } else if input.ndim.0 != 4 {
                Some(BackendErr::InvalidTensor)
            } else if !rope_attr_ok(attr, input.shape[2].0 as nat, input.shape[3].0 as nat) {
                Some(BackendErr::InvalidAttr)
            } else {
                positions_fault(ctx)
            },
        }
    }
}

/// Checks a call of the rotation. The shape is sequence, position, head, element;
/// parameters that are zero stand for their defaults.
pub fn check_rope(ctx: &CallContext) -> (r: Result<RopePlan, BackendErr>)
    requires
        ctx.wf(),
    ensures
        match r {
            Ok(plan) => {
                let attr = ctx.attr_as::<RopeAttr>()->0;
                &&& rope_fault(*ctx) is None
                &&& plan.wf()
                &&& crate::backend::call::checked(ctx.inputs[0], plan.input)
                &&& crate::backend::call::checked(ctx.outputs[0], plan.output)
                &&& match plan.positions {
                    Some((meta, dtype)) => ctx.inputs@.len() == 2 && dtype == ctx.inputs[1].dtype
                        && crate::backend::call::checked(ctx.inputs[1], meta),
                    None => ctx.inputs@.len() == 1,
                }
                &&& plan.geom.n_dims == attr.n_dims.0
                &&& plan.geom.mode == attr.mode
                &&& plan.geom.base == crate::backend::float::unless_zero(
                    attr.freq_base.0,
                    ROPE_BASE_BITS,
                )
                &&& plan.geom.frequency_scale == crate::backend::float::unless_zero(
                    attr.freq_scale.0,
                    ONE_BITS,
                )
                &&& plan.geom.attention_scale == crate::backend::float::unless_zero(
                    attr.attn_factor.0,
                    ONE_BITS,
                )
            },
            Err(err) => rope_fault(*ctx) == Some(err),
        },
{
    ctx.expect_io_range(1, 2, 1, 1)?;
    ctx.reject_input_output_alias()?;
    let attr: RopeAttr = ctx.read_attr::<RopeAttr>()?;
    let input: TensorMeta = ctx.inputs[0].checked_meta()?;
    let output: TensorMeta = ctx.outputs[0].checked_meta()?;
    check_float_pair(ctx, &input, &output)?;
    if input.rank != 4 {
        return Err(BackendErr::InvalidTensor);
    }
    assert(input.shape[0] == ctx.inputs[0].shape[0].0);
    assert(input.shape[1] == ctx.inputs[0].shape[1].0);
    assert(input.shape[2] == ctx.inputs[0].shape[2].0);
    assert(input.shape[3] == ctx.inputs[0].shape[3].0);
    let n_dims: usize = attr.n_dims.0 as usize;
    if n_dims == 0 || n_dims > input.shape[3] || n_dims % 2 != 0 || (attr.head_count.0 != 0
        && attr.head_count.0 as usize != input.shape[2]) || (attr.mode != RopeAttr::MODE_GPT_J
        && attr.mode != RopeAttr::MODE_NEOX) {
        return Err(BackendErr::InvalidAttr);
    }
    let ghost dims = input.dims();
    proof {
        let two = crate::shape::product(dims, 0, 2);
        assert(two <= usize::MAX);
        assert(two == crate::shape::product(dims, 0, 1) * dims[1]);
        assert(crate::shape::product(dims, 0, 1) == crate::shape::product(dims, 0, 0) * dims[0]);
        assert(1 * dims[0] == dims[0]) by (nonlinear_arith);
        assert(dims[0] == input.shape[0] && dims[1] == input.shape[1]);
    }
    let positions: Option<(TensorMeta, AiDtype)> = if ctx.inputs.len() == 2 {
        let meta: TensorMeta = ctx.inputs[1].checked_meta()?;
        crate::backend::gather::check_indices(&ctx.inputs[1])?;
        if meta.element_count != input.shape[1] && meta.element_count != input.shape[0]
            * input.shape[1] {
            return Err(BackendErr::InvalidTensor);
        }
        Some((meta, ctx.inputs[1].dtype))
    } else {
        None
    };
    let geom = RopeGeom {
        batch: input.shape[0],
        sequence: input.shape[1],
        heads: input.shape[2],
        head_dim: input.shape[3],
        n_dims,
        mode: attr.mode,
        base: or_default(attr.freq_base.0, ROPE_BASE_BITS),
        frequency_scale: or_default(attr.freq_scale.0, ONE_BITS),
        attention_scale: or_default(attr.attn_factor.0, ONE_BITS),
    };
    Ok(RopePlan { input, positions, output, geom })
}

/// What running a rotation does: the input is widened, every pair rotated, and the output
/// narrowed; tensors whose bytes cannot be counted are refused.
pub open spec fn rope_outcome<
    W: Fn(u16) -> u32,
    R: Fn(RopeAngle, u32, u32) -> (u32, u32),
    N: Fn(u32) -> u16,
>(
    plan: RopePlan,
    widen: W,
    rotate: R,
    narrow: N,
    raw: Seq<u8>,
    raw_positions: Seq<u8>,
    before: Seq<u8>,
    after: Seq<u8>,
    r: Result<(), BackendErr>,
) -> bool {
    match r {
        Ok(_) => crate::backend::logical::countable(plan.input) && exists|
            wide: Seq<u32>,
            done: Seq<u32>,
        |
            {
                &&& #[trigger] crate::backend::float::widened(widen, raw, plan.input, wide)
                &&& all_rotated(plan.geom, plan.given(raw_positions), rotate, wide, done)
                &&& #[trigger] crate::backend::float::narrowed(
                    narrow,
                    done,
                    plan.output,
                    before,
                    after,
                )
            },
        Err(err) => {
            &&& !crate::backend::logical::countable(plan.input)
            &&& err == BackendErr::InvalidTensor
            &&& after == before
        },
    }
}

/// Rotates: `rotate` turns the pairs of each head by an angle that grows with the position.
pub fn run_rope<
    W: Fn(u16) -> u32,
    R: Fn(RopeAngle, u32, u32) -> (u32, u32),
    N: Fn(u32) -> u16,
>(
    plan: &RopePlan,
    raw: &[u8],
    raw_positions: &[u8],
    output: &mut [u8],
    widen: &W,
    rotate: &R,
    narrow: &N,
) -> (r: Result<(), BackendErr>)
    requires
        plan.wf(),
        plan.input.lies_in(raw@.len() as int / 2),
        plan.positions matches Some((meta, dtype)) ==> meta.lies_in(
            raw_positions@.len() as int / (meta.element_size as int),
        ),
        plan.output.lies_in(old(output)@.len() as int / 2),
        forall|h: u16| #[trigger] widen.requires((h,)),
        forall|angle: RopeAngle, x: u32, y: u32| #[trigger] rotate.requires((angle, x, y)),
        forall|v: u32| #[trigger] narrow.requires((v,)),
    ensures
        rope_outcome(
            *plan,
            *widen,
            *rotate,
            *narrow,
            raw@,
            raw_positions@,
            old(output)@,
            final(output)@,
            r,
        ),
{
    proof {
        assert(plan.input.dims().len() == plan.output.dims().len());
        let dims = plan.input.dims();
        let geom = plan.geom;
        assert(dims[0] == geom.batch && dims[1] == geom.sequence);
        assert(dims[2] == geom.heads && dims[3] == geom.head_dim);
        let one = crate::shape::product(dims, 0, 1);
        let two = crate::shape::product(dims, 0, 2);
        let three = crate::shape::product(dims, 0, 3);
        assert(one == crate::shape::product(dims, 0, 0) * dims[0]);
        assert(1 * dims[0] == dims[0]) by (nonlinear_arith);
        assert(two == one * dims[1]);
        assert(three == two * dims[2]);
        assert(two <= usize::MAX && three <= usize::MAX);
        assert(plan.input.element_count == three * dims[3]);
    }
    let wide: Vec<u32> = read_float_tensor(raw, &plan.input, widen)?;
    let done: Vec<u32> = match &plan.positions {
        Some((meta, dtype)) => {
            let positions: Vec<i64> = read_indices(raw_positions, *dtype, meta);
            assert(Some(positions@) =~= plan.given(raw_positions@)) by {
                assert(positions@ =~= plan.given(raw_positions@)->0);
            }
            rope_rows(&wide, &plan.geom, Some(&positions), rotate)
        },
        None => rope_rows(&wide, &plan.geom, None, rotate),
    };
    write_float_tensor(&done, output, &plan.output, narrow)
}

/// The heads of token `s` of a sequence lie one after the other, and each is rotated by the
/// position of that token: the given one, or `s` itself where none are given. The elements
/// of a pair are neighbours, or half the rotated elements apart.
pub proof fn head_turns_with_its_token<R: Fn(RopeAngle, u32, u32) -> (u32, u32)>(
    geom: RopeGeom,
    positions: Option<Seq<i64>>,
    rotate: R,
    before: Seq<u32>,
    after: Seq<u32>,
    b: nat,
    s: nat,
    h: nat,
    pair: int,
)
    requires
        geom.wf(),
        all_rotated(geom, positions, rotate, before, after),
        b < geom.batch,
        s < geom.sequence,
        h < geom.heads,
        0 <= pair,
        2 * pair < geom.n_dims,
    ensures
        ({
            let token = b * geom.sequence as nat + s;
            let at = (token * geom.heads as nat + h) * geom.head_dim as nat;
            let (i, j) = if geom.mode == RopeAttr::MODE_GPT_J {
                (2 * pair, 2 * pair + 1)
            } else {
                (pair, pair + geom.n_dims as int / 2)
            };
            let position = match positions {
                None => s as i64,
                Some(values) if values.len() == geom.sequence => values[s as int],
                Some(values) => values[token as int],
            };
            rotate.ensures(
                (
                    RopeAngle {
                        position,
                        pair: pair as usize,
                        n_dims: geom.n_dims,
                        base: geom.base,
                        frequency_scale: geom.frequency_scale,
                        attention_scale: geom.attention_scale,
                    },
                    before[at + i],
                    before[at + j],
                ),
                (after[at + i], after[at + j]),
            )
        }),
{
    let token = b * geom.sequence as nat + s;
    let row = token * geom.heads as nat + h;
    let tokens = geom.batch as nat * geom.sequence as nat;
    crate::shape::joined_below(b, geom.batch as nat, s, geom.sequence as nat);
    crate::shape::joined_below(token, tokens, h, geom.heads as nat);
    assert(pair_rotated(geom, positions, rotate, before, after, row, pair));
}

/// Two heads of one token that go in alike come out alike, whichever heads they are.
pub proof fn heads_of_a_token_turn_alike<R: Fn(RopeAngle, u32, u32) -> (u32, u32)>(
    geom: RopeGeom,
    positions: Option<Seq<i64>>,
    rotate: R,
    before: Seq<u32>,
    after: Seq<u32>,
    b: nat,
    s: nat,
    h: nat,
    other: nat,
    d: int,
)
    requires
        geom.wf(),
        all_rotated(geom, positions, rotate, before, after),
        forall|angle: RopeAngle, x: u32, y: u32, one: (u32, u32), two: (u32, u32)|
            #[trigger] rotate.ensures((angle, x, y), one) && #[trigger] rotate.ensures(
                (angle, x, y),
                two,
            ) ==> one == two,
        b < geom.batch,
        s < geom.sequence,
        h < geom.heads,
        other < geom.heads,
        0 <= d < geom.head_dim,
        ({
            let token = b * geom.sequence as nat + s;
            let at = (token * geom.heads as nat + h) * geom.head_dim as nat;
            let to = (token * geom.heads as nat + other) * geom.head_dim as nat;
            before.subrange(at as int, at + geom.head_dim) == before.subrange(
                to as int,
                to + geom.head_dim,
            ) && at + geom.head_dim <= before.len() && to + geom.head_dim <= before.len()
        }),
    ensures
        ({
            let token = b * geom.sequence as nat + s;
            let at = (token * geom.heads as nat + h) * geom.head_dim as nat;
            let to = (token * geom.heads as nat + other) * geom.head_dim as nat;
            after[at + d] == after[to + d]
        }),
{
    let token = b * geom.sequence as nat + s;
    let tokens = geom.batch as nat * geom.sequence as nat;
    let row = token * geom.heads as nat + h;
    let row2 = token * geom.heads as nat + other;
    let at = row * geom.head_dim as nat;
    let to = row2 * geom.head_dim as nat;
    crate::shape::joined_below(b, geom.batch as nat, s, geom.sequence as nat);
    crate::shape::joined_below(token, tokens, h, geom.heads as nat);
    crate::shape::joined_below(token, tokens, other, geom.heads as nat);
    let one = before.subrange(at as int, at + geom.head_dim);
    let two = before.subrange(to as int, to + geom.head_dim);
    let half = geom.n_dims as int / 2;
    if d < geom.n_dims {
        let pair = if geom.mode == RopeAttr::MODE_GPT_J {
            d / 2
        } else if d < half {
            d
        } else {
            d - half
        };
        let (i, j) = if geom.mode == RopeAttr::MODE_GPT_J {
            (2 * pair, 2 * pair + 1)
        } else {
            (pair, pair + half)
        };
        head_turns_with_its_token(geom, positions, rotate, before, after, b, s, h, pair);
        head_turns_with_its_token(geom, positions, rotate, before, after, b, s, other, pair);
        assert(one[i] == two[i] && one[j] == two[j]);
        assert(before[at + i] == before[to + i] && before[at + j] == before[to + j]);
        assert(d == i || d == j);
    } else {
        assert(one[d] == two[d]);
        assert(after[row * geom.head_dim + d] == before[row * geom.head_dim + d]);
        assert(after[row2 * geom.head_dim + d] == before[row2 * geom.head_dim + d]);
    }
}

/// Positions that count from zero turn the heads as no positions do, and positions that are
/// repeated for every sequence as those of one sequence.
pub proof fn repeated_positions_change_nothing<R: Fn(RopeAngle, u32, u32) -> (u32, u32)>(
    geom: RopeGeom,
    values: Seq<i64>,
    rotate: R,
    before: Seq<u32>,
    after: Seq<u32>,
)
    requires
        geom.wf(),
        values.len() == geom.sequence,
    ensures
        (forall|s: int| 0 <= s < geom.sequence ==> #[trigger] values[s] == s as i64) ==> (
        all_rotated(geom, Some(values), rotate, before, after) <==> all_rotated(
            geom,
            None,
            rotate,
            before,
            after,
        )),
        all_rotated(geom, Some(values), rotate, before, after) <==> all_rotated(
            geom,
            Some(
                Seq::new(
                    geom.batch as nat * geom.sequence as nat,
                    |i: int| values[i % (geom.sequence as int)],
                ),
            ),
            rotate,
            before,
            after,
        ),
{
    let repeated = Seq::new(
        geom.batch as nat * geom.sequence as nat,
        |i: int| values[i % (geom.sequence as int)],
    );
    let counted = forall|s: int| 0 <= s < geom.sequence ==> #[trigger] values[s] == s as i64;
    assert forall|row: nat| row < geom.rows() implies #[trigger] geom.position(
        Some(values),
        row,
    ) == geom.position(Some(repeated), row) && (counted ==> geom.position(Some(values), row)
        == geom.position(None, row)) by {
        crate::shape::split_below(
            row,
            geom.batch as nat * geom.sequence as nat,
            geom.heads as nat,
        );
        let token = row / geom.heads as nat;
        crate::shape::split_below(token, geom.batch as nat, geom.sequence as nat);
        if repeated.len() == geom.sequence {
            vstd::arithmetic::div_mod::lemma_mod_twice(token as int, geom.sequence as int);
        }
    }
    assert forall|row: nat, pair: int| row < geom.rows() implies #[trigger] pair_rotated(
        geom,
        Some(values),
        rotate,
        before,
        after,
        row,
        pair,
    ) == pair_rotated(geom, Some(repeated), rotate, before, after, row, pair) && (counted
        ==> pair_rotated(geom, Some(values), rotate, before, after, row, pair) == pair_rotated(
        geom,
        None,
        rotate,
        before,
        after,
        row,
        pair,
    )) by {
        assert(geom.position(Some(values), row) == geom.position(Some(repeated), row));
    }
    rotations_agree(geom, Some(values), Some(repeated), rotate, before, after);
    if counted {
        rotations_agree(geom, Some(values), None, rotate, before, after);
    }
}

/// Positions under which every pair turns alike give the same rotations.
proof fn rotations_agree<R: Fn(RopeAngle, u32, u32) -> (u32, u32)>(
    geom: RopeGeom,
    one: Option<Seq<i64>>,
    two: Option<Seq<i64>>,
    rotate: R,
    before: Seq<u32>,
    after: Seq<u32>,
)
    requires
        forall|row: nat, pair: int|
            row < geom.rows() ==> #[trigger] pair_rotated(
                geom,
                one,
                rotate,
                before,
                after,
                row,
                pair,
            ) == pair_rotated(geom, two, rotate, before, after, row, pair),
    ensures
        all_rotated(geom, one, rotate, before, after) <==> all_rotated(
            geom,
            two,
            rotate,
            before,
            after,
        ),
{
    if all_rotated(geom, one, rotate, before, after) {
        assert forall|row: nat, pair: int|
            row < geom.rows() && 0 <= pair < geom.n_dims as int / 2 implies #[trigger] pair_rotated(
            geom,
            two,
            rotate,
            before,
            after,
            row,
            pair,
        ) by {
            assert(pair_rotated(geom, one, rotate, before, after, row, pair));
        }
    }
    if all_rotated(geom, two, rotate, before, after) {
        assert forall|row: nat, pair: int|
            row < geom.rows() && 0 <= pair < geom.n_dims as int / 2 implies #[trigger] pair_rotated(
            geom,
            one,
            rotate,
            before,
            after,
            row,
            pair,
        ) by {
            assert(pair_rotated(geom, one, rotate, before, after, row, pair) == pair_rotated(
                geom,
                two,
                rotate,
                before,
                after,
                row,
                pair,
            ));
        }
    }
}


/// The lane through an element runs along the axis: its elements are those whose coordinates
/// differ along the axis alone.
pub proof fn lane_by_coords<T>(
    values: Seq<T>,
    dims: Seq<nat>,
    axis: int,
    coords: Seq<nat>,
) -> (r: (nat, nat))
    requires
        0 <= axis < dims.len(),
        crate::backend::meta::coords_within(dims, coords),
    ensures
        ({
            let outer = crate::shape::product(dims, 0, axis);
            let inner = crate::shape::product(dims, axis + 1, dims.len() as int);
            let through = lane(values, dims[axis], inner, r.0, r.1);
            &&& r.0 < outer
            &&& r.1 < inner
            &&& r.0 == crate::backend::meta::linear_of(dims, coords, axis)
            &&& r.1 == crate::backend::meta::linear_of(
                dims.skip(axis + 1),
                coords.skip(axis + 1),
                dims.len() - axis - 1,
            )
            &&& through.len() == dims[axis]
            &&& forall|a: nat|
                a < dims[axis] ==> #[trigger] through[a as int]
                    == values[crate::backend::meta::linear_of(
                    dims,
                    coords.update(axis, a),
                    dims.len() as int,
                ) as int]
        }),
{
    let rank = dims.len() as int;
    let inner = crate::shape::product(dims, axis + 1, rank);
    crate::backend::meta::linear_is_within(dims, coords, axis);
    crate::backend::meta::position_splits(dims, coords, axis + 1, rank);
    let o = crate::backend::meta::linear_of(dims, coords, axis);
    let i = crate::backend::meta::linear_of(
        dims.skip(axis + 1),
        coords.skip(axis + 1),
        rank - axis - 1,
    );
    let through = lane(values, dims[axis], inner, o, i);
    assert forall|a: nat| a < dims[axis] implies #[trigger] through[a as int]
        == values[crate::backend::meta::linear_of(dims, coords.update(axis, a), rank) as int] by {
        let moved = coords.update(axis, a);
        assert forall|b: int| 0 <= b < dims.len() implies #[trigger] moved[b] < dims[b] by {
            assert(coords[b] < dims[b]);
        }
        crate::backend::meta::position_splits(dims, moved, axis + 1, rank);
        crate::backend::meta::position_is_local(dims, dims, moved, coords, axis);
        assert(moved.skip(axis + 1) =~= coords.skip(axis + 1));
    }
    (o, i)
}

/// The row holds what stands at the coordinates that differ along the axis alone, in order.
pub open spec fn stands_along(
    row: Seq<u32>,
    values: Seq<u32>,
    dims: Seq<nat>,
    axis: int,
    coords: Seq<nat>,
) -> bool {
    &&& row.len() == dims[axis]
    &&& forall|a: nat|
        a < dims[axis] ==> #[trigger] row[a as int] == values[crate::backend::meta::linear_of(
            dims,
            coords.update(axis, a),
            dims.len() as int,
        ) as int]
}

/// An operator along an axis works on whole lanes: what stands at the coordinates that differ
/// along the axis alone goes in together, in order, and what comes out stands at the same
/// coordinates.
pub proof fn lanes_run_along_the_axis<P, F: Fn(Vec<u32>, &P) -> Vec<u32>>(
    f: F,
    parameter: P,
    meta: TensorMeta,
    axis: int,
    before: Seq<u32>,
    after: Seq<u32>,
    coords: Seq<nat>,
) -> (r: (Vec<u32>, Vec<u32>))
    requires
        lanes_mapped(f, parameter, meta, axis, before, after),
        0 <= axis < meta.rank <= 8,
        crate::backend::meta::coords_within(meta.dims(), coords),
    ensures
        f.ensures((r.0, &parameter), r.1),
        stands_along(r.0@, before, meta.dims(), axis, coords),
        stands_along(r.1@, after, meta.dims(), axis, coords),
{
    let dims = meta.dims();
    let inner = crate::shape::product(dims, axis + 1, meta.rank as int);
    let (o, i) = lane_by_coords(before, dims, axis, coords);
    let same = lane_by_coords(after, dims, axis, coords);
    let into = lane(before, dims[axis], inner, o, i);
    let out_of = lane(after, dims[axis], inner, o, i);
    assert(maps_lane(f, parameter, into, out_of));
    let (v, w) = choose|v: Vec<u32>, w: Vec<u32>| #[trigger]
        f.ensures((v, &parameter), w) && v@ == into && w@ == out_of;
    (v, w)
}

/// A softmax runs along the axis that its attribute names, a negative number counting from
/// the back, with the scale of the attribute; a scale of zero stands for one.
pub proof fn softmax_follows_its_attribute(ctx: CallContext, plan: SoftmaxPlan)
    requires
        call_ensures(check_softmax, (&ctx,), Ok::<SoftmaxPlan, BackendErr>(plan)),
    ensures
        ({
            let attr = ctx.attr_as::<SoftmaxAttr>()->0;
            &&& plan.axis == attr.axis.0 || plan.axis == attr.axis.0 + plan.input.rank
            &&& plan.axis < plan.input.rank
            &&& attr.scale.0 != 0 && attr.scale.0 != 0x8000_0000 ==> plan.scale == attr.scale.0
            &&& attr.scale.0 == 0 || attr.scale.0 == 0x8000_0000 ==> plan.scale == 0x3f80_0000
        }),
{
    crate::backend::float::zero_has_two_signs(ctx.attr_as::<SoftmaxAttr>()->0.scale.0);
}


/// A checked rotation follows its attribute: as many elements are turned as it says, in its
/// pairing, with its base and scales, zeros standing for ten thousand and for one. The axes
/// are sequences, tokens, heads and elements, in this order.
pub proof fn rotation_follows_its_attribute(ctx: CallContext, plan: RopePlan)
    requires
        call_ensures(check_rope, (&ctx,), Ok::<RopePlan, BackendErr>(plan)),
    ensures
        ({
            let attr = ctx.attr_as::<RopeAttr>()->0;
            let shape = plan.input.shape;
            let plain = |bits: u32| bits != 0 && bits != 0x8000_0000;
            &&& plan.geom.n_dims == attr.n_dims.0
            &&& plan.geom.mode == attr.mode
            &&& plan.geom.batch == shape[0] && plan.geom.sequence == shape[1]
            &&& plan.geom.heads == shape[2] && plan.geom.head_dim == shape[3]
            &&& attr.head_count.0 == 0 || attr.head_count.0 == shape[2]
            &&& plan.geom.base == (if plain(attr.freq_base.0) {
                attr.freq_base.0
            } else {
                0x461c_4000
            })
            &&& plan.geom.frequency_scale == (if plain(attr.freq_scale.0) {
                attr.freq_scale.0
            } else {
                0x3f80_0000
            })
            &&& plan.geom.attention_scale == (if plain(attr.attn_factor.0) {
                attr.attn_factor.0
            } else {
                0x3f80_0000
            })
        }),
{
    let attr = ctx.attr_as::<RopeAttr>()->0;
    crate::backend::float::zero_has_two_signs(attr.freq_base.0);
    crate::backend::float::zero_has_two_signs(attr.freq_scale.0);
    crate::backend::float::zero_has_two_signs(attr.attn_factor.0);
}

/// A checked normalisation runs over rows of the size that its attribute names, with a weight
/// for each element, and keeps the root apart from zero by the attribute's number.
pub proof fn normalisation_follows_its_attribute(ctx: CallContext, plan: RmsNormPlan)
    requires
        call_ensures(check_rms_norm, (&ctx,), Ok::<RmsNormPlan, BackendErr>(plan)),
    ensures
        ({
            let attr = ctx.attr_as::<RmsNormAttr>()->0;
            &&& plan.input.shape[plan.input.rank - 1] == attr.hidden_size.0
            &&& plan.weight.element_count == attr.hidden_size.0
            &&& plan.epsilon == attr.eps.0
            &&& 0 < attr.eps.0 < 0x8000_0000 || attr.eps.0 > 0xff80_0000
        }),
{
    crate::backend::float::zero_has_two_signs(ctx.attr_as::<RmsNormAttr>()->0.eps.0);
}

/// A softmax runs along the axis of its plan with the scale of its plan: what stands at the
/// coordinates that differ along the axis alone goes into one row, and what comes out of it
/// stands at the same coordinates.
pub proof fn softmax_runs_along_its_axis<
    W: Fn(u16) -> u32,
    R: Fn(Vec<u32>, &u32) -> Vec<u32>,
    N: Fn(u32) -> u16,
>(
    plan: SoftmaxPlan,
    widen: W,
    row: R,
    narrow: N,
    raw: Seq<u8>,
    before: Seq<u8>,
    after: Seq<u8>,
    coords: Seq<nat>,
) -> (r: (Seq<u32>, Seq<u32>, Vec<u32>, Vec<u32>))
    requires
        plan.wf(),
        softmax_outcome(plan, widen, row, narrow, raw, before, after, Ok(())),
        crate::backend::meta::coords_within(plan.input.dims(), coords),
    ensures
        crate::backend::float::widened(widen, raw, plan.input, r.0),
        crate::backend::float::narrowed(narrow, r.1, plan.output, before, after),
        row.ensures((r.2, &plan.scale), r.3),
        stands_along(r.2@, r.0, plan.input.dims(), plan.axis as int, coords),
        stands_along(r.3@, r.1, plan.input.dims(), plan.axis as int, coords),
{
    let axis = plan.axis as int;
    let (wide, done) = choose|wide: Seq<u32>, done: Seq<u32>|
        {
            &&& #[trigger] crate::backend::float::widened(widen, raw, plan.input, wide)
            &&& lanes_mapped(row, plan.scale, plan.input, axis, wide, done)
            &&& #[trigger] crate::backend::float::narrowed(
                narrow,
                done,
                plan.output,
                before,
                after,
            )
        };
    let (v, w) = lanes_run_along_the_axis(
        row,
        plan.scale,
        plan.input,
        axis,
        wide,
        done,
        coords,
    );
    (wide, done, v, w)
}

/// A normalisation runs over rows: what stands at the coordinates that differ along the last
/// axis alone goes in together, with the weights of the second tensor and the number of the
/// plan.
pub proof fn normalisation_runs_over_rows<
    W: Fn(u16) -> u32,
    R: Fn(Vec<u32>, &RmsParameters) -> Vec<u32>,
    N: Fn(u32) -> u16,
>(
    plan: RmsNormPlan,
    widen: W,
    row: R,
    narrow: N,
    raw: Seq<u8>,
    raw_weight: Seq<u8>,
    before: Seq<u8>,
    after: Seq<u8>,
    coords: Seq<nat>,
) -> (r: (Seq<u32>, RmsParameters, Seq<u32>, Vec<u32>, Vec<u32>))
    requires
        plan.wf(),
        rms_norm_outcome(plan, widen, row, narrow, raw, raw_weight, before, after, Ok(())),
        crate::backend::meta::coords_within(plan.input.dims(), coords),
    ensures
        crate::backend::float::widened(widen, raw, plan.input, r.0),
        crate::backend::float::widened(widen, raw_weight, plan.weight, r.1.weight@),
        r.1.epsilon == plan.epsilon,
        crate::backend::float::narrowed(narrow, r.2, plan.output, before, after),
        row.ensures((r.3, &r.1), r.4),
        stands_along(r.3@, r.0, plan.input.dims(), plan.input.rank - 1, coords),
        stands_along(r.4@, r.2, plan.input.dims(), plan.input.rank - 1, coords),
{
    let axis = plan.input.rank - 1;
    let (wide, parameters, done) = choose|
        wide: Seq<u32>,
        parameters: RmsParameters,
        done: Seq<u32>,
    |
        {
            &&& #[trigger] crate::backend::float::widened(widen, raw, plan.input, wide)
            &&& crate::backend::float::widened(
                widen,
                raw_weight,
                plan.weight,
                parameters.weight@,
            )
            &&& parameters.epsilon == plan.epsilon
            &&& #[trigger] lanes_mapped(row, parameters, plan.input, axis, wide, done)
            &&& crate::backend::float::narrowed(narrow, done, plan.output, before, after)
        };
    let (v, w) = lanes_run_along_the_axis(
        row,
        parameters,
        plan.input,
        axis,
        wide,
        done,
        coords,
    );
    (wide, parameters, done, v, w)
}

/// The positions that a rotation is given are the indices of its second tensor, in row-major
/// order; without that tensor it is given none.
pub proof fn given_positions_are_the_indices(plan: RopePlan, raw_positions: Seq<u8>, i: nat)
    requires
        plan.wf(),
    ensures
        plan.positions is None <==> plan.given(raw_positions) is None,
        plan.positions matches Some((meta, dtype)) ==> {
            let values = plan.given(raw_positions)->0;
            &&& values.len() == meta.element_count
            &&& i < meta.element_count && meta.contiguous() ==> values[i as int]
                == crate::backend::gather::index_value(raw_positions, dtype, i as int)
        },
{
    if plan.positions is Some {
        let (meta, _) = plan.positions->0;
        if i < meta.element_count && meta.contiguous() {
            crate::backend::meta::contiguous_place(meta, i);
        }
    }
}

} // verus!
