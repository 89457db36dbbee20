//! Concatenation along one axis.

use crate::backend::call::CallContext;
use crate::backend::logical::{push_element, write_logical_bytes};
use crate::backend::meta::{normalize_axis, shape_product, BackendTensorView, TensorMeta};
use crate::uabi::error::BackendErr;
use crate::uabi::kernelattr::ConcatAttr;
use vstd::prelude::*;

verus! {

/// Largest number of tensors that can be concatenated.
pub const MAX_CONCAT_INPUTS: usize = 7;

/// Where part `t` starts along the axis.
pub open spec fn start(lens: Seq<nat>, t: int) -> nat
    decreases t,
{
    if t <= 0 {
        0
    } else {
        start(lens, t - 1) + lens[t - 1]
    }
}

/// The part that position `at` along the axis falls in.
pub open spec fn part_at(lens: Seq<nat>, at: nat, n: int) -> int
    decreases n,
{
    if n <= 0 {
        -1
    } else if at >= start(lens, n - 1) {
        n - 1
    } else {
        part_at(lens, at, n - 1)
    }
}

/// The part is found, and holds the position.
proof fn part_holds(lens: Seq<nat>, at: nat, n: int)
    requires
        0 <= n <= lens.len(),
        at < start(lens, n),
    ensures
        0 <= part_at(lens, at, n) < n,
        start(lens, part_at(lens, at, n)) <= at < start(lens, part_at(lens, at, n)) + lens[part_at(
            lens,
            at,
            n,
        )],
    decreases n,
{
    if n > 0 && at < start(lens, n - 1) {
        part_holds(lens, at, n - 1);
    }
}

/// A position in a part is found there.
proof fn part_found(lens: Seq<nat>, t: int, within: nat, n: int)
    requires
        0 <= t < n <= lens.len(),
        within < lens[t],
    ensures
        part_at(lens, start(lens, t) + within, n) == t,
    decreases n,
{
    if t < n - 1 {
        start_grows(lens, t + 1, n - 1);
        part_found(lens, t, within, n - 1);
    }
}

proof fn start_grows(lens: Seq<nat>, a: int, b: int)
    requires
        0 <= a <= b,
    ensures
        start(lens, a) <= start(lens, b),
    decreases b,
{
    if a < b {
        start_grows(lens, a, b - 1);
    }
}

/// Extents of the parts along the axis.
pub open spec fn part_lens(metas: Seq<TensorMeta>, axis: int) -> Seq<nat> {
    Seq::new(metas.len(), |t: int| metas[t].shape[axis] as nat)
}

/// A checked concatenation.
pub struct ConcatPlan {
    /// The parts.
    pub inputs: Vec<TensorMeta>,
    /// The output.
    pub output: TensorMeta,
    /// The axis.
    pub axis: usize,
    /// Elements between two neighbours along the axis.
    pub step: usize,
}

impl ConcatPlan {
    /// The parts agree with the output but along the axis, where they add up.
    pub open spec fn wf(self) -> bool {
        &&& self.output.wf()
        &&& crate::backend::logical::movable(self.output.element_size as int)
        &&& self.axis < self.output.rank
        &&& self.step == self.inner()
        &&& forall|t: int|
            0 <= t < self.inputs@.len() ==> part_agrees(
                #[trigger] self.inputs@[t],
                self.output,
                self.axis as int,
            )
        &&& start(self.lens(), self.inputs@.len() as int) == self.output.shape[self.axis as int]
    }

    /// Extents of the parts along the axis.
    pub open spec fn lens(self) -> Seq<nat> {
        part_lens(self.inputs@, self.axis as int)
    }

    /// Elements between two neighbours along the axis.
    pub open spec fn inner(self) -> nat {
        crate::shape::product(self.output.dims(), self.axis + 1, self.output.rank as int)
    }

    /// Position along the axis of output position `i`.
    pub open spec fn along(self, i: int) -> nat {
        ((i / (self.inner() as int)) % (self.output.shape[self.axis as int] as int)) as nat
    }

    /// The part that output position `i` comes from.
    pub open spec fn part(self, i: int) -> int {
        part_at(self.lens(), self.along(i), self.inputs@.len() as int)
    }

    /// The position in that part: the same block before the axis, the same place after it,
    /// and the position along the axis counted from the start of the part.
    pub open spec fn position(self, i: int) -> int {
        let inner = self.inner() as int;
        let outer = i / inner / (self.output.shape[self.axis as int] as int);
        let t = self.part(i);
        (outer * self.inputs@[t].shape[self.axis as int] + (self.along(i) - start(self.lens(), t)))
            * inner + i % inner
    }

    /// The buffers hold the tensors.
    pub open spec fn buffers_hold(self, raws: Seq<&[u8]>, output: Seq<u8>) -> bool {
        &&& raws.len() == self.inputs@.len()
        &&& forall|t: int|
            0 <= t < raws.len() ==> (#[trigger] self.inputs@[t]).lies_in(
                raws[t]@.len() as int / (self.inputs@[t].element_size as int),
            )
        &&& self.output.lies_in(output.len() as int / (self.output.element_size as int))
    }

    /// Where the elements of the output come from.
    pub open spec fn joined(self, raws: Seq<&[u8]>) -> spec_fn(int) -> Seq<u8> {
        |i: int|
            crate::backend::logical::elem(
                raws[self.part(i)]@,
                self.output.element_size as int,
                self.inputs@[self.part(i)].place(self.position(i) as nat) as int,
            )
    }
}

/// A part agrees with the output but along the axis.
pub open spec fn part_agrees(part: TensorMeta, output: TensorMeta, axis: int) -> bool {
    &&& part.wf()
    &&& part.element_size == output.element_size
    &&& part.rank == output.rank
    &&& forall|a: int|
        0 <= a < output.rank && a != axis ==> #[trigger] part.shape[a] == output.shape[a]
}

/// What is wrong with one part, where anything is.
pub open spec fn part_fault(
    view: BackendTensorView,
    output: BackendTensorView,
    axis: int,
) -> Option<BackendErr> {
    if view.dtype != output.dtype {
        Some(BackendErr::UnsupportedDtype)
    } else if crate::backend::meta::view_fault(view) is Some {
        crate::backend::meta::view_fault(view)
    } else if view.ndim != output.ndim {
        Some(BackendErr::InvalidTensor)
    } else if exists|a: int|
        0 <= a < output.ndim.0 && a != axis && #[trigger] view.shape[a] != output.shape[a] {
        Some(BackendErr::InvalidTensor)
    } else {
        None
    }
}

/// What is wrong with the first of `n` parts that anything is wrong with.
pub open spec fn parts_fault(
    views: Seq<BackendTensorView>,
    output: BackendTensorView,
    axis: int,
    n: int,
) -> Option<BackendErr>
    decreases n,
{
    if n <= 0 {
        None
    } else if parts_fault(views, output, axis, n - 1) is Some {
        parts_fault(views, output, axis, n - 1)
    } else {
        part_fault(views[n - 1], output, axis)
    }
}

proof fn parts_fault_stays(
    views: Seq<BackendTensorView>,
    output: BackendTensorView,
    axis: int,
    n: int,
    m: int,
)
    requires
        n <= m,
        parts_fault(views, output, axis, n) is Some,
    ensures
        parts_fault(views, output, axis, m) == parts_fault(views, output, axis, n),
    decreases m - n,
{
    if n < m {
        parts_fault_stays(views, output, axis, n, m - 1);
    }
}

/// Extents of the views along the axis.
pub open spec fn view_lens(views: Seq<BackendTensorView>, axis: int) -> Seq<nat> {
    Seq::new(views.len(), |t: int| views[t].shape[axis].0 as nat)
}

/// What is wrong with a call of the concatenation, where anything is.
pub open spec fn concat_fault(ctx: CallContext) -> Option<BackendErr> {
    let output = ctx.outputs[0];
    let rank = output.ndim.0 as int;
    if !(1 <= ctx.inputs@.len() <= MAX_CONCAT_INPUTS) || ctx.outputs@.len() != 1 {
        Some(BackendErr::InvalidInput)
    } else if !crate::backend::call::no_overlap(ctx.inputs@, ctx.outputs@) {
        Some(BackendErr::InvalidTensor)
    } else {
        match ctx.attr_as::<ConcatAttr>() {
            None => Some(BackendErr::InvalidAttr),
            Some(attr) => {
                let axis = crate::backend::meta::axis_of(attr.axis, rank);
                if crate::backend::meta::view_fault(output) is Some {
                    crate::backend::meta::view_fault(output)
                } else if crate::backend::gather::axis_fault(attr.axis, rank) is Some {
                    crate::backend::gather::axis_fault(attr.axis, rank)
                } else if parts_fault(
                    ctx.inputs@,
                    output,
                    axis,
                    ctx.inputs@.len() as int,
                ) is Some {
                    parts_fault(ctx.inputs@, output, axis, ctx.inputs@.len() as int)
                } else if start(view_lens(ctx.inputs@, axis), ctx.inputs@.len() as int)
                    != output.shape[axis].0 {
                    Some(BackendErr::InvalidTensor)
                } else if !crate::backend::meta::multiplies(
                    crate::backend::meta::view_dims(output),
                    axis + 1,
                    rank,
                ) {
                    Some(BackendErr::InvalidTensor)
                } else {
                    None
                }
            },
        }
    }
}

/// Starts depend on the extents only.
proof fn start_local(a: Seq<nat>, b: Seq<nat>, n: int)
    requires
        0 <= n <= a.len(),
        n <= b.len(),
        forall|t: int| 0 <= t < n ==> a[t] == b[t],
    ensures
        start(a, n) == start(b, n),
    decreases n,
{
    if n > 0 {
        start_local(a, b, n - 1);
    }
}

proof fn start_bounded(lens: Seq<nat>, n: int)
    requires
        0 <= n <= lens.len(),
        forall|t: int| 0 <= t < n ==> #[trigger] lens[t] <= u32::MAX,
    ensures
        start(lens, n) <= n * u32::MAX,
    decreases n,
{
    if n > 0 {
        start_bounded(lens, n - 1);
    }
}

/// Checks one part.
fn check_part(
    view: &BackendTensorView,
    output_view: &BackendTensorView,
    output: &TensorMeta,
    axis: usize,
) -> (r: Result<TensorMeta, BackendErr>)
    requires
        crate::backend::call::checked(*output_view, *output),
    ensures
        match r {
            Ok(meta) => {
                &&& part_fault(*view, *output_view, axis as int) is None
                &&& crate::backend::call::checked(*view, meta)
                &&& part_agrees(meta, *output, axis as int)
            },
            Err(err) => part_fault(*view, *output_view, axis as int) == Some(err),
        },
{
    if view.dtype.0 != output_view.dtype.0 {
        return Err(BackendErr::UnsupportedDtype);
    }
    let meta: TensorMeta = view.checked_meta()?;
    if meta.rank != output.rank || meta.element_size != output.element_size {
        return Err(BackendErr::InvalidTensor);
    }
    let mut a: usize = 0;
    while a < meta.rank
        invariant
            a <= meta.rank == output.rank <= 8,
            meta.rank == view.ndim.0,
            meta.rank == output_view.ndim.0,
            view.dtype == output_view.dtype,
            crate::backend::meta::view_fault(*view) is None,
            crate::backend::call::counts_view(*view, meta),
            crate::backend::call::counts_view(*output_view, *output),
            forall|b: int|
                0 <= b < a && b != axis ==> #[trigger] meta.shape[b] == output.shape[b],
            forall|b: int|
                0 <= b < a && b != axis ==> #[trigger] view.shape[b] == output_view.shape[b],
        decreases meta.rank - a,
    {
        assert(meta.shape[a as int] == view.shape[a as int].0);
        assert(output.shape[a as int] == output_view.shape[a as int].0);
        if a != axis && meta.shape[a] != output.shape[a] {
            assert(view.shape[a as int] != output_view.shape[a as int]);
            return Err(BackendErr::InvalidTensor);
        }
        a = a + 1;
    }
    Ok(meta)
}

/// Checks a call of the concatenation.
pub fn check_concat(ctx: &CallContext) -> (r: Result<ConcatPlan, BackendErr>)
    requires
        ctx.wf(),
    ensures
        match r {
            Ok(plan) => {
                &&& concat_fault(*ctx) is None
                &&& plan.wf()
                &&& plan.axis == crate::backend::meta::axis_of(
                    ctx.attr_as::<ConcatAttr>()->0.axis,
                    plan.output.rank as int,
                )
                &&& crate::backend::call::checked(ctx.outputs[0], plan.output)
                &&& plan.inputs@.len() == ctx.inputs@.len()
                &&& forall|t: int|
                    0 <= t < plan.inputs@.len() ==> crate::backend::call::checked(
                        ctx.inputs@[t],
                        #[trigger] plan.inputs@[t],
                    )
            },
            Err(err) => concat_fault(*ctx) == Some(err),
        },
{
    ctx.expect_io_range(1, MAX_CONCAT_INPUTS, 1, 1)?;
    ctx.reject_input_output_alias()?;
    let attr: ConcatAttr = ctx.read_attr::<ConcatAttr>()?;
    let output: TensorMeta = ctx.outputs[0].checked_meta()?;
    let axis: usize = normalize_axis(attr.axis, output.rank)?;
    let ghost lens = view_lens(ctx.inputs@, axis as int);
    let mut inputs: Vec<TensorMeta> = Vec::new();
    let mut total: u64 = 0;
    let mut t: usize = 0;
    while t < ctx.inputs.len()
        invariant
            t <= ctx.inputs@.len() <= 7,
            inputs@.len() == t,
            ctx.outputs@.len() == 1,
            crate::backend::call::checked(ctx.outputs[0], output),
            axis < output.rank,
            lens == view_lens(ctx.inputs@, axis as int),
            total == start(lens, t as int),
            parts_fault(ctx.inputs@, ctx.outputs[0], axis as int, t as int) is None,
            parts_fault(
                ctx.inputs@,
                ctx.outputs[0],
                axis as int,
                ctx.inputs@.len() as int,
            ) is Some ==> concat_fault(*ctx) == parts_fault(
                ctx.inputs@,
                ctx.outputs[0],
                axis as int,
                ctx.inputs@.len() as int,
            ),
            forall|i: int|
                0 <= i < t ==> crate::backend::call::checked(
                    ctx.inputs@[i],
                    #[trigger] inputs@[i],
                ) && part_agrees(inputs@[i], output, axis as int),
        decreases ctx.inputs@.len() - t,
    {
        match check_part(&ctx.inputs[t], &ctx.outputs[0], &output, axis) {
            Ok(meta) => {
                proof {
                    start_bounded(lens, t as int);
                    assert(meta.shape[axis as int] == ctx.inputs@[t as int].shape[axis as int].0);
                }
                total = total + meta.shape[axis] as u64;
                inputs.push(meta);
            },
            Err(err) => {
                proof {
                    assert(parts_fault(ctx.inputs@, ctx.outputs[0], axis as int, t + 1) == Some(
                        err,
                    ));
                    parts_fault_stays(
                        ctx.inputs@,
                        ctx.outputs[0],
                        axis as int,
                        t + 1,
                        ctx.inputs@.len() as int,
                    );
                }
                return Err(err);
            },
        }
        t = t + 1;
    }
    assert(output.shape[axis as int] == ctx.outputs[0].shape[axis as int].0);
    if total != output.shape[axis] as u64 {
        return Err(BackendErr::InvalidTensor);
    }
    proof {
        let found = part_lens(inputs@, axis as int);
        assert forall|i: int| 0 <= i < found.len() implies found[i] == lens[i] by {
            assert(inputs@[i].shape[axis as int] == ctx.inputs@[i].shape[axis as int].0);
        }
        start_local(found, lens, inputs@.len() as int);
    }
    let step: usize = shape_product(&output, axis + 1, output.rank)?;
    Ok(ConcatPlan { inputs, output, axis, step })
}

/// Output position `i` falls in a part, at a position that the part has.
proof fn position_exists(plan: ConcatPlan, i: nat)
    requires
        plan.wf(),
        i < plan.output.element_count,
    ensures
        plan.inner() > 0,
        plan.output.shape[plan.axis as int] > 0,
        0 <= plan.part(i as int) < plan.inputs@.len(),
        start(plan.lens(), plan.part(i as int)) <= plan.along(i as int),
        plan.along(i as int) < start(plan.lens(), plan.part(i as int))
            + plan.inputs@[plan.part(i as int)].shape[plan.axis as int],
        plan.along(i as int) < plan.output.shape[plan.axis as int],
        0 <= plan.position(i as int) < plan.inputs@[plan.part(i as int)].element_count,
{
    let dims = plan.output.dims();
    let rank = plan.output.rank as int;
    let axis = plan.axis as int;
    let inner = plan.inner();
    let extent = dims[axis];
    let outers = crate::shape::product(dims, 0, axis);
    crate::shape::product_split(dims, 0, axis + 1, rank);
    assert(crate::shape::product(dims, 0, axis + 1) == outers * extent);
    crate::shape::split_below(i, outers * extent, inner);
    let line = i / inner;
    crate::shape::split_below(line, outers, extent);
    let outer = line / extent;
    let at = plan.along(i as int);
    assert(at == line % extent);
    part_holds(plan.lens(), at, plan.inputs@.len() as int);
    let t = plan.part(i as int);
    let part = plan.inputs@[t];
    let len = plan.lens()[t];
    assert(part_agrees(part, plan.output, axis));
    let part_dims = part.dims();
    assert(part_dims[axis] == len);
    crate::shape::product_local(dims, part_dims, 0, axis);
    crate::shape::product_local(dims, part_dims, axis + 1, rank);
    crate::shape::product_split(part_dims, 0, axis + 1, rank);
    assert(crate::shape::product(part_dims, 0, axis + 1) == outers * len);
    let within = (at - start(plan.lens(), t)) as nat;
    crate::shape::joined_below(outer, outers, within, len);
    crate::shape::joined_below((outer * len + within) as nat, outers * len, i % inner, inner);
    assert(plan.position(i as int) == (outer * len + within) * inner + i % inner);
}

/// Finds the part that a position along the axis falls in, and where the part starts.
fn find_part(plan: &ConcatPlan, at: usize) -> (r: (usize, usize))
    requires
        plan.wf(),
        at < plan.output.shape[plan.axis as int],
    ensures
        r.0 == part_at(plan.lens(), at as nat, plan.inputs@.len() as int),
        r.0 < plan.inputs@.len(),
        r.1 == start(plan.lens(), r.0 as int),
        r.1 <= at,
{
    let ghost lens = plan.lens();
    let ghost n = plan.inputs@.len() as int;
    proof {
        part_holds(lens, at as nat, n);
    }
    let mut begin: usize = 0;
    let mut t: usize = 0;
    while t < plan.inputs.len() - 1 && at - begin >= plan.inputs[t].shape[plan.axis]
        invariant
            t < plan.inputs@.len(),
            plan.wf(),
            lens == plan.lens(),
            n == plan.inputs@.len(),
            at < start(lens, n),
            begin == start(lens, t as int),
            begin <= at,
            part_at(lens, at as nat, n) >= t,
        decreases plan.inputs@.len() - t,
    {
        proof {
            let found = part_at(lens, at as nat, n);
            part_holds(lens, at as nat, n);
            assert(lens[t as int] == plan.inputs@[t as int].shape[plan.axis as int]);
            if found == t {
                assert(at < start(lens, t as int) + lens[t as int]);
            }
        }
        begin = begin + plan.inputs[t].shape[plan.axis];
        t = t + 1;
    }
    proof {
        let found = part_at(lens, at as nat, n);
        part_holds(lens, at as nat, n);
        if t + 1 < n {
            assert(lens[t as int] == plan.inputs@[t as int].shape[plan.axis as int]);
            if found > t {
                start_grows(lens, t + 1, found);
            }
        }
    }
    (t, begin)
}

/// Concatenates: along the axis the parts follow one another in order.
pub fn run_concat(plan: &ConcatPlan, raws: &[&[u8]], output: &mut [u8]) -> (r: Result<
    (),
    BackendErr,
>)
    requires
        plan.wf(),
        plan.buffers_hold(raws@, old(output)@),
    ensures
        match r {
            Ok(_) => {
                &&& crate::backend::logical::countable(plan.output)
                &&& crate::backend::logical::scattered(
                    plan.output,
                    plan.joined(raws@),
                    plan.output.element_count as int,
                    old(output)@,
                    final(output)@,
                )
            },
            Err(err) => {
                &&& err == BackendErr::InvalidTensor
                &&& !crate::backend::logical::countable(plan.output)
                &&& final(output)@ == old(output)@
            },
        },
{
    let count: usize = plan.output.element_count;
    let size: usize = plan.output.element_size;
    if count.checked_mul(size).is_none() {
        return Err(BackendErr::InvalidTensor);
    }
    let axis: usize = plan.axis;
    let inner: usize = plan.step;
    let ghost joined = plan.joined(raws@);
    let extent: usize = plan.output.shape[axis];
    let mut logical: Vec<u8> = Vec::new();
    assert(0 * size == 0);
    let mut i: usize = 0;
    while i < count
        invariant
            i <= count,
            count == plan.output.element_count,
            size == plan.output.element_size,
            size > 0,
            axis == plan.axis,
            extent == plan.output.shape[axis as int],
            inner == plan.inner(),
            plan.wf(),
            plan.buffers_hold(raws@, output@),
            joined == plan.joined(raws@),
            logical@.len() == i * size,
            forall|j: int|
                0 <= j < i ==> #[trigger] crate::backend::logical::elem(logical@, size as int, j)
                    == joined(j),
        decreases count - i,
    {
        proof {
            position_exists(*plan, i as nat);
        }
        let line: usize = i / inner;
        let at: usize = line % extent;
        let outer: usize = line / extent;
        let (t, begin) = find_part(plan, at);
        let part: &TensorMeta = &plan.inputs[t];
        assert(part_agrees(plan.inputs@[t as int], plan.output, axis as int));
        proof {
            let len = part.shape[axis as int] as int;
            let block = outer * len + (at - begin);
            assert(0 <= outer * len) by (nonlinear_arith)
                requires
                    outer >= 0,
                    len >= 0,
            ;
            assert(block <= block * inner) by (nonlinear_arith)
                requires
                    block >= 0,
                    inner >= 1,
            ;
            assert(plan.position(i as int) == block * inner + i as int % inner as int);
        }
        let position: usize = (outer * part.shape[axis] + (at - begin)) * inner + i % inner;
        let place: usize = match part.offset_for_linear(position) {
            Ok(place) => place,
            Err(_) => 0,
        };
        let raw: &[u8] = raws[t];
        let raw_len: usize = raw.len();
        proof {
            crate::backend::logical::place_within(*part, position as nat, raw@.len() as int);
            crate::backend::logical::elements_stay(
                logical@,
                crate::backend::logical::elem(raw@, size as int, place as int),
                size as int,
                i as int,
            );
        }
        push_element(&mut logical, raw, place * size, size);
        i = i + 1;
    }
    let written = write_logical_bytes(&logical, output, &plan.output);
    proof {
        let from = crate::backend::logical::rows_of(logical@, size as int);
        assert forall|j: int| 0 <= j < count implies #[trigger] from(j) == joined(j) by {
            assert(crate::backend::logical::elem(logical@, size as int, j) == joined(j));
        }
    }
    written
}

/// Elements of a part stand in the output where the part stands along the axis: every
/// position of a part is the source of exactly one position of the output.
pub proof fn part_position_is_joined(plan: ConcatPlan, t: int, outer: nat, within: nat, rest: nat)
    requires
        plan.wf(),
        0 <= t < plan.inputs@.len(),
        within < plan.lens()[t],
        rest < plan.inner(),
    ensures
        ({
            let i = (outer * plan.output.shape[plan.axis as int] + (start(plan.lens(), t)
                + within)) * plan.inner() + rest;
            &&& plan.part(i) == t
            &&& plan.position(i) == (outer * plan.lens()[t] + within) * plan.inner() + rest
        }),
{
    let lens = plan.lens();
    let extent = plan.output.shape[plan.axis as int] as nat;
    let inner = plan.inner();
    let at = start(lens, t) + within;
    start_grows(lens, t + 1, lens.len() as int);
    assert(at < extent);
    crate::shape::joined_below(outer, outer + 1, at, extent);
    let line = (outer * extent + at) as nat;
    crate::shape::joined_below(line, line + 1, rest, inner);
    part_found(lens, t, within, plan.inputs@.len() as int);
}


proof fn start_is_sum(plan: ConcatPlan, t: int)
    requires
        0 <= t <= plan.inputs@.len(),
    ensures
        start(plan.lens(), t) == crate::backend::sums::sum_of(
            |u: int| plan.inputs@[u].shape[plan.axis as int] as int,
            t,
        ),
    decreases t,
{
    if t > 0 {
        start_is_sum(plan, t - 1);
    }
}

/// Concatenating puts the parts behind one another: the element of part `t` at `from` stands
/// in the output at the same coordinates, but along the axis behind all of the parts before
/// it.
pub proof fn concatenated_element(
    plan: ConcatPlan,
    raws: Seq<&[u8]>,
    before: Seq<u8>,
    after: Seq<u8>,
    t: int,
    from: Seq<nat>,
    out: Seq<nat>,
)
    requires
        plan.wf(),
        crate::backend::logical::spread(plan.output),
        crate::backend::logical::scattered(
            plan.output,
            plan.joined(raws),
            plan.output.element_count as int,
            before,
            after,
        ),
        0 <= t < plan.inputs@.len(),
        crate::backend::meta::coords_within(plan.inputs@[t].dims(), from),
        out.len() == from.len(),
        forall|a: int|
            0 <= a < out.len() ==> #[trigger] out[a] == (if a == plan.axis {
                from[a] + crate::backend::sums::sum_of(
                    |u: int| plan.inputs@[u].shape[plan.axis as int] as int,
                    t,
                )
            } else {
                from[a] as int
            }),
    ensures
        crate::backend::meta::coords_within(plan.output.dims(), out),
        crate::backend::logical::at_coords(after, plan.output, out)
            == crate::backend::logical::at_coords(raws[t]@, plan.inputs@[t], from),
{
    let part = plan.inputs@[t];
    let (dims, lens) = (plan.output.dims(), plan.lens());
    let (axis, rank) = (plan.axis as int, plan.output.rank as int);
    start_is_sum(plan, t);
    start_grows(lens, t + 1, lens.len() as int);
    assert(part_agrees(part, plan.output, axis));
    assert forall|a: int| 0 <= a < dims.len() implies #[trigger] out[a] < dims[a] by {
        assert(from[a] < part.dims()[a]);
        if a != axis {
            assert(part.shape[a] == plan.output.shape[a]);
        }
    }
    assert forall|a: int| 0 <= a < rank && a != axis implies part.dims()[a] == dims[a] by {
        assert(part.shape[a] == plan.output.shape[a]);
    }
    crate::backend::meta::position_splits(dims, out, axis + 1, rank);
    crate::backend::meta::position_splits(part.dims(), from, axis + 1, rank);
    crate::backend::meta::position_is_local(dims, part.dims(), out, from, axis);
    assert(dims.skip(axis + 1) =~= part.dims().skip(axis + 1));
    assert(out.skip(axis + 1) =~= from.skip(axis + 1));
    crate::shape::product_local(dims, part.dims(), axis + 1, rank);
    let outer = crate::backend::meta::linear_of(dims, out, axis);
    let rest = crate::backend::meta::linear_of(
        dims.skip(axis + 1),
        out.skip(axis + 1),
        rank - axis - 1,
    );
    part_position_is_joined(plan, t, outer, from[axis], rest);
    crate::backend::logical::written_element_is_found(
        plan.output,
        plan.joined(raws),
        before,
        after,
        out,
    );
    crate::backend::meta::coords_survive_linear(part.dims(), from);
}


/// A checked concatenation runs along the axis that its attribute names, a negative number
/// counting from the back.
pub proof fn concatenation_follows_its_attribute(ctx: CallContext, plan: ConcatPlan)
    requires
        call_ensures(check_concat, (&ctx,), Ok::<ConcatPlan, BackendErr>(plan)),
    ensures
        ({
            let axis = ctx.attr_as::<ConcatAttr>()->0.axis.0;
            &&& plan.axis == axis || plan.axis == axis + plan.output.rank
            &&& plan.axis < plan.output.rank
            &&& plan.inputs@.len() == ctx.inputs@.len()
        }),
{
}

} // verus!
