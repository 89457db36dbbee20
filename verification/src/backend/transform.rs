//! Operators that move elements without looking at them: transpose, expand, tile and
//! copy.

use crate::backend::call::CallContext;
use crate::backend::logical::{move_elements, row_major_linear};
use crate::backend::meta::{normalize_axis, TensorMeta};
use crate::uabi::error::BackendErr;
use crate::uabi::kernel::AiTargetHint;
use crate::uabi::kernelattr::{CopyAttr, ExpandAttr, TileAttr, TransposeAttr};
use vstd::prelude::*;

verus! {

/// The number of tensors is right and no output shares memory with an input.
pub open spec fn io_fault(ctx: CallContext, inputs: nat, outputs: nat) -> Option<BackendErr> {
    if ctx.inputs@.len() != inputs || ctx.outputs@.len() != outputs {
        Some(BackendErr::InvalidInput)
    } else if !crate::backend::call::no_overlap(ctx.inputs@, ctx.outputs@) {
        Some(BackendErr::InvalidTensor)
    } else {
        None
    }
}

/// A checked call with one input and one output.
pub struct MovePlan {
    /// The input.
    pub input: TensorMeta,
    /// The output.
    pub output: TensorMeta,
    /// Where to run.
    pub target: AiTargetHint,
}

impl MovePlan {
    /// Elements can be moved one by one.
    pub open spec fn wf(self) -> bool {
        &&& self.input.wf()
        &&& self.output.wf()
        &&& self.input.element_size == self.output.element_size
        &&& crate::backend::logical::movable(self.output.element_size as int)
    }

    /// The plan is that of a call.
    pub open spec fn of(self, ctx: CallContext) -> bool {
        &&& self.wf()
        &&& crate::backend::call::checked(ctx.inputs[0], self.input)
        &&& crate::backend::call::checked(ctx.outputs[0], self.output)
        &&& self.target == ctx.target
    }

    /// The buffers hold both tensors.
    pub open spec fn buffers_hold(self, raw: Seq<u8>, output: Seq<u8>) -> bool {
        &&& self.input.lies_in(raw.len() as int / (self.input.element_size as int))
        &&& self.output.lies_in(output.len() as int / (self.output.element_size as int))
    }

    /// Coordinates of output position `i`.
    pub open spec fn out_coords(self, i: int) -> Seq<nat> {
        crate::backend::meta::coords_of(self.output.dims(), i as nat)
    }

    /// Coordinates of input position `j`.
    pub open spec fn in_coords(self, j: int) -> Seq<nat> {
        crate::backend::meta::coords_of(self.input.dims(), j as nat)
    }

    /// Every element of the output comes from the position of the input that `comes_from`
    /// relates to its own.
    pub open spec fn remapped(
        self,
        comes_from: spec_fn(int, int) -> bool,
        raw: Seq<u8>,
        before: Seq<u8>,
        after: Seq<u8>,
    ) -> bool {
        exists|sources: Seq<usize>|
            {
                &&& sources.len() == self.output.element_count
                &&& forall|i: int|
                    0 <= i < sources.len() ==> #[trigger] sources[i] < self.input.element_count
                        && comes_from(i, sources[i] as int)
                &&& #[trigger] crate::backend::logical::scattered(
                    self.output,
                    crate::backend::logical::picked(raw, self.input, sources),
                    self.output.element_count as int,
                    before,
                    after,
                )
            }
    }

    /// What running the plan does: the elements are moved, or, where their bytes cannot be
    /// counted, nothing happens.
    pub open spec fn outcome(
        self,
        comes_from: spec_fn(int, int) -> bool,
        raw: Seq<u8>,
        before: Seq<u8>,
        after: Seq<u8>,
        r: Result<(), BackendErr>,
    ) -> bool {
        let countable = crate::backend::logical::countable(self.input)
            && crate::backend::logical::countable(self.output);
        match r {
            Ok(_) => countable && self.remapped(comes_from, raw, before, after),
            Err(err) => !countable && err == BackendErr::InvalidTensor && after == before,
        }
    }

    /// Moves the elements.
    fn move_from(
        &self,
        raw: &[u8],
        sources: &Vec<usize>,
        output: &mut [u8],
        Ghost(comes_from): Ghost<spec_fn(int, int) -> bool>,
    ) -> (r: Result<(), BackendErr>)
        requires
            self.wf(),
            self.buffers_hold(raw@, old(output)@),
            sources@.len() == self.output.element_count,
            forall|i: int|
                0 <= i < sources@.len() ==> #[trigger] sources@[i] < self.input.element_count
                    && comes_from(i, sources@[i] as int),
        ensures
            self.outcome(comes_from, raw@, old(output)@, final(output)@, r),
    {
        move_elements(raw, &self.input, sources, output, &self.output, self.target)
    }
}

/// Position `j` of the input goes to position `i` of the transposed output.
pub open spec fn transposes(plan: MovePlan, permutation: Seq<usize>, i: int, j: int) -> bool {
    forall|o: int|
        0 <= o < permutation.len() ==> plan.in_coords(j)[#[trigger] permutation[o] as int]
            == plan.out_coords(i)[o]
}

/// The axis that output axis `o` is taken from.
pub open spec fn taken_axis(attr: TransposeAttr, rank: int, o: int) -> int {
    crate::backend::meta::axis_of(attr.perm[o], rank)
}

/// The attribute names every axis once, and the extents follow.
pub open spec fn permutes(attr: TransposeAttr, input: Seq<nat>, output: Seq<nat>) -> bool {
    let rank = input.len() as int;
    &&& forall|o: int|
        0 <= o < rank ==> 0 <= #[trigger] taken_axis(attr, rank, o) < rank && output[o]
            == input[taken_axis(attr, rank, o)]
    &&& forall|o: int, p: int|
        0 <= p < o < rank ==> #[trigger] taken_axis(attr, rank, o) != #[trigger] taken_axis(
            attr,
            rank,
            p,
        )
}

/// What is wrong with a call of the transpose, where anything is.
pub open spec fn transpose_fault(ctx: CallContext) -> Option<BackendErr> {
    let input = ctx.inputs[0];
    let output = ctx.outputs[0];
    if io_fault(ctx, 1, 1) is Some {
        io_fault(ctx, 1, 1)
    } else {
        match ctx.attr_as::<TransposeAttr>() {
            None => Some(BackendErr::InvalidAttr),
            Some(attr) => if crate::backend::meta::view_fault(input) is Some {
                crate::backend::meta::view_fault(input)
            } else if crate::backend::meta::view_fault(output) is Some {
                crate::backend::meta::view_fault(output)
            } else if input.dtype != output.dtype || input.ndim != output.ndim || attr.rank
                != input.ndim {
                Some(BackendErr::InvalidTensor)
            } else if !permutes(
                attr,
                crate::backend::meta::view_dims(input),
                crate::backend::meta::view_dims(output),
            ) {
                Some(BackendErr::InvalidAttr)
            } else {
                None
            },
        }
    }
}

/// Checks a call of the transpose. The second result names, for each axis of the output,
/// the axis of the input that it is.
pub fn check_transpose(ctx: &CallContext) -> (r: Result<(MovePlan, Vec<usize>), BackendErr>)
    requires
        ctx.wf(),
    ensures
        match r {
            Ok((plan, permutation)) => {
                &&& transpose_fault(*ctx) is None
                &&& plan.of(*ctx)
                &&& permutation_of(plan, permutation@)
                &&& forall|o: int|
                    0 <= o < permutation@.len() ==> #[trigger] permutation@[o] == taken_axis(
                        ctx.attr_as::<TransposeAttr>()->0,
                        plan.input.rank as int,
                        o,
                    )
            },
            Err(err) => transpose_fault(*ctx) == Some(err),
        },
{
    ctx.expect_io(1, 1)?;
    ctx.reject_input_output_alias()?;
    let attr: TransposeAttr = ctx.read_attr::<TransposeAttr>()?;
    let input: TensorMeta = ctx.inputs[0].checked_meta()?;
    let output: TensorMeta = ctx.outputs[0].checked_meta()?;
    if ctx.inputs[0].dtype.0 != ctx.outputs[0].dtype.0 || input.rank != output.rank
        || attr.rank.0 as usize != input.rank {
        return Err(BackendErr::InvalidTensor);
    }
    let plan = MovePlan { input, output, target: ctx.target };
    let ghost rank = input.rank as int;
    let ghost from = crate::backend::meta::view_dims(ctx.inputs[0]);
    let ghost to = crate::backend::meta::view_dims(ctx.outputs[0]);
    let mut seen: [bool; 8] = [false; 8];
    let mut permutation: Vec<usize> = Vec::new();
    let mut o: usize = 0;
    while o < output.rank
        invariant
            o <= output.rank == input.rank <= 8,
            rank == input.rank,
            !permutes(attr, from, to) ==> transpose_fault(*ctx) == Some(BackendErr::InvalidAttr),
            permutation@.len() == o,
            input.dims() == from,
            output.dims() == to,
            from.len() == rank,
            to.len() == rank,
            forall|p: int|
                0 <= p < o ==> #[trigger] permutation@[p] == taken_axis(attr, rank, p)
                    && permutation@[p] < rank,
            forall|p: int|
                0 <= p < o ==> 0 <= #[trigger] taken_axis(attr, rank, p) < rank && to[p]
                    == from[taken_axis(attr, rank, p)],
            forall|q: int, p: int|
                0 <= p < q < o ==> #[trigger] taken_axis(attr, rank, q) != #[trigger] taken_axis(
                    attr,
                    rank,
                    p,
                ),
            forall|a: int| 0 <= a < 8 ==> (#[trigger] seen[a] <==> took(attr, rank, o as int, a)),
        decreases output.rank - o,
    {
        assert(to[o as int] == output.shape[o as int]);
        match normalize_axis(attr.perm[o], input.rank) {
            Ok(axis) => {
                assert(taken_axis(attr, rank, o as int) == axis);
                assert(from[axis as int] == input.shape[axis as int]);
                if seen[axis] || output.shape[o] != input.shape[axis] {
                    assert(!permutes(attr, from, to)) by {
                        if took(attr, rank, o as int, axis as int) {
                            let p = choose|p: int|
                                0 <= p < o && #[trigger] taken_axis(attr, rank, p) == axis;
                            assert(taken_axis(attr, rank, o as int) == taken_axis(attr, rank, p));
                        }
                    }
                    return Err(BackendErr::InvalidAttr);
                }
                let ghost seen_before = seen;
                seen[axis] = true;
                permutation.push(axis);
                proof {
                    assert forall|a: int| 0 <= a < 8 implies (#[trigger] seen[a] <==> took(
                        attr,
                        rank,
                        o + 1,
                        a,
                    )) by {
                        if a == axis {
                            assert(taken_axis(attr, rank, o as int) == a);
                        } else {
                            assert(seen[a] == seen_before[a]);
                            if took(attr, rank, o + 1, a) {
                                let p = choose|p: int|
                                    0 <= p < o + 1 && #[trigger] taken_axis(attr, rank, p) == a;
                                assert(p < o);
                            }
                        }
                    }
                    assert(!took(attr, rank, o as int, axis as int));
                }
            },
            Err(_) => {
                assert(!(0 <= taken_axis(attr, rank, o as int) < rank));
                return Err(BackendErr::InvalidAttr);
            },
        }
        o = o + 1;
    }
    proof {
        assert forall|p: int| 0 <= p < rank implies output.shape[p] == input.shape[
        #[trigger] permutation@[p] as int] by {
            assert(to[p] == from[taken_axis(attr, rank, p)]);
        }
        assert forall|q: int, p: int| 0 <= q < p < rank implies #[trigger] permutation@[q]
            != #[trigger] permutation@[p] by {
            assert(taken_axis(attr, rank, p) != taken_axis(attr, rank, q));
        }
        assert(crate::uabi::dag::distinct_below(permutation@, rank));
    }
    Ok((plan, permutation))
}

/// Some output axis before `o` is taken from axis `a`.
spec fn took(attr: TransposeAttr, rank: int, o: int, a: int) -> bool {
    exists|p: int| 0 <= p < o && #[trigger] taken_axis(attr, rank, p) == a
}

/// The permutation names every axis once, and the extents follow.
pub open spec fn permutation_of(plan: MovePlan, permutation: Seq<usize>) -> bool {
    &&& plan.input.rank == plan.output.rank
    &&& permutation.len() == plan.input.rank
    &&& crate::uabi::dag::distinct_below(permutation, plan.input.rank as int)
    &&& forall|o: int|
        0 <= o < permutation.len() ==> plan.output.shape[o] == plan.input.shape[
        #[trigger] permutation[o] as int]
}

/// Transposes: coordinate `o` of an output element is coordinate `permutation[o]` of the
/// input element that it comes from.
pub fn run_transpose(plan: &MovePlan, permutation: &Vec<usize>, raw: &[u8], output: &mut [u8]) -> (r:
    Result<(), BackendErr>)
    requires
        plan.wf(),
        permutation_of(*plan, permutation@),
        plan.buffers_hold(raw@, old(output)@),
    ensures
        plan.outcome(
            |i: int, j: int| transposes(*plan, permutation@, i, j),
            raw@,
            old(output)@,
            final(output)@,
            r,
        ),
{
    let ghost comes_from = |i: int, j: int| transposes(*plan, permutation@, i, j);
    let mut sources: Vec<usize> = Vec::new();
    let mut linear: usize = 0;
    while linear < plan.output.element_count
        invariant
            linear <= plan.output.element_count,
            sources@.len() == linear,
            plan.wf(),
            permutation_of(*plan, permutation@),
            comes_from == (|i: int, j: int| transposes(*plan, permutation@, i, j)),
            forall|i: int|
                0 <= i < linear ==> #[trigger] sources@[i] < plan.input.element_count
                    && comes_from(i, sources@[i] as int),
        decreases plan.output.element_count - linear,
    {
        let source: usize = transposed_position(plan, permutation, linear);
        sources.push(source);
        linear = linear + 1;
    }
    plan.move_from(raw, &sources, output, Ghost(comes_from))
}

/// The position that the element at `linear` comes from.
fn transposed_position(plan: &MovePlan, permutation: &Vec<usize>, linear: usize) -> (r: usize)
    requires
        plan.wf(),
        permutation_of(*plan, permutation@),
        linear < plan.output.element_count,
    ensures
        r < plan.input.element_count,
        transposes(*plan, permutation@, linear as int, r as int),
{
    let mut target: [usize; 8] = [0; 8];
    let ghost wanted = plan.out_coords(linear as int);
    proof {
        crate::backend::meta::coords_are_within(plan.output.dims(), linear as nat);
    }
    let coordinates: [usize; 8] = match plan.output.coordinates(linear) {
        Ok(coordinates) => coordinates,
        Err(_) => [0; 8],
    };
    let mut o: usize = 0;
    while o < permutation.len()
        invariant
            o <= permutation@.len(),
            plan.wf(),
            permutation_of(*plan, permutation@),
            crate::backend::meta::as_coords(coordinates, plan.output.rank as int) == wanted,
            wanted == plan.out_coords(linear as int),
            forall|p: int|
                0 <= p < o ==> target[#[trigger] permutation@[p] as int] == coordinates[p],
        decreases permutation@.len() - o,
    {
        let axis: usize = permutation[o];
        assert(permutation@[o as int] < plan.input.rank);
        target[axis] = coordinates[o];
        o = o + 1;
    }
    proof {
        let rank = plan.input.rank as int;
        crate::uabi::dag::full_order_lists_all(permutation@, rank);
        let coords = crate::backend::meta::as_coords(target, rank);
        assert forall|a: int| 0 <= a < rank implies #[trigger] coords[a] < plan.input.dims()[a] by {
            assert(crate::uabi::dag::listed(permutation@, rank, a));
            let p = choose|p: int| 0 <= p < rank && #[trigger] permutation@[p] == a;
            assert(target[permutation@[p] as int] == coordinates[p]);
            assert(wanted[p] < plan.output.dims()[p]);
            assert(plan.output.shape[p] == plan.input.shape[permutation@[p] as int]);
        }
        assert(crate::backend::meta::coords_within(plan.input.dims(), coords));
    }
    match row_major_linear(&plan.input, &target) {
        Ok(position) => {
            proof {
                assert forall|p: int| 0 <= p < permutation@.len() implies plan.in_coords(
                    position as int,
                )[#[trigger] permutation@[p] as int] == wanted[p] by {
                    assert(target[permutation@[p] as int] == coordinates[p]);
                    assert(wanted[p] == coordinates[p]);
                }
            }
            position
        },
        Err(_) => 0,
    }
}

/// Extent of an axis after shapes were lined up at their last axes.
pub open spec fn aligned(dims: Seq<nat>, rank: int, axis: int) -> nat {
    if axis < rank - dims.len() {
        1
    } else {
        dims[axis - (rank - dims.len())]
    }
}

/// Extent of an axis after shapes were lined up at their last axes.
pub fn aligned_dim(meta: &TensorMeta, output_rank: usize, output_axis: usize) -> (r: usize)
    requires
        meta.rank <= output_rank <= 8,
        output_axis < output_rank,
    ensures
        r == aligned(meta.dims(), output_rank as int, output_axis as int),
{
    let leading: usize = output_rank - meta.rank;
    if output_axis < leading {
        1
    } else {
        meta.shape[output_axis - leading]
    }
}

/// What is wrong with one axis of an expansion.
pub open spec fn expand_axis_fault(
    attr: ExpandAttr,
    input: Seq<nat>,
    output: Seq<nat>,
    axis: int,
) -> Option<BackendErr> {
    let extent = aligned(input, output.len() as int, axis);
    if attr.target_shape[axis].0 != output[axis] {
        Some(BackendErr::InvalidAttr)
    } else if extent != 1 && extent != output[axis] {
        Some(BackendErr::InvalidTensor)
    } else {
        None
    }
}

/// What is wrong with the first of `n` axes of an expansion that anything is wrong with.
pub open spec fn expand_axes_fault(
    attr: ExpandAttr,
    input: Seq<nat>,
    output: Seq<nat>,
    n: int,
) -> Option<BackendErr>
    decreases n,
{
    if n <= 0 {
        None
    } else if expand_axes_fault(attr, input, output, n - 1) is Some {
        expand_axes_fault(attr, input, output, n - 1)
    } else {
        expand_axis_fault(attr, input, output, n - 1)
    }
}

/// What is wrong with a call of the expansion, where anything is.
pub open spec fn expand_fault(ctx: CallContext) -> Option<BackendErr> {
    let input = ctx.inputs[0];
    let output = ctx.outputs[0];
    if io_fault(ctx, 1, 1) is Some {
        io_fault(ctx, 1, 1)
    } else {
        match ctx.attr_as::<ExpandAttr>() {
            None => Some(BackendErr::InvalidAttr),
            Some(attr) => if crate::backend::meta::view_fault(input) is Some {
                crate::backend::meta::view_fault(input)
            } else if crate::backend::meta::view_fault(output) is Some {
                crate::backend::meta::view_fault(output)
            } else if input.dtype != output.dtype || attr.rank != output.ndim || input.ndim.0
                > output.ndim.0 {
                Some(BackendErr::InvalidTensor)
            } else {
                expand_axes_fault(
                    attr,
                    crate::backend::meta::view_dims(input),
                    crate::backend::meta::view_dims(output),
                    output.ndim.0 as int,
                )
            },
        }
    }
}

/// The input can be expanded to the output: lined up at their last axes, each extent of
/// the input is one or that of the output.
pub open spec fn expands_to(input: Seq<nat>, output: Seq<nat>) -> bool {
    &&& input.len() <= output.len()
    &&& forall|axis: int|
        0 <= axis < output.len() ==> #[trigger] aligned(input, output.len() as int, axis) == 1
            || aligned(input, output.len() as int, axis) == output[axis]
}

/// An error found at an axis stays the error of all axes.
proof fn expand_fault_stays(
    attr: ExpandAttr,
    input: Seq<nat>,
    output: Seq<nat>,
    n: int,
    m: int,
)
    requires
        n <= m,
        expand_axes_fault(attr, input, output, n) is Some,
    ensures
        expand_axes_fault(attr, input, output, m) == expand_axes_fault(attr, input, output, n),
    decreases m - n,
{
    if n < m {
        expand_fault_stays(attr, input, output, n, m - 1);
    }
}

/// Checks a call of the expansion.
pub fn check_expand(ctx: &CallContext) -> (r: Result<MovePlan, BackendErr>)
    requires
        ctx.wf(),
    ensures
        match r {
            Ok(plan) => {
                &&& expand_fault(*ctx) is None
                &&& plan.of(*ctx)
                &&& expands_to(plan.input.dims(), plan.output.dims())
            },
            Err(err) => expand_fault(*ctx) == Some(err),
        },
{
    ctx.expect_io(1, 1)?;
    ctx.reject_input_output_alias()?;
    let attr: ExpandAttr = ctx.read_attr::<ExpandAttr>()?;
    let input: TensorMeta = ctx.inputs[0].checked_meta()?;
    let output: TensorMeta = ctx.outputs[0].checked_meta()?;
    if ctx.inputs[0].dtype.0 != ctx.outputs[0].dtype.0 || attr.rank.0 as usize != output.rank
        || input.rank > output.rank {
        return Err(BackendErr::InvalidTensor);
    }
    let ghost from = input.dims();
    let ghost to = output.dims();
    let ghost rank = output.rank as int;
    let mut axis: usize = 0;
    while axis < output.rank
        invariant
            axis <= output.rank <= 8,
            input.rank <= output.rank,
            from == input.dims(),
            to == output.dims(),
            rank == output.rank,
            expand_fault(*ctx) == expand_axes_fault(attr, from, to, rank),
            expand_axes_fault(attr, from, to, axis as int) is None,
            forall|a: int|
                0 <= a < axis ==> #[trigger] aligned(from, rank, a) == 1 || aligned(from, rank, a)
                    == to[a],
        decreases output.rank - axis,
    {
        assert(to[axis as int] == output.shape[axis as int]);
        if attr.target_shape[axis].0 as usize != output.shape[axis] {
            proof {
                assert(expand_axes_fault(attr, from, to, axis + 1) == Some(
                    BackendErr::InvalidAttr,
                ));
                expand_fault_stays(attr, from, to, axis + 1, rank);
            }
            return Err(BackendErr::InvalidAttr);
        }
        let extent: usize = aligned_dim(&input, output.rank, axis);
        if extent != 1 && extent != output.shape[axis] {
            proof {
                assert(expand_axes_fault(attr, from, to, axis + 1) == Some(
                    BackendErr::InvalidTensor,
                ));
                expand_fault_stays(attr, from, to, axis + 1, rank);
            }
            return Err(BackendErr::InvalidTensor);
        }
        axis = axis + 1;
    }
    Ok(MovePlan { input, output, target: ctx.target })
}

/// Coordinate that an expanded element comes from: zero along an axis that was expanded.
pub open spec fn expands(plan: MovePlan, i: int, j: int) -> bool {
    let leading = plan.output.rank - plan.input.rank;
    forall|a: int|
        0 <= a < plan.input.rank ==> #[trigger] plan.in_coords(j)[a] == (if plan.input.shape[a]
            == 1 {
            0
        } else {
            plan.out_coords(i)[leading + a]
        })
}

/// Position of the input element under coordinates of the output, where the input is
/// expanded to it.
pub fn broadcast_position(input: &TensorMeta, output: &TensorMeta, coordinates: &[usize; 8]) -> (r:
    [usize; 8])
    requires
        input.wf(),
        output.wf(),
        expands_to(input.dims(), output.dims()),
        crate::backend::meta::coords_within(
            output.dims(),
            crate::backend::meta::as_coords(*coordinates, output.rank as int),
        ),
    ensures
        crate::backend::meta::coords_within(
            input.dims(),
            crate::backend::meta::as_coords(r, input.rank as int),
        ),
        forall|a: int|
            0 <= a < input.rank ==> #[trigger] r[a] == (if input.shape[a] == 1 {
                0
            } else {
                coordinates[output.rank - input.rank + a]
            }),
{
    let mut target: [usize; 8] = [0; 8];
    let leading: usize = output.rank - input.rank;
    let mut axis: usize = 0;
    while axis < input.rank
        invariant
            axis <= input.rank <= output.rank <= 8,
            leading == output.rank - input.rank,
            forall|a: int|
                0 <= a < axis ==> #[trigger] target[a] == (if input.shape[a] == 1 {
                    0
                } else {
                    coordinates[leading + a]
                }),
        decreases input.rank - axis,
    {
        if input.shape[axis] != 1 {
            target[axis] = coordinates[leading + axis];
        } else {
            target[axis] = 0;
        }
        axis = axis + 1;
    }
    proof {
        let coords = crate::backend::meta::as_coords(target, input.rank as int);
        let wanted = crate::backend::meta::as_coords(*coordinates, output.rank as int);
        assert forall|a: int| 0 <= a < input.rank implies #[trigger] coords[a] < input.dims()[a] by {
            assert(aligned(input.dims(), output.rank as int, leading + a) == input.dims()[a]);
            assert(wanted[leading + a] < output.dims()[leading + a]);
        }
    }
    target
}

/// Expands: along an axis of extent one the same element is repeated.
pub fn run_expand(plan: &MovePlan, raw: &[u8], output: &mut [u8]) -> (r: Result<(), BackendErr>)
    requires
        plan.wf(),
        expands_to(plan.input.dims(), plan.output.dims()),
        plan.buffers_hold(raw@, old(output)@),
    ensures
        plan.outcome(
            |i: int, j: int| expands(*plan, i, j),
            raw@,
            old(output)@,
            final(output)@,
            r,
        ),
{
    let ghost comes_from = |i: int, j: int| expands(*plan, i, j);
    let mut sources: Vec<usize> = Vec::new();
    let mut linear: usize = 0;
    while linear < plan.output.element_count
        invariant
            linear <= plan.output.element_count,
            sources@.len() == linear,
            plan.wf(),
            expands_to(plan.input.dims(), plan.output.dims()),
            comes_from == (|i: int, j: int| expands(*plan, i, j)),
            forall|i: int|
                0 <= i < linear ==> #[trigger] sources@[i] < plan.input.element_count
                    && comes_from(i, sources@[i] as int),
        decreases plan.output.element_count - linear,
    {
        proof {
            crate::backend::meta::coords_are_within(plan.output.dims(), linear as nat);
        }
        let ghost wanted = plan.out_coords(linear as int);
        let coordinates: [usize; 8] = match plan.output.coordinates(linear) {
            Ok(coordinates) => coordinates,
            Err(_) => [0; 8],
        };
        let target: [usize; 8] = broadcast_position(&plan.input, &plan.output, &coordinates);
        let source: usize = match row_major_linear(&plan.input, &target) {
            Ok(position) => position,
            Err(_) => 0,
        };
        proof {
            let leading = plan.output.rank - plan.input.rank;
            assert forall|a: int| 0 <= a < plan.input.rank implies #[trigger] plan.in_coords(
                source as int,
            )[a] == (if plan.input.shape[a] == 1 {
                0
            } else {
                wanted[leading + a]
            }) by {
                assert(target[a] == plan.in_coords(source as int)[a]);
                assert(wanted[leading + a] == coordinates[leading + a]);
            }
            assert(expands(*plan, linear as int, source as int));
        }
        sources.push(source);
        linear = linear + 1;
    }
    plan.move_from(raw, &sources, output, Ghost(comes_from))
}

/// The output is the input repeated: each extent is that of the input times its number of
/// repeats.
pub open spec fn repeats(attr: TileAttr, input: Seq<nat>, output: Seq<nat>) -> bool {
    forall|axis: int|
        0 <= axis < input.len() ==> (#[trigger] attr.repeats[axis]).0 != 0 && input[axis]
            * attr.repeats[axis].0 == output[axis]
}

/// What is wrong with a call of the tiling, where anything is.
pub open spec fn tile_fault(ctx: CallContext) -> Option<BackendErr> {
    let input = ctx.inputs[0];
    let output = ctx.outputs[0];
    if io_fault(ctx, 1, 1) is Some {
        io_fault(ctx, 1, 1)
    } else {
        match ctx.attr_as::<TileAttr>() {
            None => Some(BackendErr::InvalidAttr),
            Some(attr) => if crate::backend::meta::view_fault(input) is Some {
                crate::backend::meta::view_fault(input)
            } else if crate::backend::meta::view_fault(output) is Some {
                crate::backend::meta::view_fault(output)
            } else if input.dtype != output.dtype || attr.rank != input.ndim || output.ndim
                != input.ndim {
                Some(BackendErr::InvalidTensor)
            } else if !repeats(
                attr,
                crate::backend::meta::view_dims(input),
                crate::backend::meta::view_dims(output),
            ) {
                Some(BackendErr::InvalidAttr)
            } else {
                None
            },
        }
    }
}

/// The shapes are those of a tiling: the same number of axes, and where the output has
/// elements, so has the input.
pub open spec fn tiles_to(input: TensorMeta, output: TensorMeta) -> bool {
    &&& input.rank == output.rank
    &&& forall|a: int|
        0 <= a < input.rank && #[trigger] input.shape[a] == 0 ==> output.shape[a] == 0
}

/// Checks a call of the tiling.
pub fn check_tile(ctx: &CallContext) -> (r: Result<MovePlan, BackendErr>)
    requires
        ctx.wf(),
    ensures
        match r {
            Ok(plan) => {
                &&& tile_fault(*ctx) is None
                &&& plan.of(*ctx)
                &&& tiles_to(plan.input, plan.output)
            },
            Err(err) => tile_fault(*ctx) == Some(err),
        },
{
    ctx.expect_io(1, 1)?;
    ctx.reject_input_output_alias()?;
    let attr: TileAttr = ctx.read_attr::<TileAttr>()?;
    let input: TensorMeta = ctx.inputs[0].checked_meta()?;
    let output: TensorMeta = ctx.outputs[0].checked_meta()?;
    if ctx.inputs[0].dtype.0 != ctx.outputs[0].dtype.0 || attr.rank.0 as usize != input.rank
        || output.rank != input.rank {
        return Err(BackendErr::InvalidTensor);
    }
    let ghost from = input.dims();
    let ghost to = output.dims();
    let mut axis: usize = 0;
    while axis < input.rank
        invariant
            axis <= input.rank == output.rank <= 8,
            from == input.dims(),
            to == output.dims(),
            !repeats(attr, from, to) ==> tile_fault(*ctx) == Some(BackendErr::InvalidAttr),
            forall|a: int|
                0 <= a < axis ==> (#[trigger] attr.repeats[a]).0 != 0 && from[a]
                    * attr.repeats[a].0 == to[a],
            forall|a: int|
                0 <= a < axis && #[trigger] input.shape[a] == 0 ==> output.shape[a] == 0,
        decreases input.rank - axis,
    {
        let repeat: usize = attr.repeats[axis].0 as usize;
        assert(from[axis as int] == input.shape[axis as int]);
        assert(to[axis as int] == output.shape[axis as int]);
        let fits: bool = match input.shape[axis].checked_mul(repeat) {
            Some(expected) => expected == output.shape[axis],
            None => false,
        };
        if repeat == 0 || !fits {
            assert(attr.repeats[axis as int].0 == repeat);
            assert(!repeats(attr, from, to));
            return Err(BackendErr::InvalidAttr);
        }
        assert(attr.repeats[axis as int].0 == repeat);
        proof {
            if input.shape[axis as int] == 0 {
                assert(0 * repeat == 0) by (nonlinear_arith);
            }
        }
        axis = axis + 1;
    }
    Ok(MovePlan { input, output, target: ctx.target })
}

/// A tiled element comes from the element at the same coordinates, modulo the extents of
/// the input.
pub open spec fn tiles(plan: MovePlan, i: int, j: int) -> bool {
    forall|a: int|
        0 <= a < plan.input.rank ==> #[trigger] plan.in_coords(j)[a] == plan.out_coords(i)[a]
            % plan.input.dims()[a]
}

/// Tiles: the input is repeated along each axis.
pub fn run_tile(plan: &MovePlan, raw: &[u8], output: &mut [u8]) -> (r: Result<(), BackendErr>)
    requires
        plan.wf(),
        tiles_to(plan.input, plan.output),
        plan.buffers_hold(raw@, old(output)@),
    ensures
        plan.outcome(|i: int, j: int| tiles(*plan, i, j), raw@, old(output)@, final(output)@, r),
{
    let ghost comes_from = |i: int, j: int| tiles(*plan, i, j);
    let mut sources: Vec<usize> = Vec::new();
    let mut linear: usize = 0;
    while linear < plan.output.element_count
        invariant
            linear <= plan.output.element_count,
            sources@.len() == linear,
            plan.wf(),
            tiles_to(plan.input, plan.output),
            comes_from == (|i: int, j: int| tiles(*plan, i, j)),
            forall|i: int|
                0 <= i < linear ==> #[trigger] sources@[i] < plan.input.element_count
                    && comes_from(i, sources@[i] as int),
        decreases plan.output.element_count - linear,
    {
        let source: usize = tiled_position(plan, linear);
        sources.push(source);
        linear = linear + 1;
    }
    plan.move_from(raw, &sources, output, Ghost(comes_from))
}

/// The position that the element at `linear` comes from.
fn tiled_position(plan: &MovePlan, linear: usize) -> (r: usize)
    requires
        plan.wf(),
        tiles_to(plan.input, plan.output),
        linear < plan.output.element_count,
    ensures
        r < plan.input.element_count,
        tiles(*plan, linear as int, r as int),
{
    proof {
        crate::backend::meta::coords_are_within(plan.output.dims(), linear as nat);
    }
    let ghost wanted = plan.out_coords(linear as int);
    let coordinates: [usize; 8] = match plan.output.coordinates(linear) {
        Ok(coordinates) => coordinates,
        Err(_) => [0; 8],
    };
    let mut target: [usize; 8] = [0; 8];
    let mut axis: usize = 0;
    while axis < plan.input.rank
        invariant
            axis <= plan.input.rank == plan.output.rank <= 8,
            tiles_to(plan.input, plan.output),
            crate::backend::meta::as_coords(coordinates, plan.output.rank as int) == wanted,
            crate::backend::meta::coords_within(plan.output.dims(), wanted),
            forall|a: int|
                0 <= a < axis ==> #[trigger] target[a] == coordinates[a] as nat
                    % plan.input.dims()[a] && target[a] < plan.input.shape[a],
        decreases plan.input.rank - axis,
    {
        assert(wanted[axis as int] < plan.output.dims()[axis as int]);
        assert(plan.input.shape[axis as int] > 0);
        assert(plan.input.dims()[axis as int] == plan.input.shape[axis as int]);
        target[axis] = coordinates[axis] % plan.input.shape[axis];
        axis = axis + 1;
    }
    proof {
        let coords = crate::backend::meta::as_coords(target, plan.input.rank as int);
        assert forall|a: int| 0 <= a < plan.input.rank implies #[trigger] coords[a]
            < plan.input.dims()[a] by {
            assert(target[a] < plan.input.shape[a]);
        }
        assert(crate::backend::meta::coords_within(plan.input.dims(), coords));
    }
    match row_major_linear(&plan.input, &target) {
        Ok(position) => {
            proof {
                assert forall|a: int| 0 <= a < plan.input.rank implies #[trigger] plan.in_coords(
                    position as int,
                )[a] == wanted[a] % plan.input.dims()[a] by {
                    assert(target[a] == plan.in_coords(position as int)[a]);
                    assert(wanted[a] == coordinates[a]);
                }
            }
            position
        },
        Err(_) => 0,
    }
}

/// What is wrong with a call of the copy, where anything is.
pub open spec fn copy_fault(ctx: CallContext) -> Option<BackendErr> {
    let input = ctx.inputs[0];
    let output = ctx.outputs[0];
    if ctx.inputs@.len() != 1 || ctx.outputs@.len() != 1 {
        Some(BackendErr::InvalidInput)
    } else {
        match ctx.attr_as::<CopyAttr>() {
            None => Some(BackendErr::InvalidAttr),
            Some(attr) => if attr.flags.0 != 0 {
                Some(BackendErr::InvalidAttr)
            } else if crate::backend::meta::view_fault(input) is Some {
                crate::backend::meta::view_fault(input)
            } else if crate::backend::meta::view_fault(output) is Some {
                crate::backend::meta::view_fault(output)
            } else if input.dtype != output.dtype || element_total(input) != element_total(
                output,
            ) {
                Some(BackendErr::InvalidTensor)
            } else {
                None
            },
        }
    }
}

/// Number of elements of a view.
pub open spec fn element_total(view: crate::backend::meta::BackendTensorView) -> nat {
    crate::shape::product(crate::backend::meta::view_dims(view), 0, view.ndim.0 as int)
}

/// Checks a call of the copy. Where both tensors start at the same address there is
/// nothing to do.
pub fn check_copy(ctx: &CallContext) -> (r: Result<Option<MovePlan>, BackendErr>)
    requires
        ctx.wf(),
    ensures
        match r {
            Ok(Some(plan)) => {
                &&& copy_fault(*ctx) is None
                &&& ctx.inputs[0].data != ctx.outputs[0].data
                &&& plan.of(*ctx)
                &&& plan.input.element_count == plan.output.element_count
            },
            Ok(None) => copy_fault(*ctx) is None && ctx.inputs[0].data == ctx.outputs[0].data,
            Err(err) => copy_fault(*ctx) == Some(err),
        },
{
    ctx.expect_io(1, 1)?;
    let attr: CopyAttr = ctx.read_attr::<CopyAttr>()?;
    if attr.flags.0 != 0 {
        return Err(BackendErr::InvalidAttr);
    }
    let input: TensorMeta = ctx.inputs[0].checked_meta()?;
    let output: TensorMeta = ctx.outputs[0].checked_meta()?;
    if ctx.inputs[0].dtype.0 != ctx.outputs[0].dtype.0 || input.element_count
        != output.element_count {
        return Err(BackendErr::InvalidTensor);
    }
    if ctx.inputs[0].data == ctx.outputs[0].data {
        return Ok(None);
    }
    Ok(Some(MovePlan { input, output, target: ctx.target }))
}

/// Copies: elements keep their position in row-major order.
pub fn run_copy(plan: &MovePlan, raw: &[u8], output: &mut [u8]) -> (r: Result<(), BackendErr>)
    requires
        plan.wf(),
        plan.input.element_count == plan.output.element_count,
        plan.buffers_hold(raw@, old(output)@),
    ensures
        plan.outcome(|i: int, j: int| i == j, raw@, old(output)@, final(output)@, r),
{
    let ghost comes_from = |i: int, j: int| i == j;
    let mut sources: Vec<usize> = Vec::new();
    let mut linear: usize = 0;
    while linear < plan.output.element_count
        invariant
            linear <= plan.output.element_count,
            sources@.len() == linear,
            plan.input.element_count == plan.output.element_count,
            comes_from == (|i: int, j: int| i == j),
            forall|i: int|
                0 <= i < linear ==> #[trigger] sources@[i] < plan.input.element_count
                    && comes_from(i, sources@[i] as int),
        decreases plan.output.element_count - linear,
    {
        sources.push(linear);
        linear = linear + 1;
    }
    plan.move_from(raw, &sources, output, Ghost(comes_from))
}


/// Moved elements are found at their coordinates, and come from the coordinates that the
/// relation gives.
proof fn moved_element(
    plan: MovePlan,
    comes_from: spec_fn(int, int) -> bool,
    raw: Seq<u8>,
    before: Seq<u8>,
    after: Seq<u8>,
    out: Seq<nat>,
) -> (j: nat)
    requires
        plan.wf(),
        crate::backend::logical::spread(plan.output),
        plan.outcome(comes_from, raw, before, after, Ok(())),
        crate::backend::meta::coords_within(plan.output.dims(), out),
    ensures
        j < plan.input.element_count,
        comes_from(
            crate::backend::meta::linear_of(plan.output.dims(), out, plan.output.rank as int) as int,
            j as int,
        ),
        plan.out_coords(
            crate::backend::meta::linear_of(plan.output.dims(), out, plan.output.rank as int) as int,
        ) == out,
        crate::backend::meta::coords_within(plan.input.dims(), plan.in_coords(j as int)),
        crate::backend::logical::at_coords(after, plan.output, out)
            == crate::backend::logical::at_coords(raw, plan.input, plan.in_coords(j as int)),
{
    let sources = choose|sources: Seq<usize>|
        {
            &&& sources.len() == plan.output.element_count
            &&& forall|i: int|
                0 <= i < sources.len() ==> #[trigger] sources[i] < plan.input.element_count
                    && comes_from(i, sources[i] as int)
            &&& #[trigger] crate::backend::logical::scattered(
                plan.output,
                crate::backend::logical::picked(raw, plan.input, sources),
                plan.output.element_count as int,
                before,
                after,
            )
        };
    let i = crate::backend::meta::linear_of(plan.output.dims(), out, plan.output.rank as int);
    crate::backend::logical::written_element_is_found(
        plan.output,
        crate::backend::logical::picked(raw, plan.input, sources),
        before,
        after,
        out,
    );
    crate::backend::meta::coords_survive_linear(plan.output.dims(), out);
    let j = sources[i as int] as nat;
    crate::backend::meta::coords_are_within(plan.input.dims(), j);
    j
}

/// Transposing renames the axes: the element of the output at `out` is the element of the
/// input whose coordinate along axis `permutation[o]` is `out[o]`.
pub proof fn transposed_element(
    plan: MovePlan,
    permutation: Seq<usize>,
    raw: Seq<u8>,
    before: Seq<u8>,
    after: Seq<u8>,
    out: Seq<nat>,
    from: Seq<nat>,
)
    requires
        plan.wf(),
        permutation_of(plan, permutation),
        crate::backend::logical::spread(plan.output),
        plan.outcome(
            |i: int, j: int| transposes(plan, permutation, i, j),
            raw,
            before,
            after,
            Ok(()),
        ),
        crate::backend::meta::coords_within(plan.output.dims(), out),
        from.len() == plan.input.rank,
        forall|o: int|
            0 <= o < permutation.len() ==> from[#[trigger] permutation[o] as int] == out[o],
    ensures
        crate::backend::logical::at_coords(after, plan.output, out)
            == crate::backend::logical::at_coords(raw, plan.input, from),
{
    let relation = |i: int, j: int| transposes(plan, permutation, i, j);
    let j = moved_element(plan, relation, raw, before, after, out);
    crate::uabi::dag::full_order_lists_all(permutation, plan.input.rank as int);
    assert forall|a: int| 0 <= a < from.len() implies plan.in_coords(j as int)[a] == from[a] by {
        assert(crate::uabi::dag::listed(permutation, plan.input.rank as int, a));
        let o = choose|o: int| 0 <= o < plan.input.rank && #[trigger] permutation[o] == a;
        assert(plan.in_coords(j as int)[permutation[o] as int] == out[o]);
    }
    assert(plan.in_coords(j as int) =~= from);
}

/// A checked transposition takes the axes that its attribute names, a negative number
/// counting from the back, and the extents go with them.
pub proof fn transpose_takes_named_axes(
    ctx: CallContext,
    plan: MovePlan,
    permutation: Vec<usize>,
    o: int,
)
    requires
        call_ensures(
            check_transpose,
            (&ctx,),
            Ok::<(MovePlan, Vec<usize>), BackendErr>((plan, permutation)),
        ),
        0 <= o < plan.output.rank,
    ensures
        ({
            let named = ctx.attr_as::<TransposeAttr>()->0.perm[o].0;
            permutation@[o] == (if named < 0 {
                named + plan.input.rank
            } else {
                named as int
            })
        }),
        plan.output.shape[o] == plan.input.shape[permutation@[o] as int],
        forall|p: int| 0 <= p < o ==> permutation@[o] != #[trigger] permutation@[p],
{
    assert(permutation@[o] == taken_axis(
        ctx.attr_as::<TransposeAttr>()->0,
        plan.input.rank as int,
        o,
    ));
}

/// Expanding repeats: shapes are lined up at their last axes, and the element of the output
/// at `out` is that of the input at the same coordinates, but for the axes of extent one,
/// along which it is the same element throughout.
pub proof fn expanded_element(
    plan: MovePlan,
    raw: Seq<u8>,
    before: Seq<u8>,
    after: Seq<u8>,
    out: Seq<nat>,
    from: Seq<nat>,
)
    requires
        plan.wf(),
        expands_to(plan.input.dims(), plan.output.dims()),
        crate::backend::logical::spread(plan.output),
        plan.outcome(|i: int, j: int| expands(plan, i, j), raw, before, after, Ok(())),
        crate::backend::meta::coords_within(plan.output.dims(), out),
        crate::backend::meta::coords_within(plan.input.dims(), from),
        forall|a: int|
            0 <= a < plan.input.rank && plan.input.shape[a] != 1 ==> #[trigger] from[a]
                == out[plan.output.rank - plan.input.rank + a],
    ensures
        crate::backend::logical::at_coords(after, plan.output, out)
            == crate::backend::logical::at_coords(raw, plan.input, from),
{
    let relation = |i: int, j: int| expands(plan, i, j);
    let j = moved_element(plan, relation, raw, before, after, out);
    assert forall|a: int| 0 <= a < from.len() implies plan.in_coords(j as int)[a] == from[a] by {
        assert(from[a] < plan.input.dims()[a]);
    }
    assert(plan.in_coords(j as int) =~= from);
}

/// Tiling lays copies side by side: the element of the output at `out` is that of the input
/// at `from` wherever the two are whole extents of the input apart along every axis.
pub proof fn tiled_element(
    plan: MovePlan,
    raw: Seq<u8>,
    before: Seq<u8>,
    after: Seq<u8>,
    out: Seq<nat>,
    from: Seq<nat>,
    copies: Seq<nat>,
)
    requires
        plan.wf(),
        tiles_to(plan.input, plan.output),
        crate::backend::logical::spread(plan.output),
        plan.outcome(|i: int, j: int| tiles(plan, i, j), raw, before, after, Ok(())),
        crate::backend::meta::coords_within(plan.output.dims(), out),
        crate::backend::meta::coords_within(plan.input.dims(), from),
        forall|a: int|
            0 <= a < plan.input.rank ==> #[trigger] out[a] == from[a] + copies[a]
                * plan.input.shape[a],
    ensures
        crate::backend::logical::at_coords(after, plan.output, out)
            == crate::backend::logical::at_coords(raw, plan.input, from),
{
    let relation = |i: int, j: int| tiles(plan, i, j);
    let j = moved_element(plan, relation, raw, before, after, out);
    assert forall|a: int| 0 <= a < from.len() implies plan.in_coords(j as int)[a] == from[a] by {
        let extent = plan.input.dims()[a] as int;
        assert(from[a] < plan.input.dims()[a]);
        assert(out[a] == from[a] + copies[a] * plan.input.shape[a]);
        let (x, c) = (from[a] as int, copies[a] as int);
        assert((x + c * extent) % extent == x) by (nonlinear_arith)
            requires
                0 <= x < extent,
                c >= 0,
        ;
    }
    assert(plan.in_coords(j as int) =~= from);
}

/// Copying between contiguous tensors copies the bytes as they stand, whatever the shapes.
pub proof fn copied_bytes(plan: MovePlan, raw: Seq<u8>, before: Seq<u8>, after: Seq<u8>, b: int)
    requires
        plan.wf(),
        plan.buffers_hold(raw, before),
        plan.input.element_count == plan.output.element_count,
        plan.input.contiguous(),
        plan.output.contiguous(),
        plan.outcome(|i: int, j: int| i == j, raw, before, after, Ok(())),
        0 <= b < plan.output.element_count * plan.output.element_size,
    ensures
        after[b] == raw[b],
{
    let size = plan.output.element_size as int;
    let relation = |i: int, j: int| i == j;
    let i = b / size;
    let count = plan.output.element_count as int;
    assert(0 <= i < count && i * size <= b < i * size + size) by (nonlinear_arith)
        requires
            i == b / size,
            size > 0,
            0 <= b < count * size,
    ;
    crate::backend::logical::contiguous_is_spread(plan.output);
    crate::backend::meta::contiguous_place(plan.output, i as nat);
    crate::backend::meta::contiguous_place(plan.input, i as nat);
    crate::backend::logical::place_within(plan.output, i as nat, before.len() as int);
    crate::backend::logical::place_within(plan.input, i as nat, raw.len() as int);
    let sources = choose|sources: Seq<usize>|
        {
            &&& sources.len() == plan.output.element_count
            &&& forall|i: int|
                0 <= i < sources.len() ==> #[trigger] sources[i] < plan.input.element_count
                    && relation(i, sources[i] as int)
            &&& #[trigger] crate::backend::logical::scattered(
                plan.output,
                crate::backend::logical::picked(raw, plan.input, sources),
                plan.output.element_count as int,
                before,
                after,
            )
        };
    assert(relation(i, sources[i] as int));
    assert(crate::backend::logical::lasting(plan.output, count, i));
    let written = crate::backend::logical::elem(after, size, i);
    assert(written == crate::backend::logical::elem(raw, size, i));
    assert(written[b - i * size] == after[b]);
}

/// A checked expansion has the shape that its attribute asks for.
pub proof fn expansion_has_its_target_shape(ctx: CallContext, plan: MovePlan, a: int)
    requires
        call_ensures(check_expand, (&ctx,), Ok::<MovePlan, BackendErr>(plan)),
        0 <= a < plan.output.rank,
    ensures
        plan.output.shape[a] == ctx.attr_as::<ExpandAttr>()->0.target_shape[a].0,
{
    let attr = ctx.attr_as::<ExpandAttr>()->0;
    let input = crate::backend::meta::view_dims(ctx.inputs[0]);
    let output = crate::backend::meta::view_dims(ctx.outputs[0]);
    if expand_axes_fault(attr, input, output, a + 1) is Some {
        expand_fault_stays(attr, input, output, a + 1, output.len() as int);
    }
}

/// A checked tiling has every extent of the input times its number of repeats.
pub proof fn tiling_has_repeated_extents(ctx: CallContext, plan: MovePlan, a: int)
    requires
        call_ensures(check_tile, (&ctx,), Ok::<MovePlan, BackendErr>(plan)),
        0 <= a < plan.output.rank,
    ensures
        plan.output.shape[a] == plan.input.shape[a] * ctx.attr_as::<TileAttr>()->0.repeats[a].0,
{
    assert(ctx.attr_as::<TileAttr>()->0.repeats[a].0 != 0);
    assert(plan.output.shape[a] == plan.output.dims()[a]);
    assert(plan.input.shape[a] == plan.input.dims()[a]);
}

} // verus!
