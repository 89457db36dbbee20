//! Operators that pick elements by index.

use crate::backend::call::CallContext;
use crate::backend::logical::{move_elements, row_major_linear, write_logical_bytes};
use crate::backend::meta::{normalize_axis, TensorMeta};
use crate::bytes::{
    high_half, join_halves, low_half, read_word, word_to_signed, words_to_bytes,
};
use crate::uabi::desc::AiDtype;
use crate::uabi::error::BackendErr;
use crate::uabi::kernel::AiTargetHint;
use crate::uabi::kernelattr::{GatherAttr, GatherElementsAttr};
use vstd::prelude::*;

verus! {

/// The index at a place of an index tensor.
pub open spec fn index_value(raw: Seq<u8>, dtype: AiDtype, place: int) -> i64 {
    if dtype.0 == AiDtype::I32 {
        crate::bytes::signed_of_word(crate::bytes::word_at(raw, 4 * place)) as i64
    } else {
        crate::bytes::double_word(
            crate::bytes::word_at(raw, 8 * place),
            crate::bytes::word_at(raw, 8 * place + 4),
        ) as i64
    }
}

/// Elements of this type can be indices; their size follows.
pub open spec fn index_size(dtype: AiDtype) -> Option<int> {
    if dtype.0 == AiDtype::I32 {
        Some(4)
    } else if dtype.0 == AiDtype::I64 {
        Some(8)
    } else {
        None
    }
}

/// What keeps a view from being read as indices.
pub open spec fn index_fault(view: crate::backend::meta::BackendTensorView) -> Option<BackendErr> {
    match index_size(view.dtype) {
        None => Some(BackendErr::UnsupportedDtype),
        Some(size) => if crate::backend::meta::typed_count(view, size, size) is None {
            Some(BackendErr::InvalidTensor)
        } else {
            None
        },
    }
}

/// Checks that a view can be read as indices.
pub fn check_indices(view: &crate::backend::meta::BackendTensorView) -> (r: Result<(), BackendErr>)
    ensures
        r == (match index_fault(*view) {
            None => Ok::<(), BackendErr>(()),
            Some(err) => Err(err),
        }),
{
    if view.dtype.0 == AiDtype::I32 {
        let count: usize = view.typed_len(4, 4)?;
        Ok(())
    } else if view.dtype.0 == AiDtype::I64 {
        let count: usize = view.typed_len(8, 8)?;
        Ok(())
    } else {
        Err(BackendErr::UnsupportedDtype)
    }
}

/// An index tensor whose elements can be read.
pub open spec fn indexes(meta: TensorMeta, dtype: AiDtype) -> bool {
    &&& meta.wf()
    &&& index_size(dtype) == Some(meta.element_size as int)
}

/// Reads the indices of a tensor in row-major order.
pub fn read_indices(raw: &[u8], dtype: AiDtype, meta: &TensorMeta) -> (r: Vec<i64>)
    requires
        indexes(*meta, dtype),
        meta.lies_in(raw@.len() as int / (meta.element_size as int)),
    ensures
        r@.len() == meta.element_count,
        forall|i: int|
            0 <= i < meta.element_count ==> #[trigger] r@[i] == index_value(
                raw@,
                dtype,
                meta.place(i as nat) as int,
            ),
{
    let total: usize = raw.len();
    let mut indices: Vec<i64> = Vec::new();
    let mut linear: usize = 0;
    while linear < meta.element_count
        invariant
            linear <= meta.element_count,
            indices@.len() == linear,
            indexes(*meta, dtype),
            meta.lies_in(raw@.len() as int / (meta.element_size as int)),
            raw@.len() <= usize::MAX,
            forall|i: int|
                0 <= i < linear ==> #[trigger] indices@[i] == index_value(
                    raw@,
                    dtype,
                    meta.place(i as nat) as int,
                ),
        decreases meta.element_count - linear,
    {
        let place: usize = match meta.offset_for_linear(linear) {
            Ok(place) => place,
            Err(_) => 0,
        };
        proof {
            crate::backend::logical::place_within(*meta, linear as nat, raw@.len() as int);
        }
        let value: i64 = if dtype.0 == AiDtype::I32 {
            word_to_signed(read_word(raw, 4 * place)) as i64
        } else {
            join_halves(read_word(raw, 8 * place), read_word(raw, 8 * place + 4)) as i64
        };
        indices.push(value);
        linear = linear + 1;
    }
    indices
}

/// An index counted from the front; a negative one counts from the back.
pub open spec fn counted(index: i64, extent: int) -> Option<int> {
    let position = if index < 0 {
        index + extent
    } else {
        index as int
    };
    if 0 <= position < extent {
        Some(position)
    } else {
        None
    }
}

/// Counts an index from the front.
pub fn normalize_index(index: i64, dimension: usize) -> (r: Result<usize, BackendErr>)
    ensures
        r == (if dimension > i64::MAX {
            Err::<usize, BackendErr>(BackendErr::InvalidTensor)
        } else {
            match counted(index, dimension as int) {
                Some(position) => Ok(position as usize),
                None => Err(BackendErr::InvalidInput),
            }
        }),
{
    if dimension as u64 > i64::MAX as u64 {
        return Err(BackendErr::InvalidTensor);
    }
    let extent: i64 = dimension as i64;
    let position: i64 = if index < 0 {
        index + extent
    } else {
        index
    };
    if position < 0 || position >= extent {
        return Err(BackendErr::InvalidInput);
    }
    Ok(position as usize)
}

/// A checked gather.
pub struct GatherPlan {
    /// The data.
    pub data: TensorMeta,
    /// The indices.
    pub indices: TensorMeta,
    /// The output.
    pub output: TensorMeta,
    /// Element type of the indices.
    pub index_dtype: AiDtype,
    /// The axis that is indexed.
    pub axis: usize,
    /// Where to run.
    pub target: AiTargetHint,
}

impl GatherPlan {
    /// Elements can be moved one by one, and the axis exists.
    pub open spec fn wf(self) -> bool {
        &&& self.data.wf()
        &&& self.output.wf()
        &&& indexes(self.indices, self.index_dtype)
        &&& self.data.element_size == self.output.element_size
        &&& crate::backend::logical::movable(self.output.element_size as int)
        &&& self.axis < self.data.rank
        &&& self.data.shape[self.axis as int] <= u32::MAX
    }

    /// The plan is that of a call.
    pub open spec fn of(self, ctx: CallContext) -> bool {
        &&& self.wf()
        &&& crate::backend::call::checked(ctx.inputs[0], self.data)
        &&& crate::backend::call::checked(ctx.inputs[1], self.indices)
        &&& crate::backend::call::checked(ctx.outputs[0], self.output)
        &&& self.index_dtype == ctx.inputs[1].dtype
        &&& self.target == ctx.target
    }

    /// The buffers hold the tensors.
    pub open spec fn buffers_hold(self, raw: Seq<u8>, raw_indices: Seq<u8>, output: Seq<u8>) -> bool {
        &&& self.data.lies_in(raw.len() as int / (self.data.element_size as int))
        &&& self.indices.lies_in(raw_indices.len() as int / (self.indices.element_size as int))
        &&& self.output.lies_in(output.len() as int / (self.output.element_size as int))
    }

    /// Coordinates of output position `i`.
    pub open spec fn out_coords(self, i: int) -> Seq<nat> {
        crate::backend::meta::coords_of(self.output.dims(), i as nat)
    }

    /// Coordinates of data position `j`.
    pub open spec fn data_coords(self, j: int) -> Seq<nat> {
        crate::backend::meta::coords_of(self.data.dims(), j as nat)
    }

    /// What running the plan does: `chosen` gives the position along the indexed axis that
    /// an output position asks for, `comes_from` the whole relation. An index out of range
    /// is refused, and so are tensors whose bytes cannot be counted.
    pub open spec fn outcome(
        self,
        chosen: spec_fn(int) -> Option<int>,
        comes_from: spec_fn(int, int) -> bool,
        raw: Seq<u8>,
        before: Seq<u8>,
        after: Seq<u8>,
        r: Result<(), BackendErr>,
    ) -> bool {
        let all_in_range = forall|i: int|
            0 <= i < self.output.element_count ==> #[trigger] chosen(i) is Some;
        match r {
            Ok(_) => {
                &&& crate::backend::logical::countable(self.data)
                &&& crate::backend::logical::countable(self.output)
                &&& all_in_range
                &&& self.picks(comes_from, raw, before, after)
            },
            Err(err) => {
                &&& after == before
                &&& if !crate::backend::logical::countable(self.data) {
                    err == BackendErr::InvalidTensor
                } else if !all_in_range {
                    err == BackendErr::InvalidInput
                } else {
                    err == BackendErr::InvalidTensor && !crate::backend::logical::countable(
                        self.output,
                    )
                }
            },
        }
    }

    /// Every element of the output comes from the position of the data that `comes_from`
    /// relates to its own.
    pub open spec fn picks(
        self,
        comes_from: spec_fn(int, int) -> bool,
        raw: Seq<u8>,
        before: Seq<u8>,
        after: Seq<u8>,
    ) -> bool {
        exists|sources: Seq<usize>|
            {
                &&& sources.len() == self.output.element_count
                &&& forall|i: int|
                    0 <= i < sources.len() ==> #[trigger] sources[i] < self.data.element_count
                        && comes_from(i, sources[i] as int)
                &&& #[trigger] crate::backend::logical::scattered(
                    self.output,
                    crate::backend::logical::picked(raw, self.data, sources),
                    self.output.element_count as int,
                    before,
                    after,
                )
            }
    }

    /// Whether the bytes of the data can be counted.
    fn data_countable(&self) -> (r: bool)
        ensures
            r == crate::backend::logical::countable(self.data),
    {
        self.data.element_count.checked_mul(self.data.element_size).is_some()
    }
}

/// What keeps an attribute from naming an axis.
pub open spec fn axis_fault(axis: crate::uabi::types::TensorAxis, rank: int) -> Option<BackendErr> {
    if rank == 0 || rank > 8 {
        Some(BackendErr::InvalidTensor)
    } else if 0 <= crate::backend::meta::axis_of(axis, rank) < rank {
        None
    } else {
        Some(BackendErr::InvalidAttr)
    }
}

/// Extent of output axis `o` of a gather: the axes of the indices stand in for the indexed
/// axis.
pub open spec fn gathered_extent(data: Seq<nat>, indices: Seq<nat>, axis: int, o: int) -> nat {
    if o < axis {
        data[o]
    } else if o < axis + indices.len() {
        indices[o - axis]
    } else {
        data[o - indices.len() + 1]
    }
}

/// The output has the shape of a gather.
pub open spec fn gathers_to(
    data: Seq<nat>,
    indices: Seq<nat>,
    output: Seq<nat>,
    axis: int,
) -> bool {
    &&& output.len() == data.len() - 1 + indices.len()
    &&& forall|o: int|
        0 <= o < output.len() ==> #[trigger] output[o] == gathered_extent(data, indices, axis, o)
}

/// What is wrong with a call of the gather, where anything is.
pub open spec fn gather_fault(ctx: CallContext) -> Option<BackendErr> {
    let data = ctx.inputs[0];
    let indices = ctx.inputs[1];
    let output = ctx.outputs[0];
    if crate::backend::transform::io_fault(ctx, 2, 1) is Some {
        crate::backend::transform::io_fault(ctx, 2, 1)
    } else {
        match ctx.attr_as::<GatherAttr>() {
            None => Some(BackendErr::InvalidAttr),
            Some(attr) => if crate::backend::meta::view_fault(data) is Some {
                crate::backend::meta::view_fault(data)
            } else if crate::backend::meta::view_fault(indices) is Some {
                crate::backend::meta::view_fault(indices)
            } else if crate::backend::meta::view_fault(output) is Some {
                crate::backend::meta::view_fault(output)
            } else if data.dtype != output.dtype {
                Some(BackendErr::UnsupportedDtype)
            } else if axis_fault(attr.axis, data.ndim.0 as int) is Some {
                axis_fault(attr.axis, data.ndim.0 as int)
            } else if !gathers_to(
                crate::backend::meta::view_dims(data),
                crate::backend::meta::view_dims(indices),
                crate::backend::meta::view_dims(output),
                crate::backend::meta::axis_of(attr.axis, data.ndim.0 as int),
            ) {
                Some(BackendErr::InvalidTensor)
            } else {
                index_fault(indices)
            },
        }
    }
}

/// Checks a call of the gather.
pub fn check_gather(ctx: &CallContext) -> (r: Result<GatherPlan, BackendErr>)
    requires
        ctx.wf(),
    ensures
        match r {
            Ok(plan) => {
                &&& gather_fault(*ctx) is None
                &&& plan.of(*ctx)
                &&& plan.axis == crate::backend::meta::axis_of(
                    ctx.attr_as::<GatherAttr>()->0.axis,
                    plan.data.rank as int,
                )
                &&& gathers_to(
                    plan.data.dims(),
                    plan.indices.dims(),
                    plan.output.dims(),
                    plan.axis as int,
                )
            },
            Err(err) => gather_fault(*ctx) == Some(err),
        },
{
    ctx.expect_io(2, 1)?;
    ctx.reject_input_output_alias()?;
    let attr: GatherAttr = ctx.read_attr::<GatherAttr>()?;
    let data: TensorMeta = ctx.inputs[0].checked_meta()?;
    let indices: TensorMeta = ctx.inputs[1].checked_meta()?;
    let output: TensorMeta = ctx.outputs[0].checked_meta()?;
    if ctx.inputs[0].dtype.0 != ctx.outputs[0].dtype.0 {
        return Err(BackendErr::UnsupportedDtype);
    }
    let axis: usize = normalize_axis(attr.axis, data.rank)?;
    if output.rank != data.rank - 1 + indices.rank {
        return Err(BackendErr::InvalidTensor);
    }
    let ghost from = data.dims();
    let ghost by = indices.dims();
    let ghost to = output.dims();
    let mut o: usize = 0;
    while o < output.rank
        invariant
            o <= output.rank == data.rank - 1 + indices.rank,
            output.rank <= 8,
            data.rank <= 8,
            indices.rank <= 8,
            axis < data.rank,
            from == data.dims(),
            by == indices.dims(),
            to == output.dims(),
            !gathers_to(from, by, to, axis as int) ==> gather_fault(*ctx) == Some(
                BackendErr::InvalidTensor,
            ),
            forall|p: int|
                0 <= p < o ==> #[trigger] to[p] == gathered_extent(from, by, axis as int, p),
        decreases output.rank - o,
    {
        let expected: usize = if o < axis {
            data.shape[o]
        } else if o < axis + indices.rank {
            indices.shape[o - axis]
        } else {
            data.shape[o - indices.rank + 1]
        };
        if output.shape[o] != expected {
            assert(to[o as int] != gathered_extent(from, by, axis as int, o as int));
            return Err(BackendErr::InvalidTensor);
        }
        o = o + 1;
    }
    check_indices(&ctx.inputs[1])?;
    assert(data.shape[axis as int] == ctx.inputs[0].shape[axis as int].0);
    Ok(
        GatherPlan {
            data,
            indices,
            output,
            index_dtype: ctx.inputs[1].dtype,
            axis,
            target: ctx.target,
        },
    )
}

/// Coordinates of the index that output position `i` of a gather asks for.
pub open spec fn index_coords(plan: GatherPlan, i: int) -> Seq<nat> {
    Seq::new(plan.indices.rank as nat, |a: int| plan.out_coords(i)[plan.axis + a])
}

/// The position along the indexed axis that output position `i` of a gather asks for.
pub open spec fn gather_chosen(plan: GatherPlan, raw_indices: Seq<u8>, i: int) -> Option<int> {
    let linear = crate::backend::meta::linear_of(
        plan.indices.dims(),
        index_coords(plan, i),
        plan.indices.rank as int,
    );
    counted(
        index_value(raw_indices, plan.index_dtype, plan.indices.place(linear) as int),
        plan.data.shape[plan.axis as int] as int,
    )
}

/// Position `j` of the data goes to position `i` of a gather.
pub open spec fn gathers(plan: GatherPlan, raw_indices: Seq<u8>, i: int, j: int) -> bool {
    forall|a: int|
        0 <= a < plan.data.rank ==> #[trigger] plan.data_coords(j)[a] == (if a < plan.axis {
            plan.out_coords(i)[a] as int
        } else if a == plan.axis {
            gather_chosen(plan, raw_indices, i)->0
        } else {
            plan.out_coords(i)[a + plan.indices.rank - 1] as int
        })
}

/// The position that output position `linear` of a gather comes from.
fn gathered_position(
    plan: &GatherPlan,
    indices: &Vec<i64>,
    linear: usize,
    Ghost(raw_indices): Ghost<Seq<u8>>,
) -> (r: Result<usize, BackendErr>)
    requires
        plan.wf(),
        gathers_to(plan.data.dims(), plan.indices.dims(), plan.output.dims(), plan.axis as int),
        linear < plan.output.element_count,
        indices@.len() == plan.indices.element_count,
        forall|i: int|
            0 <= i < indices@.len() ==> #[trigger] indices@[i] == index_value(
                raw_indices,
                plan.index_dtype,
                plan.indices.place(i as nat) as int,
            ),
    ensures
        match r {
            Ok(position) => {
                &&& gather_chosen(*plan, raw_indices, linear as int) is Some
                &&& position < plan.data.element_count
                &&& gathers(*plan, raw_indices, linear as int, position as int)
            },
            Err(err) => err == BackendErr::InvalidInput && gather_chosen(
                *plan,
                raw_indices,
                linear as int,
            ) is None,
        },
{
    let axis: usize = plan.axis;
    let index_rank: usize = plan.indices.rank;
    let ghost wanted = plan.out_coords(linear as int);
    let ghost out_dims = plan.output.dims();
    proof {
        crate::backend::meta::coords_are_within(out_dims, linear as nat);
    }
    let coordinates: [usize; 8] = match plan.output.coordinates(linear) {
        Ok(coordinates) => coordinates,
        Err(_) => [0; 8],
    };
    let mut index_at: [usize; 8] = [0; 8];
    let mut a: usize = 0;
    while a < index_rank
        invariant
            a <= index_rank == plan.indices.rank,
            plan.indices.rank <= 8,
            axis + index_rank <= plan.output.rank <= 8,
            forall|b: int| 0 <= b < a ==> #[trigger] index_at[b] == coordinates[axis + b],
        decreases index_rank - a,
    {
        index_at[a] = coordinates[axis + a];
        a = a + 1;
    }
    proof {
        let coords = crate::backend::meta::as_coords(index_at, index_rank as int);
        assert forall|b: int| 0 <= b < index_rank implies #[trigger] coords[b]
            < plan.indices.dims()[b] by {
            assert(index_at[b] == coordinates[axis + b]);
            assert(wanted[axis + b] == coordinates[axis + b]);
            assert(wanted[axis + b] < out_dims[axis + b]);
            assert(out_dims[axis + b] == gathered_extent(
                plan.data.dims(),
                plan.indices.dims(),
                axis as int,
                axis + b,
            ));
        }
        assert(crate::backend::meta::coords_within(plan.indices.dims(), coords));
        assert(coords =~= index_coords(*plan, linear as int)) by {
            assert forall|b: int| 0 <= b < index_rank implies coords[b] == index_coords(
                *plan,
                linear as int,
            )[b] by {
                assert(wanted[axis + b] == coordinates[axis + b]);
            }
        }
    }
    let index_linear: usize = match row_major_linear(&plan.indices, &index_at) {
        Ok(position) => position,
        Err(_) => 0,
    };
    assert(index_linear < plan.indices.element_count);
    let position: usize = match normalize_index(indices[index_linear], plan.data.shape[axis]) {
        Ok(position) => position,
        Err(err) => {
            return Err(err);
        },
    };
    let mut data_at: [usize; 8] = [0; 8];
    let mut a: usize = 0;
    while a < plan.data.rank
        invariant
            a <= plan.data.rank <= 8,
            axis == plan.axis,
            axis < plan.data.rank,
            index_rank == plan.indices.rank,
            plan.output.rank == plan.data.rank - 1 + index_rank,
            plan.output.rank <= 8,
            forall|b: int|
                0 <= b < a ==> #[trigger] data_at[b] == (if b < axis {
                    coordinates[b]
                } else if b == axis {
                    position
                } else {
                    coordinates[b + index_rank - 1]
                }),
        decreases plan.data.rank - a,
    {
        if a < axis {
            data_at[a] = coordinates[a];
        } else if a == axis {
            data_at[a] = position;
        } else {
            data_at[a] = coordinates[a + index_rank - 1];
        }
        a = a + 1;
    }
    proof {
        let coords = crate::backend::meta::as_coords(data_at, plan.data.rank as int);
        assert forall|b: int| 0 <= b < plan.data.rank implies #[trigger] coords[b]
            < plan.data.dims()[b] by {
            let at = if b < axis {
                b
            } else {
                b + index_rank - 1
            };
            if b != axis {
                assert(wanted[at] == coordinates[at]);
                assert(wanted[at] < out_dims[at]);
                assert(out_dims[at] == gathered_extent(
                    plan.data.dims(),
                    plan.indices.dims(),
                    axis as int,
                    at,
                ));
            }
            assert(data_at[b] == coords[b]);
        }
        assert(crate::backend::meta::coords_within(plan.data.dims(), coords));
    }
    match row_major_linear(&plan.data, &data_at) {
        Ok(source) => {
            proof {
                assert forall|b: int| 0 <= b < plan.data.rank implies #[trigger] plan.data_coords(
                    source as int,
                )[b] == (if b < plan.axis {
                    wanted[b] as int
                } else if b == plan.axis {
                    gather_chosen(*plan, raw_indices, linear as int)->0
                } else {
                    wanted[b + plan.indices.rank - 1] as int
                }) by {
                    assert(data_at[b] == plan.data_coords(source as int)[b]);
                    if b < axis {
                        assert(wanted[b] == coordinates[b]);
                    } else if b > axis {
                        assert(wanted[b + index_rank - 1] == coordinates[b + index_rank - 1]);
                    }
                }
            }
            Ok(source)
        },
        Err(_) => Ok(0),
    }
}

/// Gathers: the indices pick positions along one axis of the data.
pub fn run_gather(plan: &GatherPlan, raw: &[u8], raw_indices: &[u8], output: &mut [u8]) -> (r:
    Result<(), BackendErr>)
    requires
        plan.wf(),
        gathers_to(plan.data.dims(), plan.indices.dims(), plan.output.dims(), plan.axis as int),
        plan.buffers_hold(raw@, raw_indices@, old(output)@),
    ensures
        plan.outcome(
            |i: int| gather_chosen(*plan, raw_indices@, i),
            |i: int, j: int| gathers(*plan, raw_indices@, i, j),
            raw@,
            old(output)@,
            final(output)@,
            r,
        ),
{
    let ghost chosen = |i: int| gather_chosen(*plan, raw_indices@, i);
    let ghost comes_from = |i: int, j: int| gathers(*plan, raw_indices@, i, j);
    let indices: Vec<i64> = read_indices(raw_indices, plan.index_dtype, &plan.indices);
    if !plan.data_countable() {
        return Err(BackendErr::InvalidTensor);
    }
    let mut sources: Vec<usize> = Vec::new();
    let mut linear: usize = 0;
    while linear < plan.output.element_count
        invariant
            linear <= plan.output.element_count,
            sources@.len() == linear,
            plan.wf(),
            gathers_to(
                plan.data.dims(),
                plan.indices.dims(),
                plan.output.dims(),
                plan.axis as int,
            ),
            crate::backend::logical::countable(plan.data),
            output@ == old(output)@,
            chosen == (|i: int| gather_chosen(*plan, raw_indices@, i)),
            comes_from == (|i: int, j: int| gathers(*plan, raw_indices@, i, j)),
            indices@.len() == plan.indices.element_count,
            forall|i: int|
                0 <= i < indices@.len() ==> #[trigger] indices@[i] == index_value(
                    raw_indices@,
                    plan.index_dtype,
                    plan.indices.place(i as nat) as int,
                ),
            forall|i: int| 0 <= i < linear ==> #[trigger] chosen(i) is Some,
            forall|i: int|
                0 <= i < linear ==> #[trigger] sources@[i] < plan.data.element_count
                    && comes_from(i, sources@[i] as int),
        decreases plan.output.element_count - linear,
    {
        match gathered_position(plan, &indices, linear, Ghost(raw_indices@)) {
            Ok(source) => {
                sources.push(source);
            },
            Err(err) => {
                assert(chosen(linear as int) is None);
                return Err(err);
            },
        }
        linear = linear + 1;
    }
    move_elements(raw, &plan.data, &sources, output, &plan.output, plan.target)
}

/// The output has the shape of the indices, which fit in the data but for the indexed axis.
pub open spec fn elements_fit(data: Seq<nat>, indices: Seq<nat>, axis: int) -> bool {
    forall|a: int| 0 <= a < data.len() && a != axis ==> #[trigger] indices[a] <= data[a]
}

/// What is wrong with a call of the element gather, where anything is.
pub open spec fn gather_elements_fault(ctx: CallContext) -> Option<BackendErr> {
    let data = ctx.inputs[0];
    let indices = ctx.inputs[1];
    let output = ctx.outputs[0];
    if crate::backend::transform::io_fault(ctx, 2, 1) is Some {
        crate::backend::transform::io_fault(ctx, 2, 1)
    } else {
        match ctx.attr_as::<GatherElementsAttr>() {
            None => Some(BackendErr::InvalidAttr),
            Some(attr) => if crate::backend::meta::view_fault(data) is Some {
                crate::backend::meta::view_fault(data)
            } else if crate::backend::meta::view_fault(indices) is Some {
                crate::backend::meta::view_fault(indices)
            } else if crate::backend::meta::view_fault(output) is Some {
                crate::backend::meta::view_fault(output)
            } else if data.dtype != output.dtype || data.ndim != indices.ndim
                || crate::backend::meta::view_dims(output) != crate::backend::meta::view_dims(
                indices,
            ) {
                Some(BackendErr::InvalidTensor)
            } else if axis_fault(attr.axis, data.ndim.0 as int) is Some {
                axis_fault(attr.axis, data.ndim.0 as int)
            } else if !elements_fit(
                crate::backend::meta::view_dims(data),
                crate::backend::meta::view_dims(indices),
                crate::backend::meta::axis_of(attr.axis, data.ndim.0 as int),
            ) {
                Some(BackendErr::InvalidTensor)
            } else {
                index_fault(indices)
            },
        }
    }
}

/// Whether two tensors have the same shape.
pub fn same_shape(a: &TensorMeta, b: &TensorMeta) -> (r: bool)
    requires
        a.rank <= 8,
        b.rank <= 8,
    ensures
        r == (a.dims() == b.dims()),
{
    if a.rank != b.rank {
        assert(a.dims().len() != b.dims().len());
        return false;
    }
    let mut axis: usize = 0;
    while axis < a.rank
        invariant
            axis <= a.rank == b.rank <= 8,
            forall|i: int| 0 <= i < axis ==> #[trigger] a.dims()[i] == b.dims()[i],
        decreases a.rank - axis,
    {
        if a.shape[axis] != b.shape[axis] {
            assert(a.dims()[axis as int] != b.dims()[axis as int]);
            return false;
        }
        axis = axis + 1;
    }
    assert(a.dims() =~= b.dims());
    true
}

/// The shapes are those of an element gather.
pub open spec fn elements_plan(plan: GatherPlan) -> bool {
    &&& plan.output.dims() == plan.indices.dims()
    &&& plan.indices.rank == plan.data.rank
    &&& elements_fit(plan.data.dims(), plan.indices.dims(), plan.axis as int)
}

/// Checks a call of the element gather.
pub fn check_gather_elements(ctx: &CallContext) -> (r: Result<GatherPlan, BackendErr>)
    requires
        ctx.wf(),
    ensures
        match r {
            Ok(plan) => {
                &&& gather_elements_fault(*ctx) is None
                &&& plan.of(*ctx)
                &&& plan.axis == crate::backend::meta::axis_of(
                    ctx.attr_as::<GatherElementsAttr>()->0.axis,
                    plan.data.rank as int,
                )
                &&& elements_plan(plan)
            },
            Err(err) => gather_elements_fault(*ctx) == Some(err),
        },
{
    ctx.expect_io(2, 1)?;
    ctx.reject_input_output_alias()?;
    let attr: GatherElementsAttr = ctx.read_attr::<GatherElementsAttr>()?;
    let data: TensorMeta = ctx.inputs[0].checked_meta()?;
    let indices: TensorMeta = ctx.inputs[1].checked_meta()?;
    let output: TensorMeta = ctx.outputs[0].checked_meta()?;
    if ctx.inputs[0].dtype.0 != ctx.outputs[0].dtype.0 || data.rank != indices.rank
        || !same_shape(&output, &indices) {
        return Err(BackendErr::InvalidTensor);
    }
    let axis: usize = normalize_axis(attr.axis, data.rank)?;
    let ghost from = data.dims();
    let ghost by = indices.dims();
    let mut a: usize = 0;
    while a < data.rank
        invariant
            a <= data.rank == indices.rank,
            data.rank <= 8,
            from == data.dims(),
            by == indices.dims(),
            !elements_fit(from, by, axis as int) ==> gather_elements_fault(*ctx) == Some(
                BackendErr::InvalidTensor,
            ),
            forall|b: int| 0 <= b < a && b != axis ==> #[trigger] by[b] <= from[b],
        decreases data.rank - a,
    {
        if a != axis && indices.shape[a] > data.shape[a] {
            assert(by[a as int] > from[a as int]);
            return Err(BackendErr::InvalidTensor);
        }
        a = a + 1;
    }
    check_indices(&ctx.inputs[1])?;
    assert(data.shape[axis as int] == ctx.inputs[0].shape[axis as int].0);
    Ok(
        GatherPlan {
            data,
            indices,
            output,
            index_dtype: ctx.inputs[1].dtype,
            axis,
            target: ctx.target,
        },
    )
}

/// The position along the indexed axis that output position `i` of an element gather asks
/// for.
pub open spec fn element_chosen(plan: GatherPlan, raw_indices: Seq<u8>, i: int) -> Option<int> {
    counted(
        index_value(raw_indices, plan.index_dtype, plan.indices.place(i as nat) as int),
        plan.data.shape[plan.axis as int] as int,
    )
}

/// Position `j` of the data goes to position `i` of an element gather.
pub open spec fn gathers_element(plan: GatherPlan, raw_indices: Seq<u8>, i: int, j: int) -> bool {
    forall|a: int|
        0 <= a < plan.data.rank ==> #[trigger] plan.data_coords(j)[a] == (if a == plan.axis {
            element_chosen(plan, raw_indices, i)->0
        } else {
            plan.out_coords(i)[a] as int
        })
}

/// The position that output position `linear` of an element gather comes from.
fn element_position(
    plan: &GatherPlan,
    index: i64,
    linear: usize,
    Ghost(raw_indices): Ghost<Seq<u8>>,
) -> (r: Result<usize, BackendErr>)
    requires
        plan.wf(),
        elements_plan(*plan),
        linear < plan.output.element_count,
        index == index_value(
            raw_indices,
            plan.index_dtype,
            plan.indices.place(linear as nat) as int,
        ),
    ensures
        match r {
            Ok(position) => {
                &&& element_chosen(*plan, raw_indices, linear as int) is Some
                &&& position < plan.data.element_count
                &&& gathers_element(*plan, raw_indices, linear as int, position as int)
            },
            Err(err) => err == BackendErr::InvalidInput && element_chosen(
                *plan,
                raw_indices,
                linear as int,
            ) is None,
        },
{
    let ghost wanted = plan.out_coords(linear as int);
    proof {
        crate::backend::meta::coords_are_within(plan.output.dims(), linear as nat);
    }
    let mut at: [usize; 8] = match plan.output.coordinates(linear) {
        Ok(coordinates) => coordinates,
        Err(_) => [0; 8],
    };
    let ghost coordinates = at;
    assert(plan.output.dims().len() == plan.indices.dims().len());
    let position: usize = match normalize_index(index, plan.data.shape[plan.axis]) {
        Ok(position) => position,
        Err(err) => {
            return Err(err);
        },
    };
    at[plan.axis] = position;
    proof {
        let coords = crate::backend::meta::as_coords(at, plan.data.rank as int);
        assert forall|a: int| 0 <= a < plan.data.rank implies #[trigger] coords[a]
            < plan.data.dims()[a] by {
            if a != plan.axis {
                assert(wanted[a] == coordinates[a]);
                assert(wanted[a] < plan.output.dims()[a]);
                assert(plan.indices.dims()[a] <= plan.data.dims()[a]);
            }
        }
        assert(crate::backend::meta::coords_within(plan.data.dims(), coords));
    }
    match row_major_linear(&plan.data, &at) {
        Ok(source) => {
            proof {
                assert forall|a: int| 0 <= a < plan.data.rank implies #[trigger] plan.data_coords(
                    source as int,
                )[a] == (if a == plan.axis {
                    element_chosen(*plan, raw_indices, linear as int)->0
                } else {
                    wanted[a] as int
                }) by {
                    assert(at[a] == plan.data_coords(source as int)[a]);
                    assert(wanted[a] == coordinates[a]);
                }
            }
            Ok(source)
        },
        Err(_) => Ok(0),
    }
}

/// Gathers elements: each index picks, along one axis, the element for its own position.
pub fn run_gather_elements(
    plan: &GatherPlan,
    raw: &[u8],
    raw_indices: &[u8],
    output: &mut [u8],
) -> (r: Result<(), BackendErr>)
    requires
        plan.wf(),
        elements_plan(*plan),
        plan.buffers_hold(raw@, raw_indices@, old(output)@),
    ensures
        plan.outcome(
            |i: int| element_chosen(*plan, raw_indices@, i),
            |i: int, j: int| gathers_element(*plan, raw_indices@, i, j),
            raw@,
            old(output)@,
            final(output)@,
            r,
        ),
{
    let ghost chosen = |i: int| element_chosen(*plan, raw_indices@, i);
    let ghost comes_from = |i: int, j: int| gathers_element(*plan, raw_indices@, i, j);
    let indices: Vec<i64> = read_indices(raw_indices, plan.index_dtype, &plan.indices);
    if !plan.data_countable() {
        return Err(BackendErr::InvalidTensor);
    }
    assert(plan.output.dims().len() == plan.indices.dims().len());
    assert(plan.output.element_count == plan.indices.element_count);
    let mut sources: Vec<usize> = Vec::new();
    let mut linear: usize = 0;
    while linear < plan.output.element_count
        invariant
            linear <= plan.output.element_count,
            plan.output.element_count == plan.indices.element_count,
            sources@.len() == linear,
            plan.wf(),
            elements_plan(*plan),
            crate::backend::logical::countable(plan.data),
            output@ == old(output)@,
            chosen == (|i: int| element_chosen(*plan, raw_indices@, i)),
            comes_from == (|i: int, j: int| gathers_element(*plan, raw_indices@, i, j)),
            indices@.len() == plan.indices.element_count,
            forall|i: int|
                0 <= i < indices@.len() ==> #[trigger] indices@[i] == index_value(
                    raw_indices@,
                    plan.index_dtype,
                    plan.indices.place(i as nat) as int,
                ),
            forall|i: int| 0 <= i < linear ==> #[trigger] chosen(i) is Some,
            forall|i: int|
                0 <= i < linear ==> #[trigger] sources@[i] < plan.data.element_count
                    && comes_from(i, sources@[i] as int),
        decreases plan.output.element_count - linear,
    {
        match element_position(plan, indices[linear], linear, Ghost(raw_indices@)) {
            Ok(source) => {
                sources.push(source);
            },
            Err(err) => {
                assert(chosen(linear as int) is None);
                return Err(err);
            },
        }
        linear = linear + 1;
    }
    move_elements(raw, &plan.data, &sources, output, &plan.output, plan.target)
}

/// A signed number survives the way through two words.
pub proof fn long_survives_words(v: i64)
    ensures
        crate::bytes::double_word(
            crate::bytes::low_word(v as u64),
            crate::bytes::high_word(v as u64),
        ) as i64 == v,
{
    crate::bytes::double_word_of_halves(v as u64);
    assert((v as u64) as i64 == v) by (bit_vector);
}

/// Indices were written in row-major order; nothing else changed.
pub open spec fn indices_written(
    indices: Seq<i64>,
    meta: TensorMeta,
    before: Seq<u8>,
    after: Seq<u8>,
) -> bool {
    &&& after.len() == before.len()
    &&& forall|i: int|
        0 <= i < meta.element_count && #[trigger] crate::backend::logical::lasting(
            meta,
            meta.element_count as int,
            i,
        ) ==> index_value(after, AiDtype(AiDtype::I64), meta.place(i as nat) as int) == indices[i]
    &&& forall|b: int|
        0 <= b < after.len() && crate::backend::logical::untouched(
            meta,
            meta.element_count as int,
            b,
        ) ==> #[trigger] after[b] == before[b]
}

/// The words of indices: two for each, low half first.
pub open spec fn index_words(indices: Seq<i64>) -> Seq<u32> {
    Seq::new(
        2 * indices.len(),
        |k: int|
            if k % 2 == 0 {
                crate::bytes::low_word(indices[k / 2] as u64)
            } else {
                crate::bytes::high_word(indices[k / 2] as u64)
            },
    )
}

/// An index is read back from its own bytes, wherever they stand.
proof fn index_survives_bytes(indices: Seq<i64>, buffer: Seq<u8>, i: int, p: int)
    requires
        0 <= i < indices.len(),
        0 <= p,
        8 * p + 8 <= buffer.len(),
        crate::backend::logical::elem(buffer, 8, p) == crate::backend::logical::elem(
            crate::bytes::bytes_of_words(index_words(indices)),
            8,
            i,
        ),
    ensures
        index_value(buffer, AiDtype(AiDtype::I64), p) == indices[i],
{
    let words = index_words(indices);
    let bytes = crate::bytes::bytes_of_words(words);
    words_move(buffer, bytes, p, i);
    word_kept(words, 2 * i);
    word_kept(words, 2 * i + 1);
    long_survives_words(indices[i]);
}

/// The words of an element are the same wherever it stands.
proof fn words_move(a: Seq<u8>, b: Seq<u8>, p: int, i: int)
    requires
        0 <= i,
        8 * i + 8 <= b.len(),
        0 <= p,
        8 * p + 8 <= a.len(),
        crate::backend::logical::elem(a, 8, p) == crate::backend::logical::elem(b, 8, i),
    ensures
        crate::bytes::word_at(a, 8 * p) == crate::bytes::word_at(b, 8 * i),
        crate::bytes::word_at(a, 8 * p + 4) == crate::bytes::word_at(b, 8 * i + 4),
{
    let to = crate::backend::logical::elem(a, 8, p);
    let from = crate::backend::logical::elem(b, 8, i);
    assert(to[0] == from[0] && to[1] == from[1] && to[2] == from[2] && to[3] == from[3]);
    assert(to[4] == from[4] && to[5] == from[5] && to[6] == from[6] && to[7] == from[7]);
}

/// A word is found among the bytes of its words.
proof fn word_kept(words: Seq<u32>, k: int)
    requires
        0 <= k < words.len(),
    ensures
        crate::bytes::word_at(crate::bytes::bytes_of_words(words), 4 * k) == words[k],
{
    crate::bytes::words_survive_bytes(words);
    assert(crate::bytes::words_at(
        crate::bytes::bytes_of_words(words),
        0,
        words.len(),
    )[k] == words[k]);
}

/// Writes 64-bit indices to a tensor in row-major order. As many indices are needed as the
/// tensor has elements.
pub fn write_indices(indices: &[i64], output: &mut [u8], meta: &TensorMeta) -> (r: Result<
    (),
    BackendErr,
>)
    requires
        meta.wf(),
        meta.element_size == 8,
        meta.lies_in(old(output)@.len() as int / 8),
    ensures
        match r {
            Ok(_) => {
                &&& crate::backend::logical::countable(*meta)
                &&& indices@.len() == meta.element_count
                &&& indices_written(indices@, *meta, old(output)@, final(output)@)
            },
            Err(err) => {
                &&& err == BackendErr::InvalidTensor
                &&& !crate::backend::logical::countable(*meta) || indices@.len()
                    != meta.element_count
                &&& final(output)@ == old(output)@
            },
        },
{
    let count: usize = indices.len();
    if count != meta.element_count || count.checked_mul(meta.element_size).is_none() {
        return Err(BackendErr::InvalidTensor);
    }
    let mut words: Vec<u32> = Vec::new();
    let mut i: usize = 0;
    while i < count
        invariant
            i <= count == indices@.len(),
            words@ == index_words(indices@.subrange(0, i as int)),
        decreases count - i,
    {
        let value: u64 = indices[i] as u64;
        words.push(low_half(value));
        words.push(high_half(value));
        proof {
            let longer = index_words(indices@.subrange(0, i + 1));
            assert(words@ =~= longer) by {
                assert forall|k: int| 0 <= k < longer.len() implies words@[k] == longer[k] by {
                    if k < 2 * i {
                        assert(index_words(indices@.subrange(0, i as int))[k] == longer[k]);
                    }
                }
            }
        }
        i = i + 1;
    }
    assert(indices@.subrange(0, count as int) =~= indices@);
    let bytes: Vec<u8> = words_to_bytes(&words);
    let ghost before = output@;
    let written = write_logical_bytes(&bytes, output, meta);
    proof {
        let n = meta.element_count as int;
        let dtype = AiDtype(AiDtype::I64);
        assert forall|i: int|
            0 <= i < n && #[trigger] crate::backend::logical::lasting(
                *meta,
                n,
                i,
            ) implies index_value(output@, dtype, meta.place(i as nat) as int) == indices@[i] by {
            let p = meta.place(i as nat) as int;
            crate::backend::logical::place_within(*meta, i as nat, before.len() as int);
            assert(crate::backend::logical::rows_of(bytes@, 8)(i) == crate::backend::logical::elem(
                bytes@,
                8,
                i,
            ));
            index_survives_bytes(indices@, output@, i, p);
        }
    }
    written
}


/// Picked elements are found at their coordinates.
proof fn picked_element(
    plan: GatherPlan,
    chosen: spec_fn(int) -> Option<int>,
    comes_from: spec_fn(int, int) -> bool,
    raw: Seq<u8>,
    before: Seq<u8>,
    after: Seq<u8>,
    out: Seq<nat>,
) -> (j: nat)
    requires
        plan.wf(),
        crate::backend::logical::spread(plan.output),
        plan.outcome(chosen, comes_from, raw, before, after, Ok(())),
        crate::backend::meta::coords_within(plan.output.dims(), out),
    ensures
        j < plan.data.element_count,
        ({
            let i = crate::backend::meta::linear_of(
                plan.output.dims(),
                out,
                plan.output.rank as int,
            ) as int;
            &&& chosen(i) is Some
            &&& comes_from(i, j as int)
            &&& plan.out_coords(i) == out
        }),
        crate::backend::meta::coords_within(plan.data.dims(), plan.data_coords(j as int)),
        crate::backend::logical::at_coords(after, plan.output, out)
            == crate::backend::logical::at_coords(raw, plan.data, plan.data_coords(j as int)),
{
    let sources = choose|sources: Seq<usize>|
        {
            &&& sources.len() == plan.output.element_count
            &&& forall|i: int|
                0 <= i < sources.len() ==> #[trigger] sources[i] < plan.data.element_count
                    && comes_from(i, sources[i] as int)
            &&& #[trigger] crate::backend::logical::scattered(
                plan.output,
                crate::backend::logical::picked(raw, plan.data, sources),
                plan.output.element_count as int,
                before,
                after,
            )
        };
    let i = crate::backend::meta::linear_of(plan.output.dims(), out, plan.output.rank as int);
    crate::backend::logical::written_element_is_found(
        plan.output,
        crate::backend::logical::picked(raw, plan.data, sources),
        before,
        after,
        out,
    );
    crate::backend::meta::coords_survive_linear(plan.output.dims(), out);
    assert(chosen(i as int) is Some);
    let j = sources[i as int] as nat;
    crate::backend::meta::coords_are_within(plan.data.dims(), j);
    j
}

/// Gathering looks positions up: the coordinates of an output element are those of the data
/// with the indexed axis replaced by the coordinates of an index. The element is that of the
/// data at the position that the index names, counted from the back where it is negative.
/// Every index lies within the extent, or nothing is gathered.
pub proof fn gathered_element(
    plan: GatherPlan,
    raw: Seq<u8>,
    raw_indices: Seq<u8>,
    before: Seq<u8>,
    after: Seq<u8>,
    out: Seq<nat>,
    at: Seq<nat>,
    from: Seq<nat>,
    index: i64,
)
    requires
        plan.wf(),
        gathers_to(plan.data.dims(), plan.indices.dims(), plan.output.dims(), plan.axis as int),
        crate::backend::logical::spread(plan.output),
        plan.outcome(
            |i: int| gather_chosen(plan, raw_indices, i),
            |i: int, j: int| gathers(plan, raw_indices, i, j),
            raw,
            before,
            after,
            Ok(()),
        ),
        crate::backend::meta::coords_within(plan.output.dims(), out),
        at.len() == plan.indices.rank,
        forall|a: int| 0 <= a < at.len() ==> #[trigger] at[a] == out[plan.axis + a],
        index == index_value(
            raw_indices,
            plan.index_dtype,
            crate::backend::meta::place_of(plan.indices.steps(), at, plan.indices.rank as int) as int,
        ),
        from.len() == plan.data.rank,
        forall|a: int|
            0 <= a < plan.data.rank ==> #[trigger] from[a] == (if a < plan.axis {
                out[a] as int
            } else if a == plan.axis {
                if index < 0 {
                    index + plan.data.shape[a]
                } else {
                    index as int
                }
            } else {
                out[a - 1 + plan.indices.rank] as int
            }),
    ensures
        -plan.data.shape[plan.axis as int] <= index < plan.data.shape[plan.axis as int],
        crate::backend::logical::at_coords(after, plan.output, out)
            == crate::backend::logical::at_coords(raw, plan.data, from),
{
    let chosen = |i: int| gather_chosen(plan, raw_indices, i);
    let relation = |i: int, j: int| gathers(plan, raw_indices, i, j);
    let j = picked_element(plan, chosen, relation, raw, before, after, out);
    let i = crate::backend::meta::linear_of(
        plan.output.dims(),
        out,
        plan.output.rank as int,
    ) as int;
    assert(index_coords(plan, i) =~= at);
    assert forall|a: int| 0 <= a < plan.indices.dims().len() implies #[trigger] at[a]
        < plan.indices.dims()[a] by {
        assert(out[plan.axis + a] < plan.output.dims()[plan.axis + a]);
    }
    crate::backend::meta::coords_survive_linear(plan.indices.dims(), at);
    assert(gather_chosen(plan, raw_indices, i) == counted(
        index,
        plan.data.shape[plan.axis as int] as int,
    ));
    assert(plan.data_coords(j as int) =~= from);
}

/// Gathering elements looks every element up for itself: the element of the output at `out`
/// is that of the data at the same coordinates, but along the indexed axis, where the index
/// at `out` names it. Every index lies within the extent, or nothing is gathered.
pub proof fn gathered_single_element(
    plan: GatherPlan,
    raw: Seq<u8>,
    raw_indices: Seq<u8>,
    before: Seq<u8>,
    after: Seq<u8>,
    out: Seq<nat>,
    from: Seq<nat>,
    index: i64,
)
    requires
        plan.wf(),
        elements_plan(plan),
        crate::backend::logical::spread(plan.output),
        plan.outcome(
            |i: int| element_chosen(plan, raw_indices, i),
            |i: int, j: int| gathers_element(plan, raw_indices, i, j),
            raw,
            before,
            after,
            Ok(()),
        ),
        crate::backend::meta::coords_within(plan.output.dims(), out),
        index == index_value(
            raw_indices,
            plan.index_dtype,
            crate::backend::meta::place_of(plan.indices.steps(), out, plan.indices.rank as int) as int,
        ),
        from.len() == plan.data.rank,
        forall|a: int|
            0 <= a < plan.data.rank ==> #[trigger] from[a] == (if a != plan.axis {
                out[a] as int
            } else if index < 0 {
                index + plan.data.shape[a]
            } else {
                index as int
            }),
    ensures
        -plan.data.shape[plan.axis as int] <= index < plan.data.shape[plan.axis as int],
        crate::backend::logical::at_coords(after, plan.output, out)
            == crate::backend::logical::at_coords(raw, plan.data, from),
{
    let chosen = |i: int| element_chosen(plan, raw_indices, i);
    let relation = |i: int, j: int| gathers_element(plan, raw_indices, i, j);
    let j = picked_element(plan, chosen, relation, raw, before, after, out);
    let i = crate::backend::meta::linear_of(
        plan.output.dims(),
        out,
        plan.output.rank as int,
    ) as int;
    assert(plan.output.rank == plan.output.dims().len());
    assert(plan.indices.rank == plan.indices.dims().len());
    assert(crate::backend::meta::coords_of(plan.indices.dims(), i as nat) == out);
    assert(element_chosen(plan, raw_indices, i) == counted(
        index,
        plan.data.shape[plan.axis as int] as int,
    ));
    assert(plan.data_coords(j as int) =~= from);
}


/// A checked gather runs along the axis that its attribute names, a negative number counting
/// from the back.
pub proof fn gathering_follows_its_attribute(ctx: CallContext, plan: GatherPlan)
    requires
        call_ensures(check_gather, (&ctx,), Ok::<GatherPlan, BackendErr>(plan)),
    ensures
        ({
            let axis = ctx.attr_as::<GatherAttr>()->0.axis.0;
            &&& plan.axis == axis || plan.axis == axis + plan.data.rank
            &&& plan.axis < plan.data.rank
            &&& plan.output.rank == plan.data.rank - 1 + plan.indices.rank
        }),
{
    assert(plan.output.dims().len() == plan.data.dims().len() - 1 + plan.indices.dims().len());
}

/// A checked element gather runs along the axis that its attribute names, and its output has
/// the shape of its indices.
pub proof fn element_gathering_follows_its_attribute(ctx: CallContext, plan: GatherPlan)
    requires
        call_ensures(check_gather_elements, (&ctx,), Ok::<GatherPlan, BackendErr>(plan)),
    ensures
        ({
            let axis = ctx.attr_as::<GatherElementsAttr>()->0.axis.0;
            &&& plan.axis == axis || plan.axis == axis + plan.data.rank
            &&& plan.axis < plan.data.rank
            &&& plan.output.dims() == plan.indices.dims()
        }),
{
}


/// Indices are signed numbers of four or eight bytes, low byte first.
pub proof fn indices_are_signed(raw: Seq<u8>, place: int)
    ensures
        ({
            let low = crate::bytes::word_at(raw, 4 * place);
            index_value(raw, AiDtype(AiDtype::I32), place) == (if low < 0x8000_0000 {
                low as int
            } else {
                low - 0x1_0000_0000
            })
        }),
        ({
            let low = crate::bytes::word_at(raw, 8 * place);
            let high = crate::bytes::word_at(raw, 8 * place + 4);
            index_value(raw, AiDtype(AiDtype::I64), place) == low + 0x1_0000_0000 * (if high
                < 0x8000_0000 {
                high as int
            } else {
                high - 0x1_0000_0000
            })
        }),
{
    crate::bytes::negative_words_stand_higher(crate::bytes::word_at(raw, 4 * place));
    let low = crate::bytes::word_at(raw, 8 * place);
    let high = crate::bytes::word_at(raw, 8 * place + 4);
    crate::bytes::low_half_counts_once(low, high);
    let whole = crate::bytes::double_word(low, high);
    assert(whole < 0x8000_0000_0000_0000 ==> whole as i64 == whole) by (bit_vector);
    assert(whole >= 0x8000_0000_0000_0000 ==> whole as i64 == whole - 0x1_0000_0000_0000_0000)
        by (bit_vector);
}


/// Indices that were written are found at their coordinates.
pub proof fn written_index_is_found(
    indices: Seq<i64>,
    meta: TensorMeta,
    before: Seq<u8>,
    after: Seq<u8>,
    coords: Seq<nat>,
)
    requires
        meta.wf(),
        crate::backend::logical::spread(meta),
        indices_written(indices, meta, before, after),
        crate::backend::meta::coords_within(meta.dims(), coords),
    ensures
        index_value(
            after,
            AiDtype(AiDtype::I64),
            crate::backend::meta::place_of(meta.steps(), coords, meta.rank as int) as int,
        ) == indices[crate::backend::meta::linear_of(
            meta.dims(),
            coords,
            meta.rank as int,
        ) as int],
{
    let i = crate::backend::meta::linear_of(meta.dims(), coords, meta.rank as int);
    crate::backend::meta::linear_is_within(meta.dims(), coords, meta.rank as int);
    crate::backend::meta::coords_survive_linear(meta.dims(), coords);
    assert(crate::backend::logical::lasting(meta, meta.element_count as int, i as int));
}

} // verus!
