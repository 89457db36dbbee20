//! Half-precision operators on pairs of elements, with broadcasting.

use crate::backend::call::CallContext;
use crate::backend::meta::TensorMeta;
use crate::backend::transform::aligned_dim;
use crate::uabi::desc::AiDtype;
use crate::uabi::error::BackendErr;
use crate::uabi::kernelattr::BinaryAttr;
use vstd::prelude::*;

verus! {

/// What is computed of each pair.
#[derive(Clone, Copy, PartialEq, Eq, Structural, Debug)]
pub enum BinaryKind {
    /// Sum.
    Add,
    /// Product.
    Mul,
    /// Difference.
    Sub,
    /// Quotient.
    Div,
    /// Remainder with the sign of the dividend.
    Mod,
}

/// Extents join: they are equal, or one of them is one.
pub open spec fn joins(lhs: nat, rhs: nat) -> bool {
    lhs == rhs || lhs == 1 || rhs == 1
}

/// The larger of two extents.
pub open spec fn larger(a: nat, b: nat) -> nat {
    if a >= b {
        a
    } else {
        b
    }
}

/// The output has the shape that two shapes broadcast to, lined up at their last axes.
pub open spec fn broadcasts(lhs: Seq<nat>, rhs: Seq<nat>, output: Seq<nat>) -> bool {
    let rank = output.len() as int;
    &&& rank == larger(lhs.len(), rhs.len())
    &&& forall|a: int|
        0 <= a < rank ==> {
            let l = #[trigger] crate::backend::transform::aligned(lhs, rank, a);
            let r = crate::backend::transform::aligned(rhs, rank, a);
            joins(l, r) && output[a] == larger(l, r)
        }
}

/// Two inputs and the output that they broadcast to.
#[derive(Clone, Copy, Debug)]
pub struct BroadcastPlan {
    /// Left input.
    pub lhs: TensorMeta,
    /// Right input.
    pub rhs: TensorMeta,
    /// Output.
    pub output: TensorMeta,
}

/// Coordinates of an input element under coordinates of the output.
pub open spec fn operand_coords(input: TensorMeta, output: TensorMeta, i: int) -> Seq<nat> {
    Seq::new(
        input.rank as nat,
        |a: int|
            if input.shape[a] == 1 {
                0
            } else {
                crate::backend::meta::coords_of(output.dims(), i as nat)[output.rank - input.rank
                    + a]
            },
    )
}

/// Place of the input element that output position `i` is computed of.
pub open spec fn operand_place(input: TensorMeta, output: TensorMeta, i: int) -> nat {
    crate::backend::meta::place_of(
        input.steps(),
        operand_coords(input, output, i),
        input.rank as int,
    )
}

impl BroadcastPlan {
    /// The inputs broadcast to the output.
    pub open spec fn wf(self) -> bool {
        &&& self.lhs.wf()
        &&& self.rhs.wf()
        &&& self.output.wf()
        &&& broadcasts(self.lhs.dims(), self.rhs.dims(), self.output.dims())
    }

    /// Both inputs have elements.
    pub open spec fn operands_exist(self) -> bool {
        self.lhs.element_count > 0 && self.rhs.element_count > 0
    }

    /// Checks that two inputs broadcast to the output.
    pub fn new(lhs: TensorMeta, rhs: TensorMeta, output: TensorMeta) -> (r: Result<
        Self,
        BackendErr,
    >)
        requires
            lhs.wf(),
            rhs.wf(),
            output.wf(),
        ensures
            match r {
                Ok(plan) => {
                    &&& plan == (BroadcastPlan { lhs, rhs, output })
                    &&& plan.wf()
                },
                Err(err) => {
                    &&& err == BackendErr::InvalidTensor
                    &&& !broadcasts(lhs.dims(), rhs.dims(), output.dims())
                },
            },
    {
        let rank: usize = if lhs.rank >= rhs.rank {
            lhs.rank
        } else {
            rhs.rank
        };
        if output.rank != rank {
            return Err(BackendErr::InvalidTensor);
        }
        let ghost l = lhs.dims();
        let ghost r = rhs.dims();
        let ghost o = output.dims();
        let mut axis: usize = 0;
        while axis < rank
            invariant
                axis <= rank == output.rank <= 8,
                rank == larger(l.len(), r.len()),
                l == lhs.dims(),
                r == rhs.dims(),
                o == output.dims(),
                forall|a: int|
                    0 <= a < axis ==> {
                        let x = #[trigger] crate::backend::transform::aligned(l, rank as int, a);
                        let y = crate::backend::transform::aligned(r, rank as int, a);
                        joins(x, y) && o[a] == larger(x, y)
                    },
            decreases rank - axis,
        {
            let x: usize = aligned_dim(&lhs, rank, axis);
            let y: usize = aligned_dim(&rhs, rank, axis);
            assert(o[axis as int] == output.shape[axis as int]);
            if x != y && x != 1 && y != 1 {
                assert(!joins(
                    crate::backend::transform::aligned(l, rank as int, axis as int),
                    crate::backend::transform::aligned(r, rank as int, axis as int),
                ));
                return Err(BackendErr::InvalidTensor);
            }
            let expected: usize = if x >= y {
                x
            } else {
                y
            };
            if output.shape[axis] != expected {
                assert(o[axis as int] != larger(
                    crate::backend::transform::aligned(l, rank as int, axis as int),
                    crate::backend::transform::aligned(r, rank as int, axis as int),
                ));
                return Err(BackendErr::InvalidTensor);
            }
            axis = axis + 1;
        }
        Ok(BroadcastPlan { lhs, rhs, output })
    }

    /// An input that has elements has one for every output position.
    proof fn operand_exists(self, input: TensorMeta, other: Seq<nat>, i: nat)
        requires
            input.wf(),
            self.output.wf(),
            broadcasts(input.dims(), other, self.output.dims()) || broadcasts(
                other,
                input.dims(),
                self.output.dims(),
            ),
            i < self.output.element_count,
            input.element_count > 0,
        ensures
            crate::backend::meta::coords_within(
                input.dims(),
                operand_coords(input, self.output, i as int),
            ),
    {
        let dims = input.dims();
        let coords = operand_coords(input, self.output, i as int);
        let out = crate::backend::meta::coords_of(self.output.dims(), i);
        let rank = self.output.rank as int;
        let leading = rank - input.rank;
        crate::backend::meta::coords_are_within(self.output.dims(), i);
        assert forall|a: int| 0 <= a < dims.len() implies #[trigger] coords[a] < dims[a] by {
            if dims[a] == 0 {
                crate::shape::product_zero(dims, 0, a, dims.len() as int);
            }
            let at = leading + a;
            assert(crate::backend::transform::aligned(dims, rank, at) == dims[a]);
            assert(crate::backend::transform::aligned(other, rank, at) >= 0);
            assert(out[at] < self.output.dims()[at]);
        }
    }

    /// Places of the two input elements and of the output element for one output position.
    pub fn offsets(&self, linear: usize) -> (r: Result<(usize, usize, usize), BackendErr>)
        requires
            self.wf(),
        ensures
            match r {
                Ok((l, r, o)) => {
                    &&& linear < self.output.element_count
                    &&& self.operands_exist()
                    &&& l == operand_place(self.lhs, self.output, linear as int)
                    &&& r == operand_place(self.rhs, self.output, linear as int)
                    &&& o == self.output.place(linear as nat)
                    &&& l <= self.lhs.reach(self.lhs.rank as int)
                    &&& r <= self.rhs.reach(self.rhs.rank as int)
                },
                Err(err) => {
                    &&& err == BackendErr::InvalidTensor
                    &&& linear >= self.output.element_count || !self.operands_exist()
                },
            },
    {
        let coordinates: [usize; 8] = self.output.coordinates(linear)?;
        let l: usize = self.operand_offset(&self.lhs, &coordinates, linear, Ghost(self.rhs.dims()))?;
        let r: usize = self.operand_offset(&self.rhs, &coordinates, linear, Ghost(self.lhs.dims()))?;
        proof {
            crate::backend::meta::coords_are_within(self.output.dims(), linear as nat);
        }
        let o: usize = self.output.offset_for_coordinates(&coordinates)?;
        Ok((l, r, o))
    }

    /// Place of an input element under output coordinates.
    fn operand_offset(
        &self,
        input: &TensorMeta,
        coordinates: &[usize; 8],
        linear: usize,
        Ghost(other): Ghost<Seq<nat>>,
    ) -> (r: Result<usize, BackendErr>)
        requires
            input.wf(),
            self.output.wf(),
            broadcasts(input.dims(), other, self.output.dims()) || broadcasts(
                other,
                input.dims(),
                self.output.dims(),
            ),
            linear < self.output.element_count,
            crate::backend::meta::as_coords(*coordinates, self.output.rank as int)
                == crate::backend::meta::coords_of(self.output.dims(), linear as nat),
        ensures
            match r {
                Ok(place) => {
                    &&& input.element_count > 0
                    &&& place == operand_place(*input, self.output, linear as int)
                    &&& place <= input.reach(input.rank as int)
                },
                Err(err) => err == BackendErr::InvalidTensor && input.element_count == 0,
            },
    {
        let ghost wanted = crate::backend::meta::as_coords(*coordinates, self.output.rank as int);
        let mut at: [usize; 8] = [0; 8];
        let leading: usize = self.output.rank - input.rank;
        let mut axis: usize = 0;
        while axis < input.rank
            invariant
                axis <= input.rank <= self.output.rank <= 8,
                leading == self.output.rank - input.rank,
                forall|a: int|
                    0 <= a < axis ==> #[trigger] at[a] == (if input.shape[a] == 1 {
                        0
                    } else {
                        coordinates[leading + a]
                    }),
                forall|a: int| axis <= a < 8 ==> #[trigger] at[a] == 0,
            decreases input.rank - axis,
        {
            if input.shape[axis] != 1 {
                at[axis] = coordinates[leading + axis];
            }
            axis = axis + 1;
        }
        let ghost coords = crate::backend::meta::as_coords(at, input.rank as int);
        proof {
            let expected = operand_coords(*input, self.output, linear as int);
            assert forall|a: int| 0 <= a < input.rank implies coords[a] == expected[a] by {
                assert(wanted[leading + a] == coordinates[leading + a]);
            }
            assert(coords =~= expected);
            if input.element_count > 0 {
                self.operand_exists(*input, other, linear as nat);
                input.place_within_reach(coords, input.rank as int);
            } else {
                if crate::backend::meta::coords_within(input.dims(), coords) {
                    crate::backend::meta::linear_is_within(
                        input.dims(),
                        coords,
                        input.rank as int,
                    );
                }
            }
        }
        input.offset_for_coordinates(&at)
    }
}

/// A checked call.
#[derive(Clone, Copy, Debug)]
pub struct BinaryPlan {
    /// Shapes and strides.
    pub broadcast: BroadcastPlan,
    /// The attribute.
    pub attr: BinaryAttr,
    /// Elements of the left buffer.
    pub lhs_len: usize,
    /// Elements of the right buffer.
    pub rhs_len: usize,
    /// Elements of the output buffer.
    pub out_len: usize,
}

/// What is wrong with a call, where anything is.
pub open spec fn binary_fault(ctx: CallContext) -> Option<BackendErr> {
    let lhs = ctx.inputs[0];
    let rhs = ctx.inputs[1];
    let output = ctx.outputs[0];
    if crate::backend::transform::io_fault(ctx, 2, 1) is Some {
        crate::backend::transform::io_fault(ctx, 2, 1)
    } else {
        match ctx.attr_as::<BinaryAttr>() {
            None => Some(BackendErr::InvalidAttr),
            Some(attr) => if attr.broadcast_kind != 0 {
                Some(BackendErr::InvalidAttr)
            } else if lhs.dtype.0 != AiDtype::F16 || rhs.dtype.0 != AiDtype::F16 || output.dtype.0
                != AiDtype::F16 {
                Some(BackendErr::UnsupportedDtype)
            } else if crate::backend::meta::view_fault(lhs) is Some {
                crate::backend::meta::view_fault(lhs)
            } else if crate::backend::meta::view_fault(rhs) is Some {
                crate::backend::meta::view_fault(rhs)
            } else if crate::backend::meta::view_fault(output) is Some {
                crate::backend::meta::view_fault(output)
            } else if !broadcasts(
                crate::backend::meta::view_dims(lhs),
                crate::backend::meta::view_dims(rhs),
                crate::backend::meta::view_dims(output),
            ) {
                Some(BackendErr::InvalidTensor)
            } else if crate::backend::meta::typed_count(lhs, 2, 2) is None
                || crate::backend::meta::typed_count(rhs, 2, 2) is None
                || crate::backend::meta::typed_count(output, 2, 2) is None {
                Some(BackendErr::InvalidTensor)
            } else {
                None
            },
        }
    }
}

impl BinaryPlan {
    /// The tensors lie within buffers of the planned lengths.
    pub open spec fn wf(self) -> bool {
        &&& self.broadcast.wf()
        &&& self.broadcast.lhs.lies_in(self.lhs_len as int)
        &&& self.broadcast.rhs.lies_in(self.rhs_len as int)
        &&& self.broadcast.output.lies_in(self.out_len as int)
    }

    /// The remainder is computed one way only, and the attribute does not ask for it.
    pub open spec fn refuses(self, kind: BinaryKind) -> bool {
        kind == BinaryKind::Mod && self.attr.flags.0 & BinaryAttr::MOD_FMOD == 0
    }
}

/// Checks a call.
pub fn check_binary(ctx: &CallContext) -> (r: Result<BinaryPlan, BackendErr>)
    requires
        ctx.wf(),
    ensures
        match r {
            Ok(plan) => {
                &&& binary_fault(*ctx) is None
                &&& plan.wf()
                &&& ctx.attr_as::<BinaryAttr>() == Some(plan.attr)
                &&& crate::backend::call::checked(ctx.inputs[0], plan.broadcast.lhs)
                &&& crate::backend::call::checked(ctx.inputs[1], plan.broadcast.rhs)
                &&& crate::backend::call::checked(ctx.outputs[0], plan.broadcast.output)
                &&& crate::backend::meta::typed_count(ctx.inputs[0], 2, 2) == Some(plan.lhs_len)
                &&& crate::backend::meta::typed_count(ctx.inputs[1], 2, 2) == Some(plan.rhs_len)
                &&& crate::backend::meta::typed_count(ctx.outputs[0], 2, 2) == Some(plan.out_len)
            },
            Err(err) => binary_fault(*ctx) == Some(err),
        },
{
    ctx.expect_io(2, 1)?;
    ctx.reject_input_output_alias()?;
    let attr: BinaryAttr = ctx.read_attr::<BinaryAttr>()?;
    if attr.broadcast_kind != 0 {
        return Err(BackendErr::InvalidAttr);
    }
    if ctx.inputs[0].dtype.0 != AiDtype::F16 || ctx.inputs[1].dtype.0 != AiDtype::F16
        || ctx.outputs[0].dtype.0 != AiDtype::F16 {
        return Err(BackendErr::UnsupportedDtype);
    }
    let lhs: TensorMeta = ctx.inputs[0].checked_meta()?;
    let rhs: TensorMeta = ctx.inputs[1].checked_meta()?;
    let output: TensorMeta = ctx.outputs[0].checked_meta()?;
    let broadcast: BroadcastPlan = BroadcastPlan::new(lhs, rhs, output)?;
    let lhs_len: usize = ctx.inputs[0].typed_len(2, 2)?;
    let rhs_len: usize = ctx.inputs[1].typed_len(2, 2)?;
    let out_len: usize = ctx.outputs[0].typed_len(2, 2)?;
    Ok(BinaryPlan { broadcast, attr, lhs_len, rhs_len, out_len })
}

/// What belongs in each output position.
pub open spec fn binary_holds<F: Fn(u16, u16) -> u16>(
    plan: BroadcastPlan,
    op: F,
    lhs: Seq<u16>,
    rhs: Seq<u16>,
) -> spec_fn(int, u16) -> bool {
    |i: int, value: u16|
        op.ensures(
            (
                lhs[operand_place(plan.lhs, plan.output, i) as int],
                rhs[operand_place(plan.rhs, plan.output, i) as int],
            ),
            value,
        )
}

/// Applies an operator to every pair that broadcasting brings together.
pub fn run_binary<F: Fn(u16, u16) -> u16>(
    plan: &BinaryPlan,
    kind: BinaryKind,
    lhs: &[u16],
    rhs: &[u16],
    output: &mut [u16],
    op: &F,
) -> (r: Result<(), BackendErr>)
    requires
        plan.wf(),
        lhs@.len() == plan.lhs_len,
        rhs@.len() == plan.rhs_len,
        old(output)@.len() == plan.out_len,
        forall|x: u16, y: u16| #[trigger] op.requires((x, y)),
    ensures
        match r {
            Ok(_) => {
                &&& plan.broadcast.output.element_count == 0 || (plan.broadcast.operands_exist()
                    && !plan.refuses(kind))
                &&& crate::backend::logical::stored(
                    plan.broadcast.output,
                    binary_holds(plan.broadcast, *op, lhs@, rhs@),
                    plan.broadcast.output.element_count as int,
                    old(output)@,
                    final(output)@,
                )
            },
            Err(err) => {
                &&& plan.broadcast.output.element_count > 0
                &&& final(output)@ == old(output)@
                &&& if !plan.broadcast.operands_exist() {
                    err == BackendErr::InvalidTensor
                } else {
                    err == BackendErr::InvalidAttr && plan.refuses(kind)
                }
            },
        },
{
    let count: usize = plan.broadcast.output.element_count;
    let ghost meta = plan.broadcast.output;
    let ghost holds = binary_holds(plan.broadcast, *op, lhs@, rhs@);
    let ghost before = output@;
    let refused: bool = kind == BinaryKind::Mod && plan.attr.flags.0 & BinaryAttr::MOD_FMOD == 0;
    let mut linear: usize = 0;
    while linear < count
        invariant
            linear <= count,
            count == meta.element_count,
            meta == plan.broadcast.output,
            plan.wf(),
            refused == plan.refuses(kind),
            linear > 0 ==> plan.broadcast.operands_exist() && !refused,
            linear == 0 ==> output@ == before,
            before == old(output)@,
            lhs@.len() == plan.lhs_len,
            rhs@.len() == plan.rhs_len,
            output@.len() == before.len() == plan.out_len,
            holds == binary_holds(plan.broadcast, *op, lhs@, rhs@),
            forall|x: u16, y: u16| #[trigger] op.requires((x, y)),
            crate::backend::logical::stored(meta, holds, linear as int, before, output@),
        decreases count - linear,
    {
        let (l, r, o) = match plan.broadcast.offsets(linear) {
            Ok(places) => places,
            Err(err) => {
                return Err(err);
            },
        };
        if refused {
            return Err(BackendErr::InvalidAttr);
        }
        let value: u16 = op(lhs[l], rhs[r]);
        proof {
            crate::backend::logical::store_one(
                meta,
                holds,
                linear as int,
                before,
                output@,
                value,
            );
        }
        output[o] = value;
        linear = linear + 1;
    }
    Ok(())
}


/// Broadcasting lines shapes up at their last axes: the output element at `out` is the
/// operator on the operands at the same coordinates, an operand of extent one along an axis
/// being the same throughout.
pub proof fn broadcast_pair<F: Fn(u16, u16) -> u16>(
    plan: BroadcastPlan,
    op: F,
    lhs: Seq<u16>,
    rhs: Seq<u16>,
    before: Seq<u16>,
    after: Seq<u16>,
    out: Seq<nat>,
    left: Seq<nat>,
    right: Seq<nat>,
)
    requires
        plan.wf(),
        crate::backend::logical::spread(plan.output),
        crate::backend::logical::stored(
            plan.output,
            binary_holds(plan, op, lhs, rhs),
            plan.output.element_count as int,
            before,
            after,
        ),
        crate::backend::meta::coords_within(plan.output.dims(), out),
        crate::backend::meta::coords_within(plan.lhs.dims(), left),
        crate::backend::meta::coords_within(plan.rhs.dims(), right),
        forall|a: int|
            0 <= a < plan.lhs.rank && plan.lhs.shape[a] != 1 ==> #[trigger] left[a]
                == out[plan.output.rank - plan.lhs.rank + a],
        forall|a: int|
            0 <= a < plan.rhs.rank && plan.rhs.shape[a] != 1 ==> #[trigger] right[a]
                == out[plan.output.rank - plan.rhs.rank + a],
    ensures
        op.ensures(
            (
                lhs[crate::backend::meta::place_of(plan.lhs.steps(), left, plan.lhs.rank as int) as int],
                rhs[crate::backend::meta::place_of(plan.rhs.steps(), right, plan.rhs.rank as int) as int],
            ),
            after[crate::backend::meta::place_of(
                plan.output.steps(),
                out,
                plan.output.rank as int,
            ) as int],
        ),
{
    let i = crate::backend::meta::linear_of(plan.output.dims(), out, plan.output.rank as int);
    crate::backend::meta::linear_is_within(plan.output.dims(), out, plan.output.rank as int);
    crate::backend::meta::coords_survive_linear(plan.output.dims(), out);
    assert(crate::backend::logical::lasting(
        plan.output,
        plan.output.element_count as int,
        i as int,
    ));
    operand_is_under(plan.lhs, plan.output, i as int, out, left);
    operand_is_under(plan.rhs, plan.output, i as int, out, right);
}

/// The operand under an output element is the one at the same coordinates, along the axes
/// that are not of extent one.
pub proof fn operand_is_under(
    input: TensorMeta,
    output: TensorMeta,
    i: int,
    out: Seq<nat>,
    coords: Seq<nat>,
)
    requires
        crate::backend::meta::coords_within(input.dims(), coords),
        crate::backend::meta::coords_of(output.dims(), i as nat) == out,
        forall|a: int|
            0 <= a < input.rank && input.shape[a] != 1 ==> #[trigger] coords[a] == out[output.rank
                - input.rank + a],
    ensures
        operand_coords(input, output, i) == coords,
{
    assert forall|a: int| 0 <= a < coords.len() implies #[trigger] operand_coords(
        input,
        output,
        i,
    )[a] == coords[a] by {
        assert(coords[a] < input.dims()[a]);
    }
}


/// Extent of an axis counted from the back, where a missing axis has extent one.
pub open spec fn extent_from_back(dims: Seq<nat>, j: int) -> nat {
    if j < dims.len() {
        dims[dims.len() - 1 - j]
    } else {
        1
    }
}

/// The shape that two shapes broadcast to: counted from the back, each extent is that of the
/// one operand where the other has extent one, and that of both where they agree.
pub proof fn broadcast_shape_joins_extents(
    lhs: Seq<nat>,
    rhs: Seq<nat>,
    output: Seq<nat>,
    j: int,
)
    requires
        broadcasts(lhs, rhs, output),
        0 <= j < output.len(),
        forall|a: int| 0 <= a < lhs.len() ==> #[trigger] lhs[a] > 0,
        forall|a: int| 0 <= a < rhs.len() ==> #[trigger] rhs[a] > 0,
    ensures
        ({
            let (l, r) = (extent_from_back(lhs, j), extent_from_back(rhs, j));
            &&& l == 1 ==> output[output.len() - 1 - j] == r
            &&& r == 1 ==> output[output.len() - 1 - j] == l
            &&& l == r || l == 1 || r == 1
        }),
        output.len() == lhs.len() || output.len() == rhs.len(),
        output.len() >= lhs.len() && output.len() >= rhs.len(),
{
    let rank = output.len() as int;
    let a = rank - 1 - j;
    assert(crate::backend::transform::aligned(lhs, rank, a) == extent_from_back(lhs, j));
    assert(crate::backend::transform::aligned(rhs, rank, a) == extent_from_back(rhs, j));
    if j < lhs.len() {
        assert(lhs[lhs.len() - 1 - j] > 0);
    }
    if j < rhs.len() {
        assert(rhs[rhs.len() - 1 - j] > 0);
    }
}


/// The remainder alone can be refused, and is where the attribute does not ask for the kind
/// that takes the sign of the dividend.
pub proof fn only_the_other_remainder_is_refused(plan: BinaryPlan, kind: BinaryKind)
    ensures
        plan.refuses(kind) <==> kind == BinaryKind::Mod && plan.attr.flags.0 % 2 == 0,
{
    let flags = plan.attr.flags.0;
    assert((flags & 1 == 0) == (flags % 2 == 0)) by (bit_vector);
}

} // verus!
