//! Gated linear units: one operand goes through SiLU and is multiplied with the other.

use crate::backend::binary::BroadcastPlan;
use crate::backend::call::CallContext;
use crate::backend::meta::TensorMeta;
use crate::uabi::desc::AiDtype;
use crate::uabi::error::BackendErr;
use crate::uabi::kernelattr::GluAttr;
use vstd::prelude::*;

verus! {

/// A checked call.
#[derive(Clone, Copy, Debug)]
pub struct GluPlan {
    /// Shapes and strides: the gating operand on the left, its partner on the right.
    pub broadcast: BroadcastPlan,
    /// Elements of the gating buffer.
    pub gate_len: usize,
    /// Elements of the partner's buffer.
    pub up_len: usize,
    /// Elements of the output buffer.
    pub out_len: usize,
}

impl GluPlan {
    /// The tensors lie within buffers of the planned lengths.
    pub open spec fn wf(self) -> bool {
        &&& self.broadcast.wf()
        &&& self.broadcast.lhs.lies_in(self.gate_len as int)
        &&& self.broadcast.rhs.lies_in(self.up_len as int)
        &&& self.broadcast.output.lies_in(self.out_len as int)
    }
}

/// What is wrong with a call, where anything is. SwiGLU on two operands is the one
/// variant; which half of a single operand gates does not matter to it.
pub open spec fn glu_fault(ctx: CallContext) -> Option<BackendErr> {
    let lhs = ctx.inputs[0];
    let rhs = ctx.inputs[1];
    let output = ctx.outputs[0];
    if crate::backend::transform::io_fault(ctx, 2, 1) is Some {
        crate::backend::transform::io_fault(ctx, 2, 1)
    } else {
        match ctx.attr_as::<GluAttr>() {
            None => Some(BackendErr::InvalidAttr),
            Some(attr) => if attr.op != GluAttr::OP_SWIGLU || attr.flags.0 != 0 {
                Some(BackendErr::InvalidAttr)
            } else if lhs.dtype.0 != AiDtype::F16 || rhs.dtype.0 != AiDtype::F16 || output.dtype.0
                != AiDtype::F16 {
                Some(BackendErr::UnsupportedDtype)
            } else if crate::backend::meta::view_fault(lhs) is Some {
                crate::backend::meta::view_fault(lhs)
            } else if crate::backend::meta::view_fault(rhs) is Some {
                crate::backend::meta::view_fault(rhs)
            } else if crate::backend::meta::view_fault(output) is Some {
                crate::backend::meta::view_fault(output)
            } else if !crate::backend::binary::broadcasts(
                crate::backend::meta::view_dims(lhs),
                crate::backend::meta::view_dims(rhs),
                crate::backend::meta::view_dims(output),
            ) {
                Some(BackendErr::InvalidTensor)
            } else if crate::backend::meta::typed_count(lhs, 2, 2) is None
                || crate::backend::meta::typed_count(rhs, 2, 2) is None
                || crate::backend::meta::typed_count(output, 2, 2) is None {
                Some(BackendErr::InvalidTensor)
            } else {
                None
            },
        }
    }
}

/// Checks a call.
pub fn check_glu(ctx: &CallContext) -> (r: Result<GluPlan, BackendErr>)
    requires
        ctx.wf(),
    ensures
        match r {
            Ok(plan) => {
                &&& glu_fault(*ctx) is None
                &&& plan.wf()
                &&& crate::backend::call::checked(ctx.inputs[0], plan.broadcast.lhs)
                &&& crate::backend::call::checked(ctx.inputs[1], plan.broadcast.rhs)
                &&& crate::backend::call::checked(ctx.outputs[0], plan.broadcast.output)
                &&& crate::backend::meta::typed_count(ctx.inputs[0], 2, 2) == Some(plan.gate_len)
                &&& crate::backend::meta::typed_count(ctx.inputs[1], 2, 2) == Some(plan.up_len)
                &&& crate::backend::meta::typed_count(ctx.outputs[0], 2, 2) == Some(plan.out_len)
            },
            Err(err) => glu_fault(*ctx) == Some(err),
        },
{
    ctx.expect_io(2, 1)?;
    ctx.reject_input_output_alias()?;
    let attr: GluAttr = ctx.read_attr::<GluAttr>()?;
    if attr.op != GluAttr::OP_SWIGLU || attr.flags.0 != 0 {
        return Err(BackendErr::InvalidAttr);
    }
    if ctx.inputs[0].dtype.0 != AiDtype::F16 || ctx.inputs[1].dtype.0 != AiDtype::F16
        || ctx.outputs[0].dtype.0 != AiDtype::F16 {
        return Err(BackendErr::UnsupportedDtype);
    }
    let lhs: TensorMeta = ctx.inputs[0].checked_meta()?;
    let rhs: TensorMeta = ctx.inputs[1].checked_meta()?;
    let output: TensorMeta = ctx.outputs[0].checked_meta()?;
    let broadcast: BroadcastPlan = BroadcastPlan::new(lhs, rhs, output)?;
    let gate_len: usize = ctx.inputs[0].typed_len(2, 2)?;
    let up_len: usize = ctx.inputs[1].typed_len(2, 2)?;
    let out_len: usize = ctx.outputs[0].typed_len(2, 2)?;
    Ok(GluPlan { broadcast, gate_len, up_len, out_len })
}

/// A pair is widened, the gating element goes through SiLU and is multiplied with its
/// partner, and the product is narrowed.
pub open spec fn swiglu<
    W: Fn(u16) -> u32,
    S: Fn(u32) -> u32,
    M: Fn(u32, u32) -> u32,
    N: Fn(u32) -> u16,
>(widen: W, silu: S, times: M, narrow: N, gate: u16, up: u16, value: u16) -> bool {
    exists|g: u32, u: u32, s: u32, product: u32|
        {
            &&& widen.ensures((gate,), g)
            &&& widen.ensures((up,), u)
            &&& #[trigger] silu.ensures((g,), s)
            &&& #[trigger] times.ensures((s, u), product)
            &&& narrow.ensures((product,), value)
        }
}

/// What belongs in each output position.
pub open spec fn glu_holds<
    W: Fn(u16) -> u32,
    S: Fn(u32) -> u32,
    M: Fn(u32, u32) -> u32,
    N: Fn(u32) -> u16,
>(
    plan: BroadcastPlan,
    widen: W,
    silu: S,
    times: M,
    narrow: N,
    gate: Seq<u16>,
    up: Seq<u16>,
) -> spec_fn(int, u16) -> bool {
    |i: int, value: u16|
        swiglu(
            widen,
            silu,
            times,
            narrow,
            gate[crate::backend::binary::operand_place(plan.lhs, plan.output, i) as int],
            up[crate::backend::binary::operand_place(plan.rhs, plan.output, i) as int],
            value,
        )
}

/// Computes the unit of every pair that broadcasting brings together.
pub fn run_glu<
    W: Fn(u16) -> u32,
    S: Fn(u32) -> u32,
    M: Fn(u32, u32) -> u32,
    N: Fn(u32) -> u16,
>(
    plan: &GluPlan,
    gate: &[u16],
    up: &[u16],
    output: &mut [u16],
    widen: &W,
    silu: &S,
    times: &M,
    narrow: &N,
) -> (r: Result<(), BackendErr>)
    requires
        plan.wf(),
        gate@.len() == plan.gate_len,
        up@.len() == plan.up_len,
        old(output)@.len() == plan.out_len,
        forall|h: u16| #[trigger] widen.requires((h,)),
        forall|v: u32| #[trigger] silu.requires((v,)),
        forall|a: u32, b: u32| #[trigger] times.requires((a, b)),
        forall|v: u32| #[trigger] narrow.requires((v,)),
    ensures
        match r {
            Ok(_) => {
                &&& plan.broadcast.output.element_count == 0 || plan.broadcast.operands_exist()
                &&& crate::backend::logical::stored(
                    plan.broadcast.output,
                    glu_holds(plan.broadcast, *widen, *silu, *times, *narrow, gate@, up@),
                    plan.broadcast.output.element_count as int,
                    old(output)@,
                    final(output)@,
                )
            },
            Err(err) => {
                &&& err == BackendErr::InvalidTensor
                &&& plan.broadcast.output.element_count > 0
                &&& !plan.broadcast.operands_exist()
                &&& final(output)@ == old(output)@
            },
        },
{
    let count: usize = plan.broadcast.output.element_count;
    let ghost meta = plan.broadcast.output;
    let ghost holds = glu_holds(plan.broadcast, *widen, *silu, *times, *narrow, gate@, up@);
    let ghost before = output@;
    let mut linear: usize = 0;
    while linear < count
        invariant
            linear <= count,
            count == meta.element_count,
            meta == plan.broadcast.output,
            plan.wf(),
            linear > 0 ==> plan.broadcast.operands_exist(),
            linear == 0 ==> output@ == before,
            before == old(output)@,
            gate@.len() == plan.gate_len,
            up@.len() == plan.up_len,
            output@.len() == before.len() == plan.out_len,
            holds == glu_holds(plan.broadcast, *widen, *silu, *times, *narrow, gate@, up@),
            forall|h: u16| #[trigger] widen.requires((h,)),
            forall|v: u32| #[trigger] silu.requires((v,)),
            forall|a: u32, b: u32| #[trigger] times.requires((a, b)),
            forall|v: u32| #[trigger] narrow.requires((v,)),
            crate::backend::logical::stored(meta, holds, linear as int, before, output@),
        decreases count - linear,
    {
        let (l, r, o) = match plan.broadcast.offsets(linear) {
            Ok(places) => places,
            Err(err) => {
                return Err(err);
            },
        };
        let g: u32 = widen(gate[l]);
        let u: u32 = widen(up[r]);
        let s: u32 = silu(g);
        let product: u32 = times(s, u);
        let value: u16 = narrow(product);
        proof {
            assert(swiglu(*widen, *silu, *times, *narrow, gate@[l as int], up@[r as int], value));
            crate::backend::logical::store_one(
                meta,
                holds,
                linear as int,
                before,
                output@,
                value,
            );
        }
        output[o] = value;
        linear = linear + 1;
    }
    Ok(())
}


/// The first operand gates the second: the output element at `out` is the product of the
/// first operand, gone through SiLU, with the second, both at the same coordinates, an
/// operand of extent one along an axis being the same throughout.
pub proof fn first_operand_gates<
    W: Fn(u16) -> u32,
    S: Fn(u32) -> u32,
    M: Fn(u32, u32) -> u32,
    N: Fn(u32) -> u16,
>(
    plan: BroadcastPlan,
    widen: W,
    silu: S,
    times: M,
    narrow: N,
    first: Seq<u16>,
    second: Seq<u16>,
    before: Seq<u16>,
    after: Seq<u16>,
    out: Seq<nat>,
    left: Seq<nat>,
    right: Seq<nat>,
) -> (r: (u32, u32, u32, u32))
    requires
        plan.wf(),
        crate::backend::logical::spread(plan.output),
        crate::backend::logical::stored(
            plan.output,
            glu_holds(plan, widen, silu, times, narrow, first, second),
            plan.output.element_count as int,
            before,
            after,
        ),
        crate::backend::meta::coords_within(plan.output.dims(), out),
        crate::backend::meta::coords_within(plan.lhs.dims(), left),
        crate::backend::meta::coords_within(plan.rhs.dims(), right),
        forall|a: int|
            0 <= a < plan.lhs.rank && plan.lhs.shape[a] != 1 ==> #[trigger] left[a]
                == out[plan.output.rank - plan.lhs.rank + a],
        forall|a: int|
            0 <= a < plan.rhs.rank && plan.rhs.shape[a] != 1 ==> #[trigger] right[a]
                == out[plan.output.rank - plan.rhs.rank + a],
    ensures
        widen.ensures(
            (first[crate::backend::meta::place_of(
                plan.lhs.steps(),
                left,
                plan.lhs.rank as int,
            ) as int],),
            r.0,
        ),
        widen.ensures(
            (second[crate::backend::meta::place_of(
                plan.rhs.steps(),
                right,
                plan.rhs.rank as int,
            ) as int],),
            r.1,
        ),
        silu.ensures((r.0,), r.2),
        times.ensures((r.2, r.1), r.3),
        narrow.ensures(
            (r.3,),
            after[crate::backend::meta::place_of(
                plan.output.steps(),
                out,
                plan.output.rank as int,
            ) as int],
        ),
{
    let i = crate::backend::meta::linear_of(plan.output.dims(), out, plan.output.rank as int);
    crate::backend::meta::linear_is_within(plan.output.dims(), out, plan.output.rank as int);
    crate::backend::meta::coords_survive_linear(plan.output.dims(), out);
    assert(crate::backend::logical::lasting(
        plan.output,
        plan.output.element_count as int,
        i as int,
    ));
    crate::backend::binary::operand_is_under(plan.lhs, plan.output, i as int, out, left);
    crate::backend::binary::operand_is_under(plan.rhs, plan.output, i as int, out, right);
    let value = after[crate::backend::meta::place_of(
        plan.output.steps(),
        out,
        plan.output.rank as int,
    ) as int];
    let a = first[crate::backend::meta::place_of(plan.lhs.steps(), left, plan.lhs.rank as int) as int];
    let b = second[crate::backend::meta::place_of(plan.rhs.steps(), right, plan.rhs.rank as int) as int];
    assert(swiglu(widen, silu, times, narrow, a, b, value));
    let (g, u, s, product) = choose|g: u32, u: u32, s: u32, product: u32|
        {
            &&& widen.ensures((a,), g)
            &&& widen.ensures((b,), u)
            &&& #[trigger] silu.ensures((g,), s)
            &&& #[trigger] times.ensures((s, u), product)
            &&& narrow.ensures((product,), value)
        };
    (g, u, s, product)
}

} // verus!
