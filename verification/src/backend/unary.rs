//! Half-precision operators on single elements.

use crate::backend::call::CallContext;
use crate::uabi::desc::AiDtype;
use crate::uabi::error::BackendErr;
use crate::uabi::kernelattr::UnaryAttr;
use vstd::prelude::*;

verus! {

/// What is computed of each element.
#[derive(Clone, Copy, PartialEq, Eq, Structural, Debug)]
pub enum UnaryKind {
    /// `x / (1 + exp(-x))`.
    Silu,
    /// `1 / (1 + exp(-x))`.
    Sigmoid,
    /// `alpha * x + beta`.
    Scale,
}

/// What is wrong with a call, where anything is; otherwise the number of elements.
pub open spec fn unary_count(ctx: CallContext) -> Result<usize, BackendErr> {
    let input = ctx.inputs[0];
    let output = ctx.outputs[0];
    if ctx.inputs@.len() != 1 || ctx.outputs@.len() != 1 {
        Err(BackendErr::InvalidInput)
    } else if input.dtype.0 != AiDtype::F16 || output.dtype.0 != AiDtype::F16 {
        Err(BackendErr::UnsupportedDtype)
    } else if ctx.attr_as::<UnaryAttr>() is None {
        Err(BackendErr::InvalidAttr)
    } else {
        match (
            crate::backend::meta::typed_count(input, 2, 2),
            crate::backend::meta::typed_count(output, 2, 2),
        ) {
            (Some(read), Some(written)) => if read == written {
                Ok(read)
            } else {
                Err(BackendErr::InvalidTensor)
            },
            _ => Err(BackendErr::InvalidTensor),
        }
    }
}

/// Checks a call and gives its attribute and the number of elements.
pub fn check_unary(ctx: &CallContext) -> (r: Result<(UnaryAttr, usize), BackendErr>)
    requires
        ctx.wf(),
    ensures
        match r {
            Ok((attr, count)) => unary_count(*ctx) == Ok::<usize, BackendErr>(count)
                && ctx.attr_as::<UnaryAttr>() == Some(attr),
            Err(err) => unary_count(*ctx) == Err::<usize, BackendErr>(err),
        },
{
    ctx.expect_io(1, 1)?;
    if ctx.inputs[0].dtype.0 != AiDtype::F16 || ctx.outputs[0].dtype.0 != AiDtype::F16 {
        return Err(BackendErr::UnsupportedDtype);
    }
    let attr: UnaryAttr = ctx.read_attr::<UnaryAttr>()?;
    let read: usize = ctx.inputs[0].typed_len(2, 2)?;
    let written: usize = ctx.outputs[0].typed_len(2, 2)?;
    if read != written {
        return Err(BackendErr::InvalidTensor);
    }
    Ok((attr, read))
}

/// Every element is what the operator makes of the element at its place.
pub open spec fn each_mapped<F: Fn(u16) -> u16>(op: F, input: Seq<u16>, output: Seq<u16>) -> bool {
    &&& output.len() == input.len()
    &&& forall|i: int| 0 <= i < input.len() ==> op.ensures((input[i],), #[trigger] output[i])
}

/// Applies an operator to every element.
pub fn run_unary<F: Fn(u16) -> u16>(input: &[u16], output: &mut [u16], op: &F)
    requires
        input@.len() == old(output)@.len(),
        forall|x: u16| #[trigger] op.requires((x,)),
    ensures
        final(output)@.len() == old(output)@.len(),
        each_mapped(*op, input@, final(output)@),
{
    let count: usize = input.len();
    let ghost before = output@;
    let mut i: usize = 0;
    while i < count
        invariant
            i <= count == input@.len(),
            output@.len() == before.len() == count,
            forall|x: u16| #[trigger] op.requires((x,)),
            forall|j: int| 0 <= j < i ==> op.ensures((input@[j],), #[trigger] output@[j]),
        decreases count - i,
    {
        output[i] = op(input[i]);
        i = i + 1;
    }
}

/// Elements stay at their places: an operator that gives back what it is given changes
/// nothing, and equal elements give equal results where the operator does.
pub proof fn elements_keep_their_places<F: Fn(u16) -> u16>(
    op: F,
    made: spec_fn(u16) -> u16,
    input: Seq<u16>,
    output: Seq<u16>,
)
    requires
        each_mapped(op, input, output),
        forall|x: u16, y: u16| #[trigger] op.ensures((x,), y) ==> y == made(x),
    ensures
        output == Seq::new(input.len(), |i: int| made(input[i])),
        (forall|x: u16| #[trigger] made(x) == x) ==> output == input,
{
    assert(output =~= Seq::new(input.len(), |i: int| made(input[i])));
    if forall|x: u16| #[trigger] made(x) == x {
        assert(output =~= input) by {
            assert forall|i: int| 0 <= i < input.len() implies output[i] == input[i] by {
                assert(made(input[i]) == input[i]);
            }
        }
    }
}

} // verus!
