//! From the operation of a node to the kernel that runs it.

use crate::backend::binary::check_binary;
use crate::backend::call::{BackendCall, CallContext};
use crate::backend::cast::check_cast;
use crate::backend::concat::check_concat;
use crate::backend::conv2d::check_conv2d;
use crate::backend::gather::{check_gather, check_gather_elements};
use crate::backend::glu::check_glu;
use crate::backend::matmul::check_matmul;
use crate::backend::meta::BackendTensorView;
use crate::backend::nn::{check_rms_norm, check_rope, check_softmax};
use crate::backend::pool::check_max_pool;
use crate::backend::reduce::check_reduce_max;
use crate::backend::resize::check_resize;
use crate::backend::topk::check_top_k;
use crate::backend::transform::{check_copy, check_expand, check_tile, check_transpose};
use crate::backend::unary::check_unary;
use crate::uabi::desc::MAX_SUBMIT_TENSORS;
use crate::uabi::error::BackendErr;
use crate::uabi::kernel::KernelOp;
use crate::uabi::node::AiGraphNode;
use vstd::prelude::*;

verus! {

/// A kernel that operations are statically bound to.
pub trait ComputeKernel {
    /// The operation that the kernel handles.
    const OP: u8;

    /// What is wrong with a call of the kernel, where anything is.
    spec fn fault(ctx: CallContext) -> Option<BackendErr>;

    /// Checks a call before it is run.
    fn check(ctx: &CallContext) -> (r: Result<(), BackendErr>)
        requires
            ctx.wf(),
        ensures
            r == (match Self::fault(*ctx) {
                None => Ok::<(), BackendErr>(()),
                Some(err) => Err(err),
            }),
    ;
}

/// Matrix product.
pub struct MatMulKernel;

impl ComputeKernel for MatMulKernel {
    const OP: u8 = KernelOp::MAT_MUL;

    open spec fn fault(ctx: CallContext) -> Option<BackendErr> {
        match crate::backend::matmul::matmul_plan(ctx) {
            Ok(_) => None,
            Err(err) => Some(err),
        }
    }

    fn check(ctx: &CallContext) -> (r: Result<(), BackendErr>) {
        match check_matmul(ctx) {
            Ok(_) => Ok(()),
            Err(err) => Err(err),
        }
    }
}

/// Two-dimensional convolution.
pub struct Conv2dKernel;

impl ComputeKernel for Conv2dKernel {
    const OP: u8 = KernelOp::CONV2D;

    open spec fn fault(ctx: CallContext) -> Option<BackendErr> {
        match crate::backend::conv2d::conv2d_plan(ctx) {
            Ok(_) => None,
            Err(err) => Some(err),
        }
    }

    fn check(ctx: &CallContext) -> (r: Result<(), BackendErr>) {
        match check_conv2d(ctx) {
            Ok(_) => Ok(()),
            Err(err) => Err(err),
        }
    }
}

/// Element-wise sum.
pub struct AddKernel;

impl ComputeKernel for AddKernel {
    const OP: u8 = KernelOp::ADD;

    open spec fn fault(ctx: CallContext) -> Option<BackendErr> {
        crate::backend::binary::binary_fault(ctx)
    }

    fn check(ctx: &CallContext) -> (r: Result<(), BackendErr>) {
        match check_binary(ctx) {
            Ok(_) => Ok(()),
            Err(err) => Err(err),
        }
    }
}

/// Element-wise product.
pub struct MulKernel;

impl ComputeKernel for MulKernel {
    const OP: u8 = KernelOp::MUL;

    open spec fn fault(ctx: CallContext) -> Option<BackendErr> {
        crate::backend::binary::binary_fault(ctx)
    }

    fn check(ctx: &CallContext) -> (r: Result<(), BackendErr>) {
        match check_binary(ctx) {
            Ok(_) => Ok(()),
            Err(err) => Err(err),
        }
    }
}

/// Element-wise difference.
pub struct SubKernel;

impl ComputeKernel for SubKernel {
    const OP: u8 = KernelOp::SUB;

    open spec fn fault(ctx: CallContext) -> Option<BackendErr> {
        crate::backend::binary::binary_fault(ctx)
    }

    fn check(ctx: &CallContext) -> (r: Result<(), BackendErr>) {
        match check_binary(ctx) {
            Ok(_) => Ok(()),
            Err(err) => Err(err),
        }
    }
}

/// Element-wise quotient.
pub struct DivKernel;

impl ComputeKernel for DivKernel {
    const OP: u8 = KernelOp::DIV;

    open spec fn fault(ctx: CallContext) -> Option<BackendErr> {
        crate::backend::binary::binary_fault(ctx)
    }

    fn check(ctx: &CallContext) -> (r: Result<(), BackendErr>) {
        match check_binary(ctx) {
            Ok(_) => Ok(()),
            Err(err) => Err(err),
        }
    }
}

/// Element-wise remainder.
pub struct ModKernel;

impl ComputeKernel for ModKernel {
    const OP: u8 = KernelOp::MOD;

    open spec fn fault(ctx: CallContext) -> Option<BackendErr> {
        crate::backend::binary::binary_fault(ctx)
    }

    fn check(ctx: &CallContext) -> (r: Result<(), BackendErr>) {
        match check_binary(ctx) {
            Ok(_) => Ok(()),
            Err(err) => Err(err),
        }
    }
}

/// Sigmoid-weighted linear unit.
pub struct SiluKernel;

impl ComputeKernel for SiluKernel {
    const OP: u8 = KernelOp::SILU;

    open spec fn fault(ctx: CallContext) -> Option<BackendErr> {
        match crate::backend::unary::unary_count(ctx) {
            Ok(_) => None,
            Err(err) => Some(err),
        }
    }

    fn check(ctx: &CallContext) -> (r: Result<(), BackendErr>) {
        match check_unary(ctx) {
            Ok(_) => Ok(()),
            Err(err) => Err(err),
        }
    }
}

/// Logistic function.
pub struct SigmoidKernel;

impl ComputeKernel for SigmoidKernel {
    const OP: u8 = KernelOp::SIGMOID;

    open spec fn fault(ctx: CallContext) -> Option<BackendErr> {
        match crate::backend::unary::unary_count(ctx) {
            Ok(_) => None,
            Err(err) => Some(err),
        }
    }

    fn check(ctx: &CallContext) -> (r: Result<(), BackendErr>) {
        match check_unary(ctx) {
            Ok(_) => Ok(()),
            Err(err) => Err(err),
        }
    }
}

/// Multiplication by a constant.
pub struct ScaleKernel;

impl ComputeKernel for ScaleKernel {
    const OP: u8 = KernelOp::SCALE;

    open spec fn fault(ctx: CallContext) -> Option<BackendErr> {
        match crate::backend::unary::unary_count(ctx) {
            Ok(_) => None,
            Err(err) => Some(err),
        }
    }

    fn check(ctx: &CallContext) -> (r: Result<(), BackendErr>) {
        match check_unary(ctx) {
            Ok(_) => Ok(()),
            Err(err) => Err(err),
        }
    }
}

/// Normalised exponentials along an axis.
pub struct SoftmaxKernel;

impl ComputeKernel for SoftmaxKernel {
    const OP: u8 = KernelOp::SOFTMAX;

    open spec fn fault(ctx: CallContext) -> Option<BackendErr> {
        crate::backend::nn::softmax_fault(ctx)
    }

    fn check(ctx: &CallContext) -> (r: Result<(), BackendErr>) {
        match check_softmax(ctx) {
            Ok(_) => Ok(()),
            Err(err) => Err(err),
        }
    }
}

/// Normalisation by the root mean square.
pub struct RmsNormKernel;

impl ComputeKernel for RmsNormKernel {
    const OP: u8 = KernelOp::RMS_NORM;

    open spec fn fault(ctx: CallContext) -> Option<BackendErr> {
        crate::backend::nn::rms_norm_fault(ctx)
    }

    fn check(ctx: &CallContext) -> (r: Result<(), BackendErr>) {
        match check_rms_norm(ctx) {
            Ok(_) => Ok(()),
            Err(err) => Err(err),
        }
    }
}

/// Rotary position embedding.
pub struct RopeKernel;

impl ComputeKernel for RopeKernel {
    const OP: u8 = KernelOp::ROPE;

    open spec fn fault(ctx: CallContext) -> Option<BackendErr> {
        crate::backend::nn::rope_fault(ctx)
    }

    fn check(ctx: &CallContext) -> (r: Result<(), BackendErr>) {
        match check_rope(ctx) {
            Ok(_) => Ok(()),
            Err(err) => Err(err),
        }
    }
}

/// Gated linear unit.
pub struct GluKernel;

impl ComputeKernel for GluKernel {
    const OP: u8 = KernelOp::GLU;

    open spec fn fault(ctx: CallContext) -> Option<BackendErr> {
        crate::backend::glu::glu_fault(ctx)
    }

    fn check(ctx: &CallContext) -> (r: Result<(), BackendErr>) {
        match check_glu(ctx) {
            Ok(_) => Ok(()),
            Err(err) => Err(err),
        }
    }
}

/// Maximum over windows.
pub struct MaxPoolKernel;

impl ComputeKernel for MaxPoolKernel {
    const OP: u8 = KernelOp::MAX_POOL;

    open spec fn fault(ctx: CallContext) -> Option<BackendErr> {
        crate::backend::pool::max_pool_fault(ctx)
    }

    fn check(ctx: &CallContext) -> (r: Result<(), BackendErr>) {
        match check_max_pool(ctx) {
            Ok(_) => Ok(()),
            Err(err) => Err(err),
        }
    }
}

/// Maximum over a set of axes.
pub struct ReduceMaxKernel;

impl ComputeKernel for ReduceMaxKernel {
    const OP: u8 = KernelOp::REDUCE_MAX;

    open spec fn fault(ctx: CallContext) -> Option<BackendErr> {
        crate::backend::reduce::reduce_max_fault(ctx)
    }

    fn check(ctx: &CallContext) -> (r: Result<(), BackendErr>) {
        match check_reduce_max(ctx) {
            Ok(_) => Ok(()),
            Err(err) => Err(err),
        }
    }
}

/// The largest or smallest elements along an axis.
pub struct TopKKernel;

impl ComputeKernel for TopKKernel {
    const OP: u8 = KernelOp::TOP_K;

    open spec fn fault(ctx: CallContext) -> Option<BackendErr> {
        crate::backend::topk::top_k_fault(ctx)
    }

    fn check(ctx: &CallContext) -> (r: Result<(), BackendErr>) {
        match check_top_k(ctx) {
            Ok(_) => Ok(()),
            Err(err) => Err(err),
        }
    }
}

/// Tensors joined along an axis.
pub struct ConcatKernel;

impl ComputeKernel for ConcatKernel {
    const OP: u8 = KernelOp::CONCAT;

    open spec fn fault(ctx: CallContext) -> Option<BackendErr> {
        crate::backend::concat::concat_fault(ctx)
    }

    fn check(ctx: &CallContext) -> (r: Result<(), BackendErr>) {
        match check_concat(ctx) {
            Ok(_) => Ok(()),
            Err(err) => Err(err),
        }
    }
}

/// Axes in another order.
pub struct TransposeKernel;

impl ComputeKernel for TransposeKernel {
    const OP: u8 = KernelOp::TRANSPOSE;

    open spec fn fault(ctx: CallContext) -> Option<BackendErr> {
        crate::backend::transform::transpose_fault(ctx)
    }

    fn check(ctx: &CallContext) -> (r: Result<(), BackendErr>) {
        match check_transpose(ctx) {
            Ok(_) => Ok(()),
            Err(err) => Err(err),
        }
    }
}

/// Slices picked along an axis.
pub struct GatherKernel;

impl ComputeKernel for GatherKernel {
    const OP: u8 = KernelOp::GATHER;

    open spec fn fault(ctx: CallContext) -> Option<BackendErr> {
        crate::backend::gather::gather_fault(ctx)
    }

    fn check(ctx: &CallContext) -> (r: Result<(), BackendErr>) {
        match check_gather(ctx) {
            Ok(_) => Ok(()),
            Err(err) => Err(err),
        }
    }
}

/// Elements picked along an axis.
pub struct GatherElementsKernel;

impl ComputeKernel for GatherElementsKernel {
    const OP: u8 = KernelOp::GATHER_ELEMENTS;

    open spec fn fault(ctx: CallContext) -> Option<BackendErr> {
        crate::backend::gather::gather_elements_fault(ctx)
    }

    fn check(ctx: &CallContext) -> (r: Result<(), BackendErr>) {
        match check_gather_elements(ctx) {
            Ok(_) => Ok(()),
            Err(err) => Err(err),
        }
    }
}

/// Copy with a change of shape.
pub struct CopyKernel;

impl ComputeKernel for CopyKernel {
    const OP: u8 = KernelOp::COPY;

    open spec fn fault(ctx: CallContext) -> Option<BackendErr> {
        crate::backend::transform::copy_fault(ctx)
    }

    fn check(ctx: &CallContext) -> (r: Result<(), BackendErr>) {
        match check_copy(ctx) {
            Ok(_) => Ok(()),
            Err(err) => Err(err),
        }
    }
}

/// Change of the element type.
pub struct CastKernel;

impl ComputeKernel for CastKernel {
    const OP: u8 = KernelOp::CAST;

    open spec fn fault(ctx: CallContext) -> Option<BackendErr> {
        crate::backend::cast::cast_fault(ctx)
    }

    fn check(ctx: &CallContext) -> (r: Result<(), BackendErr>) {
        match check_cast(ctx) {
            Ok(_) => Ok(()),
            Err(err) => Err(err),
        }
    }
}

/// Change of an image's size.
pub struct ResizeKernel;

impl ComputeKernel for ResizeKernel {
    const OP: u8 = KernelOp::RESIZE;

    open spec fn fault(ctx: CallContext) -> Option<BackendErr> {
        crate::backend::resize::resize_fault(ctx)
    }

    fn check(ctx: &CallContext) -> (r: Result<(), BackendErr>) {
        match check_resize(ctx) {
            Ok(_) => Ok(()),
            Err(err) => Err(err),
        }
    }
}

/// Axes of extent one stretched.
pub struct ExpandKernel;

impl ComputeKernel for ExpandKernel {
    const OP: u8 = KernelOp::EXPAND;

    open spec fn fault(ctx: CallContext) -> Option<BackendErr> {
        crate::backend::transform::expand_fault(ctx)
    }

    fn check(ctx: &CallContext) -> (r: Result<(), BackendErr>) {
        match check_expand(ctx) {
            Ok(_) => Ok(()),
            Err(err) => Err(err),
        }
    }
}

/// A tensor repeated along its axes.
pub struct TileKernel;

impl ComputeKernel for TileKernel {
    const OP: u8 = KernelOp::TILE;

    open spec fn fault(ctx: CallContext) -> Option<BackendErr> {
        crate::backend::transform::tile_fault(ctx)
    }

    fn check(ctx: &CallContext) -> (r: Result<(), BackendErr>) {
        match check_tile(ctx) {
            Ok(_) => Ok(()),
            Err(err) => Err(err),
        }
    }
}

/// The kernels that nodes can ask for.
#[derive(Clone, Copy, PartialEq, Eq, Structural, Debug)]
pub enum Kernel {
    /// Matrix product.
    MatMul,
    /// Two-dimensional convolution.
    Conv2d,
    /// Element-wise sum.
    Add,
    /// Element-wise product.
    Mul,
    /// Element-wise difference.
    Sub,
    /// Element-wise quotient.
    Div,
    /// Element-wise remainder.
    Mod,
    /// Sigmoid-weighted linear unit.
    Silu,
    /// Logistic function.
    Sigmoid,
    /// Multiplication by a constant.
    Scale,
    /// Normalised exponentials along an axis.
    Softmax,
    /// Normalisation by the root mean square.
    RmsNorm,
    /// Rotary position embedding.
    Rope,
    /// Gated linear unit.
    Glu,
    /// Maximum over windows.
    MaxPool,
    /// Maximum over a set of axes.
    ReduceMax,
    /// The largest or smallest elements along an axis.
    TopK,
    /// Tensors joined along an axis.
    Concat,
    /// Axes in another order.
    Transpose,
    /// Slices picked along an axis.
    Gather,
    /// Elements picked along an axis.
    GatherElements,
    /// Copy with a change of shape.
    Copy,
    /// Change of the element type.
    Cast,
    /// Change of an image's size.
    Resize,
    /// Axes of extent one stretched.
    Expand,
    /// A tensor repeated along its axes.
    Tile,
}

impl Kernel {
    /// The operation that the kernel handles.
    pub open spec fn op(self) -> u8 {
        match self {
            Kernel::MatMul => KernelOp::MAT_MUL,
            Kernel::Conv2d => KernelOp::CONV2D,
            Kernel::Add => KernelOp::ADD,
            Kernel::Mul => KernelOp::MUL,
            Kernel::Sub => KernelOp::SUB,
            Kernel::Div => KernelOp::DIV,
            Kernel::Mod => KernelOp::MOD,
            Kernel::Silu => KernelOp::SILU,
            Kernel::Sigmoid => KernelOp::SIGMOID,
            Kernel::Scale => KernelOp::SCALE,
            Kernel::Softmax => KernelOp::SOFTMAX,
            Kernel::RmsNorm => KernelOp::RMS_NORM,
            Kernel::Rope => KernelOp::ROPE,
            Kernel::Glu => KernelOp::GLU,
            Kernel::MaxPool => KernelOp::MAX_POOL,
            Kernel::ReduceMax => KernelOp::REDUCE_MAX,
            Kernel::TopK => KernelOp::TOP_K,
            Kernel::Concat => KernelOp::CONCAT,
            Kernel::Transpose => KernelOp::TRANSPOSE,
            Kernel::Gather => KernelOp::GATHER,
            Kernel::GatherElements => KernelOp::GATHER_ELEMENTS,
            Kernel::Copy => KernelOp::COPY,
            Kernel::Cast => KernelOp::CAST,
            Kernel::Resize => KernelOp::RESIZE,
            Kernel::Expand => KernelOp::EXPAND,
            Kernel::Tile => KernelOp::TILE,
        }
    }

    /// What is wrong with a call of the kernel, where anything is.
    pub open spec fn fault(self, ctx: CallContext) -> Option<BackendErr> {
        match self {
            Kernel::MatMul => match crate::backend::matmul::matmul_plan(ctx) {
                Ok(_) => None,
                Err(err) => Some(err),
            },
            Kernel::Conv2d => match crate::backend::conv2d::conv2d_plan(ctx) {
                Ok(_) => None,
                Err(err) => Some(err),
            },
            Kernel::Add => crate::backend::binary::binary_fault(ctx),
            Kernel::Mul => crate::backend::binary::binary_fault(ctx),
            Kernel::Sub => crate::backend::binary::binary_fault(ctx),
            Kernel::Div => crate::backend::binary::binary_fault(ctx),
            Kernel::Mod => crate::backend::binary::binary_fault(ctx),
            Kernel::Silu => match crate::backend::unary::unary_count(ctx) {
                Ok(_) => None,
                Err(err) => Some(err),
            },
            Kernel::Sigmoid => match crate::backend::unary::unary_count(ctx) {
                Ok(_) => None,
                Err(err) => Some(err),
            },
            Kernel::Scale => match crate::backend::unary::unary_count(ctx) {
                Ok(_) => None,
                Err(err) => Some(err),
            },
            Kernel::Softmax => crate::backend::nn::softmax_fault(ctx),
            Kernel::RmsNorm => crate::backend::nn::rms_norm_fault(ctx),
            Kernel::Rope => crate::backend::nn::rope_fault(ctx),
            Kernel::Glu => crate::backend::glu::glu_fault(ctx),
            Kernel::MaxPool => crate::backend::pool::max_pool_fault(ctx),
            Kernel::ReduceMax => crate::backend::reduce::reduce_max_fault(ctx),
            Kernel::TopK => crate::backend::topk::top_k_fault(ctx),
            Kernel::Concat => crate::backend::concat::concat_fault(ctx),
            Kernel::Transpose => crate::backend::transform::transpose_fault(ctx),
            Kernel::Gather => crate::backend::gather::gather_fault(ctx),
            Kernel::GatherElements => crate::backend::gather::gather_elements_fault(ctx),
            Kernel::Copy => crate::backend::transform::copy_fault(ctx),
            Kernel::Cast => crate::backend::cast::cast_fault(ctx),
            Kernel::Resize => crate::backend::resize::resize_fault(ctx),
            Kernel::Expand => crate::backend::transform::expand_fault(ctx),
            Kernel::Tile => crate::backend::transform::tile_fault(ctx),
        }
    }

    /// The kernel that handles an operation.
    pub fn of(op: KernelOp) -> (r: Option<Kernel>)
        ensures
            match r {
                Some(kernel) => kernel.op() == op.0,
                None => forall|kernel: Kernel| #[trigger] kernel.op() != op.0,
            },
    {
        if op.0 == MatMulKernel::OP {
            Some(Kernel::MatMul)
        } else if op.0 == Conv2dKernel::OP {
            Some(Kernel::Conv2d)
        } else if op.0 == AddKernel::OP {
            Some(Kernel::Add)
        } else if op.0 == MulKernel::OP {
            Some(Kernel::Mul)
        } else if op.0 == SubKernel::OP {
            Some(Kernel::Sub)
        } else if op.0 == DivKernel::OP {
            Some(Kernel::Div)
        } else if op.0 == ModKernel::OP {
            Some(Kernel::Mod)
        } else if op.0 == SiluKernel::OP {
            Some(Kernel::Silu)
        } else if op.0 == SigmoidKernel::OP {
            Some(Kernel::Sigmoid)
        } else if op.0 == ScaleKernel::OP {
            Some(Kernel::Scale)
        } else if op.0 == SoftmaxKernel::OP {
            Some(Kernel::Softmax)
        } else if op.0 == RmsNormKernel::OP {
            Some(Kernel::RmsNorm)
        } else if op.0 == RopeKernel::OP {
            Some(Kernel::Rope)
        } else if op.0 == GluKernel::OP {
            Some(Kernel::Glu)
        } else if op.0 == MaxPoolKernel::OP {
            Some(Kernel::MaxPool)
        } else if op.0 == ReduceMaxKernel::OP {
            Some(Kernel::ReduceMax)
        } else if op.0 == TopKKernel::OP {
            Some(Kernel::TopK)
        } else if op.0 == ConcatKernel::OP {
            Some(Kernel::Concat)
        } else if op.0 == TransposeKernel::OP {
            Some(Kernel::Transpose)
        } else if op.0 == GatherKernel::OP {
            Some(Kernel::Gather)
        } else if op.0 == GatherElementsKernel::OP {
            Some(Kernel::GatherElements)
        } else if op.0 == CopyKernel::OP {
            Some(Kernel::Copy)
        } else if op.0 == CastKernel::OP {
            Some(Kernel::Cast)
        } else if op.0 == ResizeKernel::OP {
            Some(Kernel::Resize)
        } else if op.0 == ExpandKernel::OP {
            Some(Kernel::Expand)
        } else if op.0 == TileKernel::OP {
            Some(Kernel::Tile)
        } else {
            None
        }
    }

    /// Checks a call of the kernel before it is run.
    pub fn check(self, ctx: &CallContext) -> (r: Result<(), BackendErr>)
        requires
            ctx.wf(),
        ensures
            r == (match self.fault(*ctx) {
                None => Ok::<(), BackendErr>(()),
                Some(err) => Err(err),
            }),
    {
        match self {
            Kernel::MatMul => MatMulKernel::check(ctx),
            Kernel::Conv2d => Conv2dKernel::check(ctx),
            Kernel::Add => AddKernel::check(ctx),
            Kernel::Mul => MulKernel::check(ctx),
            Kernel::Sub => SubKernel::check(ctx),
            Kernel::Div => DivKernel::check(ctx),
            Kernel::Mod => ModKernel::check(ctx),
            Kernel::Silu => SiluKernel::check(ctx),
            Kernel::Sigmoid => SigmoidKernel::check(ctx),
            Kernel::Scale => ScaleKernel::check(ctx),
            Kernel::Softmax => SoftmaxKernel::check(ctx),
            Kernel::RmsNorm => RmsNormKernel::check(ctx),
            Kernel::Rope => RopeKernel::check(ctx),
            Kernel::Glu => GluKernel::check(ctx),
            Kernel::MaxPool => MaxPoolKernel::check(ctx),
            Kernel::ReduceMax => ReduceMaxKernel::check(ctx),
            Kernel::TopK => TopKKernel::check(ctx),
            Kernel::Concat => ConcatKernel::check(ctx),
            Kernel::Transpose => TransposeKernel::check(ctx),
            Kernel::Gather => GatherKernel::check(ctx),
            Kernel::GatherElements => GatherElementsKernel::check(ctx),
            Kernel::Copy => CopyKernel::check(ctx),
            Kernel::Cast => CastKernel::check(ctx),
            Kernel::Resize => ResizeKernel::check(ctx),
            Kernel::Expand => ExpandKernel::check(ctx),
            Kernel::Tile => TileKernel::check(ctx),
        }
    }
}

/// No two kernels handle the same operation.
pub proof fn kernels_have_own_operations(a: Kernel, b: Kernel)
    ensures
        a.op() == b.op() <==> a == b,
{
}

/// The views of the described tensors from `from` to `to`.
pub open spec fn views_of(node: AiGraphNode, from: int, to: int, views: Seq<BackendTensorView>) -> bool {
    &&& views.len() == to - from
    &&& forall|i: int|
        0 <= i < views.len() ==> (#[trigger] views[i]).describes(node.desc.tensors[from + i])
}

/// The kernel of a node and the call that it makes.
pub open spec fn prepared(node: AiGraphNode, kernel: Kernel, ctx: CallContext) -> bool {
    let inputs = node.desc.input_count.0 as int;
    &&& kernel.op() == node.desc.op.0
    &&& ctx.target == crate::backend::call::settled_target(node.desc.target_hint.0)
    &&& views_of(node, 0, inputs, ctx.inputs@)
    &&& views_of(node, inputs, inputs + node.desc.output_count.0, ctx.outputs@)
    &&& ctx.attr matches Some(bytes) && bytes@ == node.desc.attr_inline@
    &&& ctx.attr_size == node.desc.attr_size.0
}

/// What is wrong with a node before its kernel looks at the call.
pub open spec fn node_fault(node: AiGraphNode) -> Option<BackendErr> {
    if node.desc.input_count.0 + node.desc.output_count.0 > MAX_SUBMIT_TENSORS {
        Some(BackendErr::InvalidInput)
    } else if forall|kernel: Kernel| #[trigger] kernel.op() != node.desc.op.0 {
        Some(BackendErr::UnsupportedOp)
    } else if !node.desc.target_hint.known() {
        Some(BackendErr::UnsupportedOp)
    } else {
        None
    }
}

fn collect_views(node: &AiGraphNode, from: usize, to: usize) -> (r: Vec<BackendTensorView>)
    requires
        from <= to <= 8,
    ensures
        views_of(*node, from as int, to as int, r@),
{
    let mut views: Vec<BackendTensorView> = Vec::new();
    let mut i: usize = from;
    while i < to
        invariant
            from <= i <= to <= 8,
            views_of(*node, from as int, i as int, views@),
        decreases to - i,
    {
        views.push(BackendTensorView::from_desc(&node.desc.tensors[i]));
        i = i + 1;
    }
    views
}

/// Picks the kernel of a node and builds the call: inputs and outputs at their kernel
/// addresses, to be run where the node's target hint says.
pub fn prepare(node: &AiGraphNode) -> (r: Result<(Kernel, CallContext), BackendErr>)
    ensures
        match r {
            Ok((kernel, ctx)) => {
                &&& node_fault(*node) is None
                &&& prepared(*node, kernel, ctx)
                &&& ctx.wf()
            },
            Err(err) => node_fault(*node) == Some(err),
        },
{
    let total: usize = match node.desc.input_count.checked_total(node.desc.output_count) {
        Ok(total) => total,
        Err(_) => {
            return Err(BackendErr::InvalidInput);
        },
    };
    if total > MAX_SUBMIT_TENSORS {
        return Err(BackendErr::InvalidInput);
    }
    let kernel: Kernel = match Kernel::of(node.desc.op) {
        Some(kernel) => kernel,
        None => {
            return Err(BackendErr::UnsupportedOp);
        },
    };
    assert(kernel.op() == node.desc.op.0);
    let input_count: usize = node.desc.input_count.0 as usize;
    let mut attr: Vec<u8> = Vec::new();
    let mut i: usize = 0;
    while i < 128
        invariant
            i <= 128,
            attr@ =~= node.desc.attr_inline@.subrange(0, i as int),
        decreases 128 - i,
    {
        attr.push(node.desc.attr_inline[i]);
        i = i + 1;
    }
    let call = BackendCall {
        op: node.desc.op,
        target: node.desc.target_hint.0,
        inputs: Some(collect_views(node, 0, input_count)),
        input_count: node.desc.input_count,
        outputs: Some(collect_views(node, input_count, total)),
        output_count: node.desc.output_count,
        attr: Some(attr),
        attr_size: node.desc.attr_size,
    };
    assert(attr@ =~= node.desc.attr_inline@);
    let ctx: CallContext = CallContext::from_call(Some(call))?;
    Ok((kernel, ctx))
}

/// The node after its kernel has ended with `result`.
pub open spec fn concluded(node: AiGraphNode, result: Result<(), BackendErr>) -> AiGraphNode {
    AiGraphNode {
        state: crate::uabi::node::AiGraphState {
            complete: 1,
            error_flag: match result {
                Ok(_) => node.state.error_flag,
                Err(err) => err.code_of(),
            },
        },
        ..node
    }
}

/// Zero, or the negated code of the error.
pub open spec fn return_code(result: Result<(), BackendErr>) -> int {
    match result {
        Ok(_) => 0,
        Err(err) => -(err.code_of() as int),
    }
}

/// Marks a node as complete, notes the error where there is one, and gives the return
/// code.
pub fn conclude(node: &mut AiGraphNode, result: Result<(), BackendErr>) -> (r: i32)
    ensures
        *final(node) == concluded(*old(node), result),
        r == return_code(result),
{
    node.state.complete = 1;
    match result {
        Ok(_) => 0,
        Err(err) => {
            let code: u8 = err.code();
            node.state.error_flag = code;
            -(code as i32)
        },
    }
}

/// Runs a node: picks its kernel, checks the call, hands it to `run`, and marks the node.
/// `run` sees only calls that passed every check.
pub fn k3_run_kernel<R: Fn(Kernel, &CallContext) -> Result<(), BackendErr>>(
    node: &mut AiGraphNode,
    run: &R,
) -> (r: i32)
    requires
        forall|kernel: Kernel, ctx: CallContext|
            prepared(*old(node), kernel, ctx) && ctx.wf() && kernel.fault(ctx) is None
                ==> #[trigger] run.requires((kernel, &ctx)),
    ensures
        kernel_ran(*old(node), run, *final(node), r),
{
    let result: Result<(), BackendErr> = match prepare(node) {
        Ok((kernel, ctx)) => match kernel.check(&ctx) {
            Ok(_) => {
                let ran: Result<(), BackendErr> = run(kernel, &ctx);
                assert(answered(*node, run, kernel, ctx, ran));
                ran
            },
            Err(err) => {
                let refused: Result<(), BackendErr> = Err(err);
                assert(answered(*node, run, kernel, ctx, refused));
                refused
            },
        },
        Err(err) => Err(err),
    };
    let ghost before = *node;
    assert(outcome(before, run, result));
    let code: i32 = conclude(node, result);
    assert(*node == concluded(before, result));
    code
}

/// A node was run: it ended in some way, which its state and the code tell.
pub open spec fn kernel_ran<R: Fn(Kernel, &CallContext) -> Result<(), BackendErr>>(
    before: AiGraphNode,
    run: &R,
    after: AiGraphNode,
    code: i32,
) -> bool {
    exists|result: Result<(), BackendErr>|
        {
            &&& after == #[trigger] concluded(before, result)
            &&& code == return_code(result)
            &&& outcome(before, run, result)
        }
}

/// How a call ends: with what is wrong with it, or else as `run` says.
pub open spec fn answered<R: Fn(Kernel, &CallContext) -> Result<(), BackendErr>>(
    node: AiGraphNode,
    run: &R,
    kernel: Kernel,
    ctx: CallContext,
    result: Result<(), BackendErr>,
) -> bool {
    &&& prepared(node, kernel, ctx)
    &&& ctx.wf()
    &&& match kernel.fault(ctx) {
        Some(err) => result == Err::<(), BackendErr>(err),
        None => run.ensures((kernel, &ctx), result),
    }
}

/// How a node ends: refused as it stands, or as its call ends.
pub open spec fn outcome<R: Fn(Kernel, &CallContext) -> Result<(), BackendErr>>(
    node: AiGraphNode,
    run: &R,
    result: Result<(), BackendErr>,
) -> bool {
    match node_fault(node) {
        Some(err) => result == Err::<(), BackendErr>(err),
        None => exists|kernel: Kernel, ctx: CallContext| #[trigger]
            answered(node, run, kernel, ctx, result),
    }
}


/// A node that was run is marked as complete, and the code says how: zero leaves the error
/// flag alone, and a negative code is the error flag, negated. Nothing else of it changes.
pub proof fn run_node_tells_its_result<R: Fn(Kernel, &CallContext) -> Result<(), BackendErr>>(
    before: AiGraphNode,
    run: &R,
    after: AiGraphNode,
    code: i32,
)
    requires
        kernel_ran(before, run, after, code),
    ensures
        after.state.complete == 1,
        code <= 0,
        code == 0 ==> after.state.error_flag == before.state.error_flag,
        code < 0 ==> after.state.error_flag == -code,
        after.node_id == before.node_id,
        after.desc == before.desc,
{
}

/// A node with an unknown operation or target, or with more tensors than fit, is refused
/// without a call, whatever the kernels would do.
pub proof fn unknown_nodes_are_refused<R: Fn(Kernel, &CallContext) -> Result<(), BackendErr>>(
    before: AiGraphNode,
    run: &R,
    after: AiGraphNode,
    code: i32,
)
    requires
        kernel_ran(before, run, after, code),
        before.desc.input_count.0 + before.desc.output_count.0 > 8 || (forall|kernel: Kernel|
            #[trigger] kernel.op() != before.desc.op.0) || !before.desc.target_hint.known(),
    ensures
        code < 0,
{
}


/// No kernel runs where an input shares memory with an output, but for those that copy or work
/// element by element, and the matrix product, which leaves that to its caller.
pub proof fn shared_memory_is_refused(kernel: Kernel, ctx: CallContext)
    requires
        !crate::backend::call::no_overlap(ctx.inputs@, ctx.outputs@),
        kernel.fault(ctx) is None,
    ensures
        kernel == Kernel::Copy || kernel == Kernel::Silu || kernel == Kernel::Sigmoid || kernel
            == Kernel::Scale || kernel == Kernel::MatMul,
{
}

/// No kernel runs without an attribute area.
pub proof fn missing_attributes_are_refused(kernel: Kernel, ctx: CallContext)
    requires
        ctx.attr is None,
    ensures
        kernel.fault(ctx) is Some,
{
}

/// A kernel runs on as many tensors as it has operands, and gives out as many as it has
/// results.
pub proof fn kernels_take_their_operands(kernel: Kernel, ctx: CallContext)
    requires
        kernel.fault(ctx) is None,
    ensures
        ({
            let (ins, outs) = (ctx.inputs@.len(), ctx.outputs@.len());
            match kernel {
                Kernel::Add | Kernel::Mul | Kernel::Sub | Kernel::Div | Kernel::Mod
                | Kernel::Glu | Kernel::RmsNorm | Kernel::Gather
                | Kernel::GatherElements => ins == 2 && outs == 1,
                Kernel::Silu | Kernel::Sigmoid | Kernel::Scale | Kernel::Softmax
                | Kernel::ReduceMax | Kernel::Transpose | Kernel::Copy | Kernel::Cast
                | Kernel::Resize | Kernel::Expand | Kernel::Tile => ins == 1 && outs == 1,
                Kernel::MatMul => ins == 2 && outs == 1,
                Kernel::Conv2d => 2 <= ins <= 3 && outs == 1,
                Kernel::Rope => 1 <= ins <= 2 && outs == 1,
                Kernel::MaxPool => ins == 1 && 1 <= outs <= 2,
                Kernel::TopK => ins == 1 && outs == 2,
                Kernel::Concat => 1 <= ins && outs == 1,
            }
        }),
{
}


/// What was described is what is called: the kernel of the described operation, with the
/// described tensors, inputs before outputs, and the attribute as it was stored.
pub proof fn described_kernel_is_called<T: crate::uabi::kernelattr::InlineAttr>(
    node: AiGraphNode,
    attr: T,
    op: KernelOp,
    target_hint: crate::uabi::kernel::AiTargetHint,
    input_count: crate::uabi::types::TensorCount,
    output_count: crate::uabi::types::TensorCount,
    tensors: Seq<crate::uabi::desc::AiTensorDesc>,
    kernel: Kernel,
    ctx: CallContext,
)
    requires
        node.desc.describes(op, attr.words(), target_hint, input_count, output_count, tensors),
        tensors.len() == input_count.0 + output_count.0,
        tensors.len() <= 8,
        prepared(node, kernel, ctx),
    ensures
        kernel.op() == op.0,
        ctx.attr_as::<T>() == Some(attr),
        ctx.inputs@.len() == input_count.0,
        ctx.outputs@.len() == output_count.0,
        forall|i: int|
            0 <= i < input_count.0 ==> (#[trigger] ctx.inputs@[i]).describes(tensors[i]),
        forall|i: int|
            0 <= i < output_count.0 ==> (#[trigger] ctx.outputs@[i]).describes(
                tensors[input_count.0 + i],
            ),
        target_hint.0 != crate::uabi::kernel::AiTargetHint::AUTO ==> ctx.target == target_hint,
{
    attr.words_hold_fields();
    crate::backend::call::stored_attr_is_read(attr);
    assert forall|i: int| 0 <= i < input_count.0 implies (
    #[trigger] ctx.inputs@[i]).describes(tensors[i]) by {
        assert(node.desc.tensors[i] == tensors[i]);
        assert(node.desc.tensors[0 + i] == tensors[i]);
    }
    assert forall|i: int| 0 <= i < output_count.0 implies (
    #[trigger] ctx.outputs@[i]).describes(tensors[input_count.0 + i]) by {
        assert(node.desc.tensors[input_count.0 + i] == tensors[input_count.0 + i]);
    }
}

} // verus!
