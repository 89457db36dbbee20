//! Kernel operation codes and target hints.

use vstd::prelude::*;

verus! {

/// Operation code of a graph node.
#[derive(Clone, Copy, PartialEq, Eq, Structural, Debug)]
pub struct KernelOp(pub u8);

impl KernelOp {
    /// No operation. Zero is kept free so that a zeroed descriptor never names one.
    pub const INVALID: u8 = 0;

    /// Matrix multiplication.
    pub const MAT_MUL: u8 = 1;

    /// Root-mean-square normalisation.
    pub const RMS_NORM: u8 = 2;

    /// Rotary position encoding.
    pub const ROPE: u8 = 3;

    /// Softmax.
    pub const SOFTMAX: u8 = 4;

    /// Element-wise sum.
    pub const ADD: u8 = 5;

    /// Element-wise product.
    pub const MUL: u8 = 6;

    /// SiLU activation.
    pub const SILU: u8 = 7;

    /// Element-wise scale and shift.
    pub const SCALE: u8 = 8;

    /// Two-dimensional convolution.
    pub const CONV2D: u8 = 9;

    /// Sigmoid activation.
    pub const SIGMOID: u8 = 10;

    /// Concatenation along one axis.
    pub const CONCAT: u8 = 11;

    /// Permutation of the axes.
    pub const TRANSPOSE: u8 = 12;

    /// Selection of slices by index.
    pub const GATHER: u8 = 13;

    /// Two-dimensional maximum pooling.
    pub const MAX_POOL: u8 = 14;

    /// Conversion between element types.
    pub const CAST: u8 = 15;

    /// Two-dimensional resize.
    pub const RESIZE: u8 = 16;

    /// Element-wise quotient.
    pub const DIV: u8 = 17;

    /// The first `k` elements of each slice in order.
    pub const TOP_K: u8 = 18;

    /// Broadcast to a larger shape.
    pub const EXPAND: u8 = 19;

    /// Repetition along each axis.
    pub const TILE: u8 = 20;

    /// Selection of single elements by index.
    pub const GATHER_ELEMENTS: u8 = 21;

    /// Element-wise difference.
    pub const SUB: u8 = 22;

    /// Maximum over a set of axes.
    pub const REDUCE_MAX: u8 = 23;

    /// Element-wise remainder.
    pub const MOD: u8 = 24;

    /// Row lookup. Its code is a hole in the table of known operations.
    pub const GET_ROWS: u8 = 25;

    /// Row update. Its code is a hole in the table of known operations.
    pub const SET_ROWS: u8 = 26;

    /// Gated linear unit, for graphs that the runtime builds itself.
    pub const GLU: u8 = 27;

    /// Copy with a change of shape, for graphs that the runtime builds itself.
    pub const COPY: u8 = 28;

    /// Whether a foreign caller may ask for this operation.
    pub open spec fn known(self) -> bool {
        1 <= self.0 <= 24
    }

    /// Whether a foreign caller may ask for this operation.
    pub fn is_known(self) -> (r: bool)
        ensures
            r == self.known(),
    {
        1 <= self.0 && self.0 <= 24
    }
}

impl Default for KernelOp {
    fn default() -> (r: Self)
        ensures
            r == KernelOp(KernelOp::INVALID),
    {
        KernelOp(KernelOp::INVALID)
    }
}

/// Where the user would like a kernel to run. The scheduler decides.
#[derive(Clone, Copy, PartialEq, Eq, Structural, Debug)]
pub struct AiTargetHint(pub u8);

impl AiTargetHint {
    /// The scheduler picks the target.
    pub const AUTO: u8 = 0;

    /// Prefer the CPU.
    pub const PREFER_CPU: u8 = 1;

    /// Prefer the X100 vector unit.
    pub const PREFER_X100: u8 = 2;

    /// Prefer the A100 matrix unit.
    pub const PREFER_A100: u8 = 3;

    /// Whether the hint is one of the four above.
    pub open spec fn known(self) -> bool {
        self.0 <= 3
    }

    /// Whether the hint is one of the four above.
    pub fn is_known(self) -> (r: bool)
        ensures
            r == self.known(),
    {
        self.0 <= 3
    }
}

impl Default for AiTargetHint {
    fn default() -> (r: Self)
        ensures
            r == AiTargetHint(AiTargetHint::AUTO),
    {
        AiTargetHint(AiTargetHint::AUTO)
    }
}

} // verus!
