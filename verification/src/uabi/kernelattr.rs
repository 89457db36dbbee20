//! Inline kernel attributes.
//!
//! Each attribute structure is a row of 32-bit words; the words, low byte first,
//! are what the inline attribute area of a kernel descriptor holds.

use crate::bytes::{signed_to_word, word_to_signed};
use crate::uabi::desc::AiDtype;
use crate::uabi::kernel::KernelOp;
use crate::uabi::types::{
    DimCount, DimSize, ElemStride, FloatBits, KernelStride, OpFlags, TensorAxis,
};
use vstd::prelude::*;

verus! {

/// A structure that fits in the inline attribute area.
pub trait InlineAttr: Copy {
    /// Number of words.
    spec fn word_count() -> nat;

    /// The words of the structure, in order.
    spec fn words(self) -> Seq<u32>;

    /// The structure with the given words.
    spec fn of_words(words: Seq<u32>) -> Self;

    /// The area is large enough, and the words hold every field.
    proof fn words_hold_fields(self)
        ensures
            Self::word_count() <= 32,
            self.words().len() == Self::word_count(),
            Self::of_words(self.words()) == self,
    ;

    /// Number of words.
    fn word_len() -> (r: usize)
        ensures
            r == Self::word_count(),
            r <= 32,
    ;

    /// The words of the structure, in order.
    fn to_words(&self) -> (r: Vec<u32>)
        ensures
            r@ == self.words(),
    ;

    /// The structure with the given words.
    fn from_words(words: &[u32]) -> (r: Self)
        requires
            words@.len() == Self::word_count(),
        ensures
            r == Self::of_words(words@),
    ;
}

/// An attribute that belongs to exactly one operation.
pub trait AiKernelAttr: InlineAttr {
    /// The operation.
    spec fn op_code() -> KernelOp;

    /// The operation.
    fn op() -> (r: KernelOp)
        ensures
            r == Self::op_code(),
    ;
}

/// Parameters of a matrix multiplication. Strides are counted in elements.
#[derive(Clone, Copy, Debug)]
pub struct MatMulAttr {
    /// Rows of the output.
    pub m: DimSize,
    /// Columns of the output.
    pub n: DimSize,
    /// Length of the reduced axis.
    pub k: DimSize,
    /// Number of matrices; zero means one.
    pub batch: DimSize,
    /// Step between rows of the left matrix.
    pub lhs_row_stride: ElemStride,
    /// Step between columns of the left matrix.
    pub lhs_col_stride: ElemStride,
    /// Step between left matrices.
    pub lhs_batch_stride: ElemStride,
    /// Step between rows of the right matrix.
    pub rhs_row_stride: ElemStride,
    /// Step between columns of the right matrix.
    pub rhs_col_stride: ElemStride,
    /// Step between right matrices.
    pub rhs_batch_stride: ElemStride,
    /// Step between rows of the output.
    pub out_row_stride: ElemStride,
    /// Step between columns of the output.
    pub out_col_stride: ElemStride,
    /// Step between outputs.
    pub out_batch_stride: ElemStride,
    /// Transposition flags.
    pub flags: OpFlags,
    /// Element type of the accumulator.
    pub accum_dtype: AiDtype,
    /// Kept at zero.
    pub reserved: [u32; 3],
}

impl Default for MatMulAttr {
    fn default() -> (r: Self)
        ensures
            r.m == DimSize(0),
            r.n == DimSize(0),
            r.k == DimSize(0),
            r.batch == DimSize(0),
            r.lhs_row_stride == ElemStride(0),
            r.lhs_col_stride == ElemStride(0),
            r.lhs_batch_stride == ElemStride(0),
            r.rhs_row_stride == ElemStride(0),
            r.rhs_col_stride == ElemStride(0),
            r.rhs_batch_stride == ElemStride(0),
            r.out_row_stride == ElemStride(0),
            r.out_col_stride == ElemStride(0),
            r.out_batch_stride == ElemStride(0),
            r.flags == OpFlags(0),
            r.accum_dtype == AiDtype(0),
            forall|i: int| 0 <= i < 3 ==> (#[trigger] r.reserved[i]) == 0,
    {
        MatMulAttr {
            m: DimSize(0),
            n: DimSize(0),
            k: DimSize(0),
            batch: DimSize(0),
            lhs_row_stride: ElemStride(0),
            lhs_col_stride: ElemStride(0),
            lhs_batch_stride: ElemStride(0),
            rhs_row_stride: ElemStride(0),
            rhs_col_stride: ElemStride(0),
            rhs_batch_stride: ElemStride(0),
            out_row_stride: ElemStride(0),
            out_col_stride: ElemStride(0),
            out_batch_stride: ElemStride(0),
            flags: OpFlags(0),
            accum_dtype: AiDtype(0),
            reserved: [0; 3],
        }
    }
}

impl InlineAttr for MatMulAttr {
    open spec fn word_count() -> nat {
        18
    }

    open spec fn words(self) -> Seq<u32> {
        seq![
            self.m.0, self.n.0, self.k.0, self.batch.0, self.lhs_row_stride.0,
            self.lhs_col_stride.0, self.lhs_batch_stride.0, self.rhs_row_stride.0,
            self.rhs_col_stride.0, self.rhs_batch_stride.0, self.out_row_stride.0,
            self.out_col_stride.0, self.out_batch_stride.0, self.flags.0, self.accum_dtype.0,
            self.reserved[0], self.reserved[1], self.reserved[2],
        ]
    }

    open spec fn of_words(words: Seq<u32>) -> Self {
        MatMulAttr {
            m: DimSize(words[0]),
            n: DimSize(words[1]),
            k: DimSize(words[2]),
            batch: DimSize(words[3]),
            lhs_row_stride: ElemStride(words[4]),
            lhs_col_stride: ElemStride(words[5]),
            lhs_batch_stride: ElemStride(words[6]),
            rhs_row_stride: ElemStride(words[7]),
            rhs_col_stride: ElemStride(words[8]),
            rhs_batch_stride: ElemStride(words[9]),
            out_row_stride: ElemStride(words[10]),
            out_col_stride: ElemStride(words[11]),
            out_batch_stride: ElemStride(words[12]),
            flags: OpFlags(words[13]),
            accum_dtype: AiDtype(words[14]),
            reserved: [words[15], words[16], words[17]],
        }
    }

    proof fn words_hold_fields(self) {
        let back = Self::of_words(self.words());
        assert(back.reserved =~= self.reserved);
    }

    fn word_len() -> (r: usize) {
        18
    }

    fn to_words(&self) -> (r: Vec<u32>) {
        let r: Vec<u32> = vec![
            self.m.0, self.n.0, self.k.0, self.batch.0, self.lhs_row_stride.0,
            self.lhs_col_stride.0, self.lhs_batch_stride.0, self.rhs_row_stride.0,
            self.rhs_col_stride.0, self.rhs_batch_stride.0, self.out_row_stride.0,
            self.out_col_stride.0, self.out_batch_stride.0, self.flags.0, self.accum_dtype.0,
            self.reserved[0], self.reserved[1], self.reserved[2],
        ];
        assert(r@ =~= self.words());
        r
    }

    fn from_words(words: &[u32]) -> (r: Self) {
        MatMulAttr {
            m: DimSize(words[0]),
            n: DimSize(words[1]),
            k: DimSize(words[2]),
            batch: DimSize(words[3]),
            lhs_row_stride: ElemStride(words[4]),
            lhs_col_stride: ElemStride(words[5]),
            lhs_batch_stride: ElemStride(words[6]),
            rhs_row_stride: ElemStride(words[7]),
            rhs_col_stride: ElemStride(words[8]),
            rhs_batch_stride: ElemStride(words[9]),
            out_row_stride: ElemStride(words[10]),
            out_col_stride: ElemStride(words[11]),
            out_batch_stride: ElemStride(words[12]),
            flags: OpFlags(words[13]),
            accum_dtype: AiDtype(words[14]),
            reserved: [words[15], words[16], words[17]],
        }
    }
}

impl AiKernelAttr for MatMulAttr {
    open spec fn op_code() -> KernelOp {
        KernelOp(KernelOp::MAT_MUL)
    }

    fn op() -> (r: KernelOp) {
        KernelOp(KernelOp::MAT_MUL)
    }
}

/// Parameters of a root-mean-square normalisation.
#[derive(Clone, Copy, Debug)]
pub struct RmsNormAttr {
    /// Length of a row.
    pub hidden_size: DimSize,
    /// Added to the mean square.
    pub eps: FloatBits,
    /// Kept at zero.
    pub flags: OpFlags,
    /// Kept at zero.
    pub reserved: [u32; 13],
}

impl Default for RmsNormAttr {
    fn default() -> (r: Self)
        ensures
            r.hidden_size == DimSize(0),
            r.eps == FloatBits(0),
            r.flags == OpFlags(0),
            forall|i: int| 0 <= i < 13 ==> (#[trigger] r.reserved[i]) == 0,
    {
        RmsNormAttr {
            hidden_size: DimSize(0),
            eps: FloatBits(0),
            flags: OpFlags(0),
            reserved: [0; 13],
        }
    }
}

impl InlineAttr for RmsNormAttr {
    open spec fn word_count() -> nat {
        16
    }

    open spec fn words(self) -> Seq<u32> {
        seq![
            self.hidden_size.0, self.eps.0, self.flags.0, self.reserved[0], self.reserved[1],
            self.reserved[2], self.reserved[3], self.reserved[4], self.reserved[5],
            self.reserved[6], self.reserved[7], self.reserved[8], self.reserved[9],
            self.reserved[10], self.reserved[11], self.reserved[12],
        ]
    }

    open spec fn of_words(words: Seq<u32>) -> Self {
        RmsNormAttr {
            hidden_size: DimSize(words[0]),
            eps: FloatBits(words[1]),
            flags: OpFlags(words[2]),
            reserved: [words[3], words[4], words[5], words[6], words[7], words[8], words[9], words[10], words[11], words[12], words[13], words[14], words[15]],
        }
    }

    proof fn words_hold_fields(self) {
        let back = Self::of_words(self.words());
        assert(back.reserved =~= self.reserved);
    }

    fn word_len() -> (r: usize) {
        16
    }

    fn to_words(&self) -> (r: Vec<u32>) {
        let r: Vec<u32> = vec![
            self.hidden_size.0, self.eps.0, self.flags.0, self.reserved[0], self.reserved[1],
            self.reserved[2], self.reserved[3], self.reserved[4], self.reserved[5],
            self.reserved[6], self.reserved[7], self.reserved[8], self.reserved[9],
            self.reserved[10], self.reserved[11], self.reserved[12],
        ];
        assert(r@ =~= self.words());
        r
    }

    fn from_words(words: &[u32]) -> (r: Self) {
        RmsNormAttr {
            hidden_size: DimSize(words[0]),
            eps: FloatBits(words[1]),
            flags: OpFlags(words[2]),
            reserved: [words[3], words[4], words[5], words[6], words[7], words[8], words[9], words[10], words[11], words[12], words[13], words[14], words[15]],
        }
    }
}

impl AiKernelAttr for RmsNormAttr {
    open spec fn op_code() -> KernelOp {
        KernelOp(KernelOp::RMS_NORM)
    }

    fn op() -> (r: KernelOp) {
        KernelOp(KernelOp::RMS_NORM)
    }
}

/// Parameters of a rotary position encoding.
#[derive(Clone, Copy, Debug)]
pub struct RopeAttr {
    /// Leading entries of a head that are rotated.
    pub n_dims: DimSize,
    /// Which entries make a pair.
    pub mode: u32,
    /// Length of the context.
    pub n_ctx: DimSize,
    /// Number of heads.
    pub head_count: DimSize,
    /// Base of the frequencies.
    pub freq_base: FloatBits,
    /// Factor on every angle.
    pub freq_scale: FloatBits,
    /// Weight of the extrapolation.
    pub ext_factor: FloatBits,
    /// Factor on every sine and cosine.
    pub attn_factor: FloatBits,
    /// Upper corner of the correction.
    pub beta_fast: FloatBits,
    /// Lower corner of the correction.
    pub beta_slow: FloatBits,
    /// Kept at zero.
    pub flags: OpFlags,
    /// Kept at zero.
    pub reserved: [u32; 5],
}

impl RopeAttr {
    /// Neighbouring entries make a pair.
    pub const MODE_GPT_J: u32 = 0;

    /// An entry is paired with the one half a head away.
    pub const MODE_NEOX: u32 = 1;
}

impl Default for RopeAttr {
    fn default() -> (r: Self)
        ensures
            r.n_dims == DimSize(0),
            r.mode == 0u32,
            r.n_ctx == DimSize(0),
            r.head_count == DimSize(0),
            r.freq_base == FloatBits(0),
            r.freq_scale == FloatBits(0),
            r.ext_factor == FloatBits(0),
            r.attn_factor == FloatBits(0),
            r.beta_fast == FloatBits(0),
            r.beta_slow == FloatBits(0),
            r.flags == OpFlags(0),
            forall|i: int| 0 <= i < 5 ==> (#[trigger] r.reserved[i]) == 0,
    {
        RopeAttr {
            n_dims: DimSize(0),
            mode: 0,
            n_ctx: DimSize(0),
            head_count: DimSize(0),
            freq_base: FloatBits(0),
            freq_scale: FloatBits(0),
            ext_factor: FloatBits(0),
            attn_factor: FloatBits(0),
            beta_fast: FloatBits(0),
            beta_slow: FloatBits(0),
            flags: OpFlags(0),
            reserved: [0; 5],
        }
    }
}

impl InlineAttr for RopeAttr {
    open spec fn word_count() -> nat {
        16
    }

    open spec fn words(self) -> Seq<u32> {
        seq![
            self.n_dims.0, self.mode, self.n_ctx.0, self.head_count.0, self.freq_base.0,
            self.freq_scale.0, self.ext_factor.0, self.attn_factor.0, self.beta_fast.0,
            self.beta_slow.0, self.flags.0, self.reserved[0], self.reserved[1], self.reserved[2],
            self.reserved[3], self.reserved[4],
        ]
    }

    open spec fn of_words(words: Seq<u32>) -> Self {
        RopeAttr {
            n_dims: DimSize(words[0]),
            mode: words[1],
            n_ctx: DimSize(words[2]),
            head_count: DimSize(words[3]),
            freq_base: FloatBits(words[4]),
            freq_scale: FloatBits(words[5]),
            ext_factor: FloatBits(words[6]),
            attn_factor: FloatBits(words[7]),
            beta_fast: FloatBits(words[8]),
            beta_slow: FloatBits(words[9]),
            flags: OpFlags(words[10]),
            reserved: [words[11], words[12], words[13], words[14], words[15]],
        }
    }

    proof fn words_hold_fields(self) {
        let back = Self::of_words(self.words());
        assert(back.reserved =~= self.reserved);
    }

    fn word_len() -> (r: usize) {
        16
    }

    fn to_words(&self) -> (r: Vec<u32>) {
        let r: Vec<u32> = vec![
            self.n_dims.0, self.mode, self.n_ctx.0, self.head_count.0, self.freq_base.0,
            self.freq_scale.0, self.ext_factor.0, self.attn_factor.0, self.beta_fast.0,
            self.beta_slow.0, self.flags.0, self.reserved[0], self.reserved[1], self.reserved[2],
            self.reserved[3], self.reserved[4],
        ];
        assert(r@ =~= self.words());
        r
    }

    fn from_words(words: &[u32]) -> (r: Self) {
        RopeAttr {
            n_dims: DimSize(words[0]),
            mode: words[1],
            n_ctx: DimSize(words[2]),
            head_count: DimSize(words[3]),
            freq_base: FloatBits(words[4]),
            freq_scale: FloatBits(words[5]),
            ext_factor: FloatBits(words[6]),
            attn_factor: FloatBits(words[7]),
            beta_fast: FloatBits(words[8]),
            beta_slow: FloatBits(words[9]),
            flags: OpFlags(words[10]),
            reserved: [words[11], words[12], words[13], words[14], words[15]],
        }
    }
}

impl AiKernelAttr for RopeAttr {
    open spec fn op_code() -> KernelOp {
        KernelOp(KernelOp::ROPE)
    }

    fn op() -> (r: KernelOp) {
        KernelOp(KernelOp::ROPE)
    }
}

/// Parameters of a softmax.
#[derive(Clone, Copy, Debug)]
pub struct SoftmaxAttr {
    /// Axis that sums to one.
    pub axis: TensorAxis,
    /// Factor on the input; zero means one.
    pub scale: FloatBits,
    /// Slope of the position bias.
    pub max_bias: FloatBits,
    /// See `HAS_MASK`.
    pub flags: OpFlags,
    /// Kept at zero.
    pub reserved: [u32; 12],
}

impl SoftmaxAttr {
    /// A second input is added as a mask.
    pub const HAS_MASK: u32 = 1;
}

impl Default for SoftmaxAttr {
    fn default() -> (r: Self)
        ensures
            r.axis == TensorAxis(0),
            r.scale == FloatBits(0),
            r.max_bias == FloatBits(0),
            r.flags == OpFlags(0),
            forall|i: int| 0 <= i < 12 ==> (#[trigger] r.reserved[i]) == 0,
    {
        SoftmaxAttr {
            axis: TensorAxis(0),
            scale: FloatBits(0),
            max_bias: FloatBits(0),
            flags: OpFlags(0),
            reserved: [0; 12],
        }
    }
}

impl InlineAttr for SoftmaxAttr {
    open spec fn word_count() -> nat {
        16
    }

    open spec fn words(self) -> Seq<u32> {
        seq![
            crate::bytes::word_of_signed(self.axis.0), self.scale.0, self.max_bias.0,
            self.flags.0, self.reserved[0], self.reserved[1], self.reserved[2], self.reserved[3],
            self.reserved[4], self.reserved[5], self.reserved[6], self.reserved[7],
            self.reserved[8], self.reserved[9], self.reserved[10], self.reserved[11],
        ]
    }

    open spec fn of_words(words: Seq<u32>) -> Self {
        SoftmaxAttr {
            axis: TensorAxis(crate::bytes::signed_of_word(words[0])),
            scale: FloatBits(words[1]),
            max_bias: FloatBits(words[2]),
            flags: OpFlags(words[3]),
            reserved: [words[4], words[5], words[6], words[7], words[8], words[9], words[10], words[11], words[12], words[13], words[14], words[15]],
        }
    }

    proof fn words_hold_fields(self) {
        broadcast use crate::bytes::signed_survives_word;

        let back = Self::of_words(self.words());
        assert(back.reserved =~= self.reserved);
    }

    fn word_len() -> (r: usize) {
        16
    }

    fn to_words(&self) -> (r: Vec<u32>) {
        let r: Vec<u32> = vec![
            signed_to_word(self.axis.0), self.scale.0, self.max_bias.0, self.flags.0,
            self.reserved[0], self.reserved[1], self.reserved[2], self.reserved[3],
            self.reserved[4], self.reserved[5], self.reserved[6], self.reserved[7],
            self.reserved[8], self.reserved[9], self.reserved[10], self.reserved[11],
        ];
        assert(r@ =~= self.words());
        r
    }

    fn from_words(words: &[u32]) -> (r: Self) {
        SoftmaxAttr {
            axis: TensorAxis(word_to_signed(words[0])),
            scale: FloatBits(words[1]),
            max_bias: FloatBits(words[2]),
            flags: OpFlags(words[3]),
            reserved: [words[4], words[5], words[6], words[7], words[8], words[9], words[10], words[11], words[12], words[13], words[14], words[15]],
        }
    }
}

impl AiKernelAttr for SoftmaxAttr {
    open spec fn op_code() -> KernelOp {
        KernelOp(KernelOp::SOFTMAX)
    }

    fn op() -> (r: KernelOp) {
        KernelOp(KernelOp::SOFTMAX)
    }
}

/// Parameters of an element-wise operation on two tensors.
#[derive(Clone, Copy, Debug)]
pub struct BinaryAttr {
    /// How the right operand is broadcast.
    pub broadcast_kind: u32,
    /// Factor on the left operand.
    pub alpha: FloatBits,
    /// Factor on the right operand.
    pub beta: FloatBits,
    /// See `MOD_FMOD`.
    pub flags: OpFlags,
    /// Kept at zero.
    pub reserved: [u32; 12],
}

impl BinaryAttr {
    /// The remainder takes the sign of the dividend.
    pub const MOD_FMOD: u32 = 1;

    /// The right operand is repeated along the last axis.
    pub const BROADCAST_GGML_LAST_DIM: u32 = 1;
}

impl Default for BinaryAttr {
    fn default() -> (r: Self)
        ensures
            r.broadcast_kind == 0u32,
            r.alpha == FloatBits(0),
            r.beta == FloatBits(0),
            r.flags == OpFlags(0),
            forall|i: int| 0 <= i < 12 ==> (#[trigger] r.reserved[i]) == 0,
    {
        BinaryAttr {
            broadcast_kind: 0,
            alpha: FloatBits(0),
            beta: FloatBits(0),
            flags: OpFlags(0),
            reserved: [0; 12],
        }
    }
}

impl InlineAttr for BinaryAttr {
    open spec fn word_count() -> nat {
        16
    }

    open spec fn words(self) -> Seq<u32> {
        seq![
            self.broadcast_kind, self.alpha.0, self.beta.0, self.flags.0, self.reserved[0],
            self.reserved[1], self.reserved[2], self.reserved[3], self.reserved[4],
            self.reserved[5], self.reserved[6], self.reserved[7], self.reserved[8],
            self.reserved[9], self.reserved[10], self.reserved[11],
        ]
    }

    open spec fn of_words(words: Seq<u32>) -> Self {
        BinaryAttr {
            broadcast_kind: words[0],
            alpha: FloatBits(words[1]),
            beta: FloatBits(words[2]),
            flags: OpFlags(words[3]),
            reserved: [words[4], words[5], words[6], words[7], words[8], words[9], words[10], words[11], words[12], words[13], words[14], words[15]],
        }
    }

    proof fn words_hold_fields(self) {
        let back = Self::of_words(self.words());
        assert(back.reserved =~= self.reserved);
    }

    fn word_len() -> (r: usize) {
        16
    }

    fn to_words(&self) -> (r: Vec<u32>) {
        let r: Vec<u32> = vec![
            self.broadcast_kind, self.alpha.0, self.beta.0, self.flags.0, self.reserved[0],
            self.reserved[1], self.reserved[2], self.reserved[3], self.reserved[4],
            self.reserved[5], self.reserved[6], self.reserved[7], self.reserved[8],
            self.reserved[9], self.reserved[10], self.reserved[11],
        ];
        assert(r@ =~= self.words());
        r
    }

    fn from_words(words: &[u32]) -> (r: Self) {
        BinaryAttr {
            broadcast_kind: words[0],
            alpha: FloatBits(words[1]),
            beta: FloatBits(words[2]),
            flags: OpFlags(words[3]),
            reserved: [words[4], words[5], words[6], words[7], words[8], words[9], words[10], words[11], words[12], words[13], words[14], words[15]],
        }
    }
}

/// Parameters of a row lookup.
#[derive(Clone, Copy, Debug)]
pub struct GetRowsAttr {
    /// Kept at zero.
    pub flags: OpFlags,
    /// Kept at zero.
    pub reserved: [u32; 15],
}

impl Default for GetRowsAttr {
    fn default() -> (r: Self)
        ensures
            r.flags == OpFlags(0),
            forall|i: int| 0 <= i < 15 ==> (#[trigger] r.reserved[i]) == 0,
    {
        GetRowsAttr {
            flags: OpFlags(0),
            reserved: [0; 15],
        }
    }
}

impl InlineAttr for GetRowsAttr {
    open spec fn word_count() -> nat {
        16
    }

    open spec fn words(self) -> Seq<u32> {
        seq![
            self.flags.0, self.reserved[0], self.reserved[1], self.reserved[2], self.reserved[3],
            self.reserved[4], self.reserved[5], self.reserved[6], self.reserved[7],
            self.reserved[8], self.reserved[9], self.reserved[10], self.reserved[11],
            self.reserved[12], self.reserved[13], self.reserved[14],
        ]
    }

    open spec fn of_words(words: Seq<u32>) -> Self {
        GetRowsAttr {
            flags: OpFlags(words[0]),
            reserved: [words[1], words[2], words[3], words[4], words[5], words[6], words[7], words[8], words[9], words[10], words[11], words[12], words[13], words[14], words[15]],
        }
    }

    proof fn words_hold_fields(self) {
        let back = Self::of_words(self.words());
        assert(back.reserved =~= self.reserved);
    }

    fn word_len() -> (r: usize) {
        16
    }

    fn to_words(&self) -> (r: Vec<u32>) {
        let r: Vec<u32> = vec![
            self.flags.0, self.reserved[0], self.reserved[1], self.reserved[2], self.reserved[3],
            self.reserved[4], self.reserved[5], self.reserved[6], self.reserved[7],
            self.reserved[8], self.reserved[9], self.reserved[10], self.reserved[11],
            self.reserved[12], self.reserved[13], self.reserved[14],
        ];
        assert(r@ =~= self.words());
        r
    }

    fn from_words(words: &[u32]) -> (r: Self) {
        GetRowsAttr {
            flags: OpFlags(words[0]),
            reserved: [words[1], words[2], words[3], words[4], words[5], words[6], words[7], words[8], words[9], words[10], words[11], words[12], words[13], words[14], words[15]],
        }
    }
}

impl AiKernelAttr for GetRowsAttr {
    open spec fn op_code() -> KernelOp {
        KernelOp(KernelOp::GET_ROWS)
    }

    fn op() -> (r: KernelOp) {
        KernelOp(KernelOp::GET_ROWS)
    }
}

/// Parameters of a row update.
#[derive(Clone, Copy, Debug)]
pub struct SetRowsAttr {
    /// Kept at zero.
    pub flags: OpFlags,
    /// Kept at zero.
    pub reserved: [u32; 15],
}

impl Default for SetRowsAttr {
    fn default() -> (r: Self)
        ensures
            r.flags == OpFlags(0),
            forall|i: int| 0 <= i < 15 ==> (#[trigger] r.reserved[i]) == 0,
    {
        SetRowsAttr {
            flags: OpFlags(0),
            reserved: [0; 15],
        }
    }
}

impl InlineAttr for SetRowsAttr {
    open spec fn word_count() -> nat {
        16
    }

    open spec fn words(self) -> Seq<u32> {
        seq![
            self.flags.0, self.reserved[0], self.reserved[1], self.reserved[2], self.reserved[3],
            self.reserved[4], self.reserved[5], self.reserved[6], self.reserved[7],
            self.reserved[8], self.reserved[9], self.reserved[10], self.reserved[11],
            self.reserved[12], self.reserved[13], self.reserved[14],
        ]
    }

    open spec fn of_words(words: Seq<u32>) -> Self {
        SetRowsAttr {
            flags: OpFlags(words[0]),
            reserved: [words[1], words[2], words[3], words[4], words[5], words[6], words[7], words[8], words[9], words[10], words[11], words[12], words[13], words[14], words[15]],
        }
    }

    proof fn words_hold_fields(self) {
        let back = Self::of_words(self.words());
        assert(back.reserved =~= self.reserved);
    }

    fn word_len() -> (r: usize) {
        16
    }

    fn to_words(&self) -> (r: Vec<u32>) {
        let r: Vec<u32> = vec![
            self.flags.0, self.reserved[0], self.reserved[1], self.reserved[2], self.reserved[3],
            self.reserved[4], self.reserved[5], self.reserved[6], self.reserved[7],
            self.reserved[8], self.reserved[9], self.reserved[10], self.reserved[11],
            self.reserved[12], self.reserved[13], self.reserved[14],
        ];
        assert(r@ =~= self.words());
        r
    }

    fn from_words(words: &[u32]) -> (r: Self) {
        SetRowsAttr {
            flags: OpFlags(words[0]),
            reserved: [words[1], words[2], words[3], words[4], words[5], words[6], words[7], words[8], words[9], words[10], words[11], words[12], words[13], words[14], words[15]],
        }
    }
}

impl AiKernelAttr for SetRowsAttr {
    open spec fn op_code() -> KernelOp {
        KernelOp(KernelOp::SET_ROWS)
    }

    fn op() -> (r: KernelOp) {
        KernelOp(KernelOp::SET_ROWS)
    }
}

/// Parameters of a gated linear unit.
#[derive(Clone, Copy, Debug)]
pub struct GluAttr {
    /// The gating function.
    pub op: u32,
    /// Non-zero exchanges gate and value.
    pub swapped: u32,
    /// Kept at zero.
    pub flags: OpFlags,
    /// Kept at zero.
    pub reserved: [u32; 13],
}

impl GluAttr {
    /// One half goes through SiLU and is multiplied with the other half.
    pub const OP_SWIGLU: u32 = 2;
}

impl Default for GluAttr {
    fn default() -> (r: Self)
        ensures
            r.op == 0u32,
            r.swapped == 0u32,
            r.flags == OpFlags(0),
            forall|i: int| 0 <= i < 13 ==> (#[trigger] r.reserved[i]) == 0,
    {
        GluAttr {
            op: 0,
            swapped: 0,
            flags: OpFlags(0),
            reserved: [0; 13],
        }
    }
}

impl InlineAttr for GluAttr {
    open spec fn word_count() -> nat {
        16
    }

    open spec fn words(self) -> Seq<u32> {
        seq![
            self.op, self.swapped, self.flags.0, self.reserved[0], self.reserved[1],
            self.reserved[2], self.reserved[3], self.reserved[4], self.reserved[5],
            self.reserved[6], self.reserved[7], self.reserved[8], self.reserved[9],
            self.reserved[10], self.reserved[11], self.reserved[12],
        ]
    }

    open spec fn of_words(words: Seq<u32>) -> Self {
        GluAttr {
            op: words[0],
            swapped: words[1],
            flags: OpFlags(words[2]),
            reserved: [words[3], words[4], words[5], words[6], words[7], words[8], words[9], words[10], words[11], words[12], words[13], words[14], words[15]],
        }
    }

    proof fn words_hold_fields(self) {
        let back = Self::of_words(self.words());
        assert(back.reserved =~= self.reserved);
    }

    fn word_len() -> (r: usize) {
        16
    }

    fn to_words(&self) -> (r: Vec<u32>) {
        let r: Vec<u32> = vec![
            self.op, self.swapped, self.flags.0, self.reserved[0], self.reserved[1],
            self.reserved[2], self.reserved[3], self.reserved[4], self.reserved[5],
            self.reserved[6], self.reserved[7], self.reserved[8], self.reserved[9],
            self.reserved[10], self.reserved[11], self.reserved[12],
        ];
        assert(r@ =~= self.words());
        r
    }

    fn from_words(words: &[u32]) -> (r: Self) {
        GluAttr {
            op: words[0],
            swapped: words[1],
            flags: OpFlags(words[2]),
            reserved: [words[3], words[4], words[5], words[6], words[7], words[8], words[9], words[10], words[11], words[12], words[13], words[14], words[15]],
        }
    }
}

impl AiKernelAttr for GluAttr {
    open spec fn op_code() -> KernelOp {
        KernelOp(KernelOp::GLU)
    }

    fn op() -> (r: KernelOp) {
        KernelOp(KernelOp::GLU)
    }
}

/// Parameters of a copy.
#[derive(Clone, Copy, Debug)]
pub struct CopyAttr {
    /// Kept at zero.
    pub flags: OpFlags,
    /// Kept at zero.
    pub reserved: [u32; 15],
}

impl Default for CopyAttr {
    fn default() -> (r: Self)
        ensures
            r.flags == OpFlags(0),
            forall|i: int| 0 <= i < 15 ==> (#[trigger] r.reserved[i]) == 0,
    {
        CopyAttr {
            flags: OpFlags(0),
            reserved: [0; 15],
        }
    }
}

impl InlineAttr for CopyAttr {
    open spec fn word_count() -> nat {
        16
    }

    open spec fn words(self) -> Seq<u32> {
        seq![
            self.flags.0, self.reserved[0], self.reserved[1], self.reserved[2], self.reserved[3],
            self.reserved[4], self.reserved[5], self.reserved[6], self.reserved[7],
            self.reserved[8], self.reserved[9], self.reserved[10], self.reserved[11],
            self.reserved[12], self.reserved[13], self.reserved[14],
        ]
    }

    open spec fn of_words(words: Seq<u32>) -> Self {
        CopyAttr {
            flags: OpFlags(words[0]),
            reserved: [words[1], words[2], words[3], words[4], words[5], words[6], words[7], words[8], words[9], words[10], words[11], words[12], words[13], words[14], words[15]],
        }
    }

    proof fn words_hold_fields(self) {
        let back = Self::of_words(self.words());
        assert(back.reserved =~= self.reserved);
    }

    fn word_len() -> (r: usize) {
        16
    }

    fn to_words(&self) -> (r: Vec<u32>) {
        let r: Vec<u32> = vec![
            self.flags.0, self.reserved[0], self.reserved[1], self.reserved[2], self.reserved[3],
            self.reserved[4], self.reserved[5], self.reserved[6], self.reserved[7],
            self.reserved[8], self.reserved[9], self.reserved[10], self.reserved[11],
            self.reserved[12], self.reserved[13], self.reserved[14],
        ];
        assert(r@ =~= self.words());
        r
    }

    fn from_words(words: &[u32]) -> (r: Self) {
        CopyAttr {
            flags: OpFlags(words[0]),
            reserved: [words[1], words[2], words[3], words[4], words[5], words[6], words[7], words[8], words[9], words[10], words[11], words[12], words[13], words[14], words[15]],
        }
    }
}

impl AiKernelAttr for CopyAttr {
    open spec fn op_code() -> KernelOp {
        KernelOp(KernelOp::COPY)
    }

    fn op() -> (r: KernelOp) {
        KernelOp(KernelOp::COPY)
    }
}

/// Parameters of an element-wise operation on one tensor.
#[derive(Clone, Copy, Debug)]
pub struct UnaryAttr {
    /// Factor on the input.
    pub alpha: FloatBits,
    /// Added after the factor.
    pub beta: FloatBits,
    /// Kept at zero.
    pub flags: OpFlags,
    /// Kept at zero.
    pub reserved: [u32; 13],
}

impl Default for UnaryAttr {
    fn default() -> (r: Self)
        ensures
            r.alpha == FloatBits(0),
            r.beta == FloatBits(0),
            r.flags == OpFlags(0),
            forall|i: int| 0 <= i < 13 ==> (#[trigger] r.reserved[i]) == 0,
    {
        UnaryAttr {
            alpha: FloatBits(0),
            beta: FloatBits(0),
            flags: OpFlags(0),
            reserved: [0; 13],
        }
    }
}

impl InlineAttr for UnaryAttr {
    open spec fn word_count() -> nat {
        16
    }

    open spec fn words(self) -> Seq<u32> {
        seq![
            self.alpha.0, self.beta.0, self.flags.0, self.reserved[0], self.reserved[1],
            self.reserved[2], self.reserved[3], self.reserved[4], self.reserved[5],
            self.reserved[6], self.reserved[7], self.reserved[8], self.reserved[9],
            self.reserved[10], self.reserved[11], self.reserved[12],
        ]
    }

    open spec fn of_words(words: Seq<u32>) -> Self {
        UnaryAttr {
            alpha: FloatBits(words[0]),
            beta: FloatBits(words[1]),
            flags: OpFlags(words[2]),
            reserved: [words[3], words[4], words[5], words[6], words[7], words[8], words[9], words[10], words[11], words[12], words[13], words[14], words[15]],
        }
    }

    proof fn words_hold_fields(self) {
        let back = Self::of_words(self.words());
        assert(back.reserved =~= self.reserved);
    }

    fn word_len() -> (r: usize) {
        16
    }

    fn to_words(&self) -> (r: Vec<u32>) {
        let r: Vec<u32> = vec![
            self.alpha.0, self.beta.0, self.flags.0, self.reserved[0], self.reserved[1],
            self.reserved[2], self.reserved[3], self.reserved[4], self.reserved[5],
            self.reserved[6], self.reserved[7], self.reserved[8], self.reserved[9],
            self.reserved[10], self.reserved[11], self.reserved[12],
        ];
        assert(r@ =~= self.words());
        r
    }

    fn from_words(words: &[u32]) -> (r: Self) {
        UnaryAttr {
            alpha: FloatBits(words[0]),
            beta: FloatBits(words[1]),
            flags: OpFlags(words[2]),
            reserved: [words[3], words[4], words[5], words[6], words[7], words[8], words[9], words[10], words[11], words[12], words[13], words[14], words[15]],
        }
    }
}

/// Parameters of a two-dimensional convolution.
#[derive(Clone, Copy, Debug)]
pub struct Conv2dAttr {
    /// Number of images.
    pub batch: DimSize,
    /// Channels of the input.
    pub in_channels: DimSize,
    /// Channels of the output.
    pub out_channels: DimSize,
    /// Height of the input.
    pub input_h: DimSize,
    /// Width of the input.
    pub input_w: DimSize,
    /// Height of the output.
    pub output_h: DimSize,
    /// Width of the output.
    pub output_w: DimSize,
    /// Height of the window.
    pub kernel_h: DimSize,
    /// Width of the window.
    pub kernel_w: DimSize,
    /// Vertical step of the window.
    pub stride_h: KernelStride,
    /// Horizontal step of the window.
    pub stride_w: KernelStride,
    /// Zero rows above and below.
    pub pad_h: DimSize,
    /// Zero columns left and right.
    pub pad_w: DimSize,
    /// Vertical spread of the window.
    pub dilation_h: KernelStride,
    /// Horizontal spread of the window.
    pub dilation_w: KernelStride,
    /// Channel groups.
    pub groups: DimSize,
    /// Kept at zero.
    pub flags: OpFlags,
    /// Kept at zero.
    pub reserved: [u32; 15],
}

impl Default for Conv2dAttr {
    fn default() -> (r: Self)
        ensures
            r.batch == DimSize(0),
            r.in_channels == DimSize(0),
            r.out_channels == DimSize(0),
            r.input_h == DimSize(0),
            r.input_w == DimSize(0),
            r.output_h == DimSize(0),
            r.output_w == DimSize(0),
            r.kernel_h == DimSize(0),
            r.kernel_w == DimSize(0),
            r.stride_h == KernelStride(0),
            r.stride_w == KernelStride(0),
            r.pad_h == DimSize(0),
            r.pad_w == DimSize(0),
            r.dilation_h == KernelStride(0),
            r.dilation_w == KernelStride(0),
            r.groups == DimSize(0),
            r.flags == OpFlags(0),
            forall|i: int| 0 <= i < 15 ==> (#[trigger] r.reserved[i]) == 0,
    {
        Conv2dAttr {
            batch: DimSize(0),
            in_channels: DimSize(0),
            out_channels: DimSize(0),
            input_h: DimSize(0),
            input_w: DimSize(0),
            output_h: DimSize(0),
            output_w: DimSize(0),
            kernel_h: DimSize(0),
            kernel_w: DimSize(0),
            stride_h: KernelStride(0),
            stride_w: KernelStride(0),
            pad_h: DimSize(0),
            pad_w: DimSize(0),
            dilation_h: KernelStride(0),
            dilation_w: KernelStride(0),
            groups: DimSize(0),
            flags: OpFlags(0),
            reserved: [0; 15],
        }
    }
}

impl InlineAttr for Conv2dAttr {
    open spec fn word_count() -> nat {
        32
    }

    open spec fn words(self) -> Seq<u32> {
        seq![
            self.batch.0, self.in_channels.0, self.out_channels.0, self.input_h.0,
            self.input_w.0, self.output_h.0, self.output_w.0, self.kernel_h.0, self.kernel_w.0,
            self.stride_h.0, self.stride_w.0, self.pad_h.0, self.pad_w.0, self.dilation_h.0,
            self.dilation_w.0, self.groups.0, self.flags.0, self.reserved[0], self.reserved[1],
            self.reserved[2], self.reserved[3], self.reserved[4], self.reserved[5],
            self.reserved[6], self.reserved[7], self.reserved[8], self.reserved[9],
            self.reserved[10], self.reserved[11], self.reserved[12], self.reserved[13],
            self.reserved[14],
        ]
    }

    open spec fn of_words(words: Seq<u32>) -> Self {
        Conv2dAttr {
            batch: DimSize(words[0]),
            in_channels: DimSize(words[1]),
            out_channels: DimSize(words[2]),
            input_h: DimSize(words[3]),
            input_w: DimSize(words[4]),
            output_h: DimSize(words[5]),
            output_w: DimSize(words[6]),
            kernel_h: DimSize(words[7]),
            kernel_w: DimSize(words[8]),
            stride_h: KernelStride(words[9]),
            stride_w: KernelStride(words[10]),
            pad_h: DimSize(words[11]),
            pad_w: DimSize(words[12]),
            dilation_h: KernelStride(words[13]),
            dilation_w: KernelStride(words[14]),
            groups: DimSize(words[15]),
            flags: OpFlags(words[16]),
            reserved: [words[17], words[18], words[19], words[20], words[21], words[22], words[23], words[24], words[25], words[26], words[27], words[28], words[29], words[30], words[31]],
        }
    }

    proof fn words_hold_fields(self) {
        let back = Self::of_words(self.words());
        assert(back.reserved =~= self.reserved);
    }

    fn word_len() -> (r: usize) {
        32
    }

    fn to_words(&self) -> (r: Vec<u32>) {
        let r: Vec<u32> = vec![
            self.batch.0, self.in_channels.0, self.out_channels.0, self.input_h.0,
            self.input_w.0, self.output_h.0, self.output_w.0, self.kernel_h.0, self.kernel_w.0,
            self.stride_h.0, self.stride_w.0, self.pad_h.0, self.pad_w.0, self.dilation_h.0,
            self.dilation_w.0, self.groups.0, self.flags.0, self.reserved[0], self.reserved[1],
            self.reserved[2], self.reserved[3], self.reserved[4], self.reserved[5],
            self.reserved[6], self.reserved[7], self.reserved[8], self.reserved[9],
            self.reserved[10], self.reserved[11], self.reserved[12], self.reserved[13],
            self.reserved[14],
        ];
        assert(r@ =~= self.words());
        r
    }

    fn from_words(words: &[u32]) -> (r: Self) {
        Conv2dAttr {
            batch: DimSize(words[0]),
            in_channels: DimSize(words[1]),
            out_channels: DimSize(words[2]),
            input_h: DimSize(words[3]),
            input_w: DimSize(words[4]),
            output_h: DimSize(words[5]),
            output_w: DimSize(words[6]),
            kernel_h: DimSize(words[7]),
            kernel_w: DimSize(words[8]),
            stride_h: KernelStride(words[9]),
            stride_w: KernelStride(words[10]),
            pad_h: DimSize(words[11]),
            pad_w: DimSize(words[12]),
            dilation_h: KernelStride(words[13]),
            dilation_w: KernelStride(words[14]),
            groups: DimSize(words[15]),
            flags: OpFlags(words[16]),
            reserved: [words[17], words[18], words[19], words[20], words[21], words[22], words[23], words[24], words[25], words[26], words[27], words[28], words[29], words[30], words[31]],
        }
    }
}

impl AiKernelAttr for Conv2dAttr {
    open spec fn op_code() -> KernelOp {
        KernelOp(KernelOp::CONV2D)
    }

    fn op() -> (r: KernelOp) {
        KernelOp(KernelOp::CONV2D)
    }
}

/// Parameters of a concatenation.
#[derive(Clone, Copy, Debug)]
pub struct ConcatAttr {
    /// Axis along which the inputs are joined.
    pub axis: TensorAxis,
    /// Kept at zero.
    pub flags: OpFlags,
    /// Kept at zero.
    pub reserved: [u32; 14],
}

impl Default for ConcatAttr {
    fn default() -> (r: Self)
        ensures
            r.axis == TensorAxis(0),
            r.flags == OpFlags(0),
            forall|i: int| 0 <= i < 14 ==> (#[trigger] r.reserved[i]) == 0,
    {
        ConcatAttr {
            axis: TensorAxis(0),
            flags: OpFlags(0),
            reserved: [0; 14],
        }
    }
}

impl InlineAttr for ConcatAttr {
    open spec fn word_count() -> nat {
        16
    }

    open spec fn words(self) -> Seq<u32> {
        seq![
            crate::bytes::word_of_signed(self.axis.0), self.flags.0, self.reserved[0],
            self.reserved[1], self.reserved[2], self.reserved[3], self.reserved[4],
            self.reserved[5], self.reserved[6], self.reserved[7], self.reserved[8],
            self.reserved[9], self.reserved[10], self.reserved[11], self.reserved[12],
            self.reserved[13],
        ]
    }

    open spec fn of_words(words: Seq<u32>) -> Self {
        ConcatAttr {
            axis: TensorAxis(crate::bytes::signed_of_word(words[0])),
            flags: OpFlags(words[1]),
            reserved: [words[2], words[3], words[4], words[5], words[6], words[7], words[8], words[9], words[10], words[11], words[12], words[13], words[14], words[15]],
        }
    }

    proof fn words_hold_fields(self) {
        broadcast use crate::bytes::signed_survives_word;

        let back = Self::of_words(self.words());
        assert(back.reserved =~= self.reserved);
    }

    fn word_len() -> (r: usize) {
        16
    }

    fn to_words(&self) -> (r: Vec<u32>) {
        let r: Vec<u32> = vec![
            signed_to_word(self.axis.0), self.flags.0, self.reserved[0], self.reserved[1],
            self.reserved[2], self.reserved[3], self.reserved[4], self.reserved[5],
            self.reserved[6], self.reserved[7], self.reserved[8], self.reserved[9],
            self.reserved[10], self.reserved[11], self.reserved[12], self.reserved[13],
        ];
        assert(r@ =~= self.words());
        r
    }

    fn from_words(words: &[u32]) -> (r: Self) {
        ConcatAttr {
            axis: TensorAxis(word_to_signed(words[0])),
            flags: OpFlags(words[1]),
            reserved: [words[2], words[3], words[4], words[5], words[6], words[7], words[8], words[9], words[10], words[11], words[12], words[13], words[14], words[15]],
        }
    }
}

impl AiKernelAttr for ConcatAttr {
    open spec fn op_code() -> KernelOp {
        KernelOp(KernelOp::CONCAT)
    }

    fn op() -> (r: KernelOp) {
        KernelOp(KernelOp::CONCAT)
    }
}

/// Parameters of a permutation of the axes.
#[derive(Clone, Copy, Debug)]
pub struct TransposeAttr {
    /// Number of axes.
    pub rank: DimCount,
    /// Input axis of each output axis.
    pub perm: [TensorAxis; 8],
    /// Kept at zero.
    pub flags: OpFlags,
    /// Kept at zero.
    pub reserved: [u32; 6],
}

impl Default for TransposeAttr {
    fn default() -> (r: Self)
        ensures
            r.rank == DimCount(0),
            forall|i: int| 0 <= i < 8 ==> (#[trigger] r.perm[i]).0 == 0,
            r.flags == OpFlags(0),
            forall|i: int| 0 <= i < 6 ==> (#[trigger] r.reserved[i]) == 0,
    {
        let zero = TensorAxis(0);
        TransposeAttr {
            rank: DimCount(0),
            perm: [zero, zero, zero, zero, zero, zero, zero, zero],
            flags: OpFlags(0),
            reserved: [0; 6],
        }
    }
}

impl InlineAttr for TransposeAttr {
    open spec fn word_count() -> nat {
        16
    }

    open spec fn words(self) -> Seq<u32> {
        seq![
            self.rank.0, crate::bytes::word_of_signed(self.perm[0].0),
            crate::bytes::word_of_signed(self.perm[1].0),
            crate::bytes::word_of_signed(self.perm[2].0),
            crate::bytes::word_of_signed(self.perm[3].0),
            crate::bytes::word_of_signed(self.perm[4].0),
            crate::bytes::word_of_signed(self.perm[5].0),
            crate::bytes::word_of_signed(self.perm[6].0),
            crate::bytes::word_of_signed(self.perm[7].0), self.flags.0, self.reserved[0],
            self.reserved[1], self.reserved[2], self.reserved[3], self.reserved[4],
            self.reserved[5],
        ]
    }

    open spec fn of_words(words: Seq<u32>) -> Self {
        TransposeAttr {
            rank: DimCount(words[0]),
            perm: [TensorAxis(crate::bytes::signed_of_word(words[1])), TensorAxis(crate::bytes::signed_of_word(words[2])), TensorAxis(crate::bytes::signed_of_word(words[3])), TensorAxis(crate::bytes::signed_of_word(words[4])), TensorAxis(crate::bytes::signed_of_word(words[5])), TensorAxis(crate::bytes::signed_of_word(words[6])), TensorAxis(crate::bytes::signed_of_word(words[7])), TensorAxis(crate::bytes::signed_of_word(words[8]))],
            flags: OpFlags(words[9]),
            reserved: [words[10], words[11], words[12], words[13], words[14], words[15]],
        }
    }

    proof fn words_hold_fields(self) {
        broadcast use crate::bytes::signed_survives_word;

        let back = Self::of_words(self.words());
        assert(back.perm =~= self.perm);
        assert(back.reserved =~= self.reserved);
    }

    fn word_len() -> (r: usize) {
        16
    }

    fn to_words(&self) -> (r: Vec<u32>) {
        let r: Vec<u32> = vec![
            self.rank.0, signed_to_word(self.perm[0].0), signed_to_word(self.perm[1].0),
            signed_to_word(self.perm[2].0), signed_to_word(self.perm[3].0),
            signed_to_word(self.perm[4].0), signed_to_word(self.perm[5].0),
            signed_to_word(self.perm[6].0), signed_to_word(self.perm[7].0), self.flags.0,
            self.reserved[0], self.reserved[1], self.reserved[2], self.reserved[3],
            self.reserved[4], self.reserved[5],
        ];
        assert(r@ =~= self.words());
        r
    }

    fn from_words(words: &[u32]) -> (r: Self) {
        TransposeAttr {
            rank: DimCount(words[0]),
            perm: [TensorAxis(word_to_signed(words[1])), TensorAxis(word_to_signed(words[2])), TensorAxis(word_to_signed(words[3])), TensorAxis(word_to_signed(words[4])), TensorAxis(word_to_signed(words[5])), TensorAxis(word_to_signed(words[6])), TensorAxis(word_to_signed(words[7])), TensorAxis(word_to_signed(words[8]))],
            flags: OpFlags(words[9]),
            reserved: [words[10], words[11], words[12], words[13], words[14], words[15]],
        }
    }
}

impl AiKernelAttr for TransposeAttr {
    open spec fn op_code() -> KernelOp {
        KernelOp(KernelOp::TRANSPOSE)
    }

    fn op() -> (r: KernelOp) {
        KernelOp(KernelOp::TRANSPOSE)
    }
}

/// Parameters of a selection of slices.
#[derive(Clone, Copy, Debug)]
pub struct GatherAttr {
    /// Axis that is indexed.
    pub axis: TensorAxis,
    /// Kept at zero.
    pub flags: OpFlags,
    /// Kept at zero.
    pub reserved: [u32; 14],
}

impl Default for GatherAttr {
    fn default() -> (r: Self)
        ensures
            r.axis == TensorAxis(0),
            r.flags == OpFlags(0),
            forall|i: int| 0 <= i < 14 ==> (#[trigger] r.reserved[i]) == 0,
    {
        GatherAttr {
            axis: TensorAxis(0),
            flags: OpFlags(0),
            reserved: [0; 14],
        }
    }
}

impl InlineAttr for GatherAttr {
    open spec fn word_count() -> nat {
        16
    }

    open spec fn words(self) -> Seq<u32> {
        seq![
            crate::bytes::word_of_signed(self.axis.0), self.flags.0, self.reserved[0],
            self.reserved[1], self.reserved[2], self.reserved[3], self.reserved[4],
            self.reserved[5], self.reserved[6], self.reserved[7], self.reserved[8],
            self.reserved[9], self.reserved[10], self.reserved[11], self.reserved[12],
            self.reserved[13],
        ]
    }

    open spec fn of_words(words: Seq<u32>) -> Self {
        GatherAttr {
            axis: TensorAxis(crate::bytes::signed_of_word(words[0])),
            flags: OpFlags(words[1]),
            reserved: [words[2], words[3], words[4], words[5], words[6], words[7], words[8], words[9], words[10], words[11], words[12], words[13], words[14], words[15]],
        }
    }

    proof fn words_hold_fields(self) {
        broadcast use crate::bytes::signed_survives_word;

        let back = Self::of_words(self.words());
        assert(back.reserved =~= self.reserved);
    }

    fn word_len() -> (r: usize) {
        16
    }

    fn to_words(&self) -> (r: Vec<u32>) {
        let r: Vec<u32> = vec![
            signed_to_word(self.axis.0), self.flags.0, self.reserved[0], self.reserved[1],
            self.reserved[2], self.reserved[3], self.reserved[4], self.reserved[5],
            self.reserved[6], self.reserved[7], self.reserved[8], self.reserved[9],
            self.reserved[10], self.reserved[11], self.reserved[12], self.reserved[13],
        ];
        assert(r@ =~= self.words());
        r
    }

    fn from_words(words: &[u32]) -> (r: Self) {
        GatherAttr {
            axis: TensorAxis(word_to_signed(words[0])),
            flags: OpFlags(words[1]),
            reserved: [words[2], words[3], words[4], words[5], words[6], words[7], words[8], words[9], words[10], words[11], words[12], words[13], words[14], words[15]],
        }
    }
}

impl AiKernelAttr for GatherAttr {
    open spec fn op_code() -> KernelOp {
        KernelOp(KernelOp::GATHER)
    }

    fn op() -> (r: KernelOp) {
        KernelOp(KernelOp::GATHER)
    }
}

/// Parameters of a two-dimensional pooling.
#[derive(Clone, Copy, Debug)]
pub struct Pool2dAttr {
    /// Height of the window.
    pub kernel_h: DimSize,
    /// Width of the window.
    pub kernel_w: DimSize,
    /// Vertical step of the window.
    pub stride_h: KernelStride,
    /// Horizontal step of the window.
    pub stride_w: KernelStride,
    /// Vertical spread of the window.
    pub dilation_h: KernelStride,
    /// Horizontal spread of the window.
    pub dilation_w: KernelStride,
    /// Rows added above.
    pub pad_top: DimSize,
    /// Columns added left.
    pub pad_left: DimSize,
    /// Rows added below.
    pub pad_bottom: DimSize,
    /// Columns added right.
    pub pad_right: DimSize,
    /// See `CEIL_MODE`.
    pub flags: OpFlags,
    /// Kept at zero.
    pub reserved: [u32; 5],
}

impl Pool2dAttr {
    /// The output extent is rounded up.
    pub const CEIL_MODE: u32 = 1;
}

impl Default for Pool2dAttr {
    fn default() -> (r: Self)
        ensures
            r.kernel_h == DimSize(0),
            r.kernel_w == DimSize(0),
            r.stride_h == KernelStride(0),
            r.stride_w == KernelStride(0),
            r.dilation_h == KernelStride(0),
            r.dilation_w == KernelStride(0),
            r.pad_top == DimSize(0),
            r.pad_left == DimSize(0),
            r.pad_bottom == DimSize(0),
            r.pad_right == DimSize(0),
            r.flags == OpFlags(0),
            forall|i: int| 0 <= i < 5 ==> (#[trigger] r.reserved[i]) == 0,
    {
        Pool2dAttr {
            kernel_h: DimSize(0),
            kernel_w: DimSize(0),
            stride_h: KernelStride(0),
            stride_w: KernelStride(0),
            dilation_h: KernelStride(0),
            dilation_w: KernelStride(0),
            pad_top: DimSize(0),
            pad_left: DimSize(0),
            pad_bottom: DimSize(0),
            pad_right: DimSize(0),
            flags: OpFlags(0),
            reserved: [0; 5],
        }
    }
}

impl InlineAttr for Pool2dAttr {
    open spec fn word_count() -> nat {
        16
    }

    open spec fn words(self) -> Seq<u32> {
        seq![
            self.kernel_h.0, self.kernel_w.0, self.stride_h.0, self.stride_w.0,
            self.dilation_h.0, self.dilation_w.0, self.pad_top.0, self.pad_left.0,
            self.pad_bottom.0, self.pad_right.0, self.flags.0, self.reserved[0],
            self.reserved[1], self.reserved[2], self.reserved[3], self.reserved[4],
        ]
    }

    open spec fn of_words(words: Seq<u32>) -> Self {
        Pool2dAttr {
            kernel_h: DimSize(words[0]),
            kernel_w: DimSize(words[1]),
            stride_h: KernelStride(words[2]),
            stride_w: KernelStride(words[3]),
            dilation_h: KernelStride(words[4]),
            dilation_w: KernelStride(words[5]),
            pad_top: DimSize(words[6]),
            pad_left: DimSize(words[7]),
            pad_bottom: DimSize(words[8]),
            pad_right: DimSize(words[9]),
            flags: OpFlags(words[10]),
            reserved: [words[11], words[12], words[13], words[14], words[15]],
        }
    }

    proof fn words_hold_fields(self) {
        let back = Self::of_words(self.words());
        assert(back.reserved =~= self.reserved);
    }

    fn word_len() -> (r: usize) {
        16
    }

    fn to_words(&self) -> (r: Vec<u32>) {
        let r: Vec<u32> = vec![
            self.kernel_h.0, self.kernel_w.0, self.stride_h.0, self.stride_w.0,
            self.dilation_h.0, self.dilation_w.0, self.pad_top.0, self.pad_left.0,
            self.pad_bottom.0, self.pad_right.0, self.flags.0, self.reserved[0],
            self.reserved[1], self.reserved[2], self.reserved[3], self.reserved[4],
        ];
        assert(r@ =~= self.words());
        r
    }

    fn from_words(words: &[u32]) -> (r: Self) {
        Pool2dAttr {
            kernel_h: DimSize(words[0]),
            kernel_w: DimSize(words[1]),
            stride_h: KernelStride(words[2]),
            stride_w: KernelStride(words[3]),
            dilation_h: KernelStride(words[4]),
            dilation_w: KernelStride(words[5]),
            pad_top: DimSize(words[6]),
            pad_left: DimSize(words[7]),
            pad_bottom: DimSize(words[8]),
            pad_right: DimSize(words[9]),
            flags: OpFlags(words[10]),
            reserved: [words[11], words[12], words[13], words[14], words[15]],
        }
    }
}

impl AiKernelAttr for Pool2dAttr {
    open spec fn op_code() -> KernelOp {
        KernelOp(KernelOp::MAX_POOL)
    }

    fn op() -> (r: KernelOp) {
        KernelOp(KernelOp::MAX_POOL)
    }
}

/// Parameters of a conversion between element types.
#[derive(Clone, Copy, Debug)]
pub struct CastAttr {
    /// Element type of the output.
    pub to: AiDtype,
    /// Kept at zero.
    pub flags: OpFlags,
    /// Kept at zero.
    pub reserved: [u32; 14],
}

impl Default for CastAttr {
    fn default() -> (r: Self)
        ensures
            r.to == AiDtype(0),
            r.flags == OpFlags(0),
            forall|i: int| 0 <= i < 14 ==> (#[trigger] r.reserved[i]) == 0,
    {
        CastAttr {
            to: AiDtype(0),
            flags: OpFlags(0),
            reserved: [0; 14],
        }
    }
}

impl InlineAttr for CastAttr {
    open spec fn word_count() -> nat {
        16
    }

    open spec fn words(self) -> Seq<u32> {
        seq![
            self.to.0, self.flags.0, self.reserved[0], self.reserved[1], self.reserved[2],
            self.reserved[3], self.reserved[4], self.reserved[5], self.reserved[6],
            self.reserved[7], self.reserved[8], self.reserved[9], self.reserved[10],
            self.reserved[11], self.reserved[12], self.reserved[13],
        ]
    }

    open spec fn of_words(words: Seq<u32>) -> Self {
        CastAttr {
            to: AiDtype(words[0]),
            flags: OpFlags(words[1]),
            reserved: [words[2], words[3], words[4], words[5], words[6], words[7], words[8], words[9], words[10], words[11], words[12], words[13], words[14], words[15]],
        }
    }

    proof fn words_hold_fields(self) {
        let back = Self::of_words(self.words());
        assert(back.reserved =~= self.reserved);
    }

    fn word_len() -> (r: usize) {
        16
    }

    fn to_words(&self) -> (r: Vec<u32>) {
        let r: Vec<u32> = vec![
            self.to.0, self.flags.0, self.reserved[0], self.reserved[1], self.reserved[2],
            self.reserved[3], self.reserved[4], self.reserved[5], self.reserved[6],
            self.reserved[7], self.reserved[8], self.reserved[9], self.reserved[10],
            self.reserved[11], self.reserved[12], self.reserved[13],
        ];
        assert(r@ =~= self.words());
        r
    }

    fn from_words(words: &[u32]) -> (r: Self) {
        CastAttr {
            to: AiDtype(words[0]),
            flags: OpFlags(words[1]),
            reserved: [words[2], words[3], words[4], words[5], words[6], words[7], words[8], words[9], words[10], words[11], words[12], words[13], words[14], words[15]],
        }
    }
}

impl AiKernelAttr for CastAttr {
    open spec fn op_code() -> KernelOp {
        KernelOp(KernelOp::CAST)
    }

    fn op() -> (r: KernelOp) {
        KernelOp(KernelOp::CAST)
    }
}

/// Parameters of a two-dimensional resize.
#[derive(Clone, Copy, Debug)]
pub struct Resize2dAttr {
    /// Interpolation.
    pub mode: u32,
    /// How an output position maps to the input.
    pub coordinate_mode: u32,
    /// How a position is rounded.
    pub nearest_mode: u32,
    /// Height of the input.
    pub input_h: DimSize,
    /// Width of the input.
    pub input_w: DimSize,
    /// Height of the output.
    pub output_h: DimSize,
    /// Width of the output.
    pub output_w: DimSize,
    /// Kept at zero.
    pub flags: OpFlags,
    /// Kept at zero.
    pub reserved: [u32; 8],
}

impl Resize2dAttr {
    /// Take the nearest sample.
    pub const MODE_NEAREST: u32 = 0;

    /// Interpolate linearly.
    pub const MODE_LINEAR: u32 = 1;

    /// Pixel centres are aligned.
    pub const COORD_HALF_PIXEL: u32 = 0;

    /// Pixel corners are aligned.
    pub const COORD_ASYMMETRIC: u32 = 1;

    /// The outermost samples are aligned.
    pub const COORD_ALIGN_CORNERS: u32 = 2;

    /// Round, ties down.
    pub const NEAREST_ROUND_PREFER_FLOOR: u32 = 0;

    /// Round down.
    pub const NEAREST_FLOOR: u32 = 1;

    /// Round up.
    pub const NEAREST_CEIL: u32 = 2;
}

impl Default for Resize2dAttr {
    fn default() -> (r: Self)
        ensures
            r.mode == 0u32,
            r.coordinate_mode == 0u32,
            r.nearest_mode == 0u32,
            r.input_h == DimSize(0),
            r.input_w == DimSize(0),
            r.output_h == DimSize(0),
            r.output_w == DimSize(0),
            r.flags == OpFlags(0),
            forall|i: int| 0 <= i < 8 ==> (#[trigger] r.reserved[i]) == 0,
    {
        Resize2dAttr {
            mode: 0,
            coordinate_mode: 0,
            nearest_mode: 0,
            input_h: DimSize(0),
            input_w: DimSize(0),
            output_h: DimSize(0),
            output_w: DimSize(0),
            flags: OpFlags(0),
            reserved: [0; 8],
        }
    }
}

impl InlineAttr for Resize2dAttr {
    open spec fn word_count() -> nat {
        16
    }

    open spec fn words(self) -> Seq<u32> {
        seq![
            self.mode, self.coordinate_mode, self.nearest_mode, self.input_h.0, self.input_w.0,
            self.output_h.0, self.output_w.0, self.flags.0, self.reserved[0], self.reserved[1],
            self.reserved[2], self.reserved[3], self.reserved[4], self.reserved[5],
            self.reserved[6], self.reserved[7],
        ]
    }

    open spec fn of_words(words: Seq<u32>) -> Self {
        Resize2dAttr {
            mode: words[0],
            coordinate_mode: words[1],
            nearest_mode: words[2],
            input_h: DimSize(words[3]),
            input_w: DimSize(words[4]),
            output_h: DimSize(words[5]),
            output_w: DimSize(words[6]),
            flags: OpFlags(words[7]),
            reserved: [words[8], words[9], words[10], words[11], words[12], words[13], words[14], words[15]],
        }
    }

    proof fn words_hold_fields(self) {
        let back = Self::of_words(self.words());
        assert(back.reserved =~= self.reserved);
    }

    fn word_len() -> (r: usize) {
        16
    }

    fn to_words(&self) -> (r: Vec<u32>) {
        let r: Vec<u32> = vec![
            self.mode, self.coordinate_mode, self.nearest_mode, self.input_h.0, self.input_w.0,
            self.output_h.0, self.output_w.0, self.flags.0, self.reserved[0], self.reserved[1],
            self.reserved[2], self.reserved[3], self.reserved[4], self.reserved[5],
            self.reserved[6], self.reserved[7],
        ];
        assert(r@ =~= self.words());
        r
    }

    fn from_words(words: &[u32]) -> (r: Self) {
        Resize2dAttr {
            mode: words[0],
            coordinate_mode: words[1],
            nearest_mode: words[2],
            input_h: DimSize(words[3]),
            input_w: DimSize(words[4]),
            output_h: DimSize(words[5]),
            output_w: DimSize(words[6]),
            flags: OpFlags(words[7]),
            reserved: [words[8], words[9], words[10], words[11], words[12], words[13], words[14], words[15]],
        }
    }
}

impl AiKernelAttr for Resize2dAttr {
    open spec fn op_code() -> KernelOp {
        KernelOp(KernelOp::RESIZE)
    }

    fn op() -> (r: KernelOp) {
        KernelOp(KernelOp::RESIZE)
    }
}

/// Parameters of a selection of the first elements in order.
#[derive(Clone, Copy, Debug)]
pub struct TopKAttr {
    /// Axis that is ordered.
    pub axis: TensorAxis,
    /// Number of elements kept.
    pub k: DimSize,
    /// Non-zero keeps the largest.
    pub largest: u32,
    /// Non-zero asks for sorted output.
    pub sorted: u32,
    /// Kept at zero.
    pub flags: OpFlags,
    /// Kept at zero.
    pub reserved: [u32; 11],
}

impl Default for TopKAttr {
    fn default() -> (r: Self)
        ensures
            r.axis == TensorAxis(0),
            r.k == DimSize(0),
            r.largest == 0u32,
            r.sorted == 0u32,
            r.flags == OpFlags(0),
            forall|i: int| 0 <= i < 11 ==> (#[trigger] r.reserved[i]) == 0,
    {
        TopKAttr {
            axis: TensorAxis(0),
            k: DimSize(0),
            largest: 0,
            sorted: 0,
            flags: OpFlags(0),
            reserved: [0; 11],
        }
    }
}

impl InlineAttr for TopKAttr {
    open spec fn word_count() -> nat {
        16
    }

    open spec fn words(self) -> Seq<u32> {
        seq![
            crate::bytes::word_of_signed(self.axis.0), self.k.0, self.largest, self.sorted,
            self.flags.0, self.reserved[0], self.reserved[1], self.reserved[2], self.reserved[3],
            self.reserved[4], self.reserved[5], self.reserved[6], self.reserved[7],
            self.reserved[8], self.reserved[9], self.reserved[10],
        ]
    }

    open spec fn of_words(words: Seq<u32>) -> Self {
        TopKAttr {
            axis: TensorAxis(crate::bytes::signed_of_word(words[0])),
            k: DimSize(words[1]),
            largest: words[2],
            sorted: words[3],
            flags: OpFlags(words[4]),
            reserved: [words[5], words[6], words[7], words[8], words[9], words[10], words[11], words[12], words[13], words[14], words[15]],
        }
    }

    proof fn words_hold_fields(self) {
        broadcast use crate::bytes::signed_survives_word;

        let back = Self::of_words(self.words());
        assert(back.reserved =~= self.reserved);
    }

    fn word_len() -> (r: usize) {
        16
    }

    fn to_words(&self) -> (r: Vec<u32>) {
        let r: Vec<u32> = vec![
            signed_to_word(self.axis.0), self.k.0, self.largest, self.sorted, self.flags.0,
            self.reserved[0], self.reserved[1], self.reserved[2], self.reserved[3],
            self.reserved[4], self.reserved[5], self.reserved[6], self.reserved[7],
            self.reserved[8], self.reserved[9], self.reserved[10],
        ];
        assert(r@ =~= self.words());
        r
    }

    fn from_words(words: &[u32]) -> (r: Self) {
        TopKAttr {
            axis: TensorAxis(word_to_signed(words[0])),
            k: DimSize(words[1]),
            largest: words[2],
            sorted: words[3],
            flags: OpFlags(words[4]),
            reserved: [words[5], words[6], words[7], words[8], words[9], words[10], words[11], words[12], words[13], words[14], words[15]],
        }
    }
}

impl AiKernelAttr for TopKAttr {
    open spec fn op_code() -> KernelOp {
        KernelOp(KernelOp::TOP_K)
    }

    fn op() -> (r: KernelOp) {
        KernelOp(KernelOp::TOP_K)
    }
}

/// Parameters of a broadcast.
#[derive(Clone, Copy, Debug)]
pub struct ExpandAttr {
    /// Number of axes of the output.
    pub rank: DimCount,
    /// Extents of the output.
    pub target_shape: [DimSize; 8],
    /// Kept at zero.
    pub flags: OpFlags,
    /// Kept at zero.
    pub reserved: [u32; 6],
}

impl Default for ExpandAttr {
    fn default() -> (r: Self)
        ensures
            r.rank == DimCount(0),
            forall|i: int| 0 <= i < 8 ==> (#[trigger] r.target_shape[i]).0 == 0,
            r.flags == OpFlags(0),
            forall|i: int| 0 <= i < 6 ==> (#[trigger] r.reserved[i]) == 0,
    {
        let zero = DimSize(0);
        ExpandAttr {
            rank: DimCount(0),
            target_shape: [zero, zero, zero, zero, zero, zero, zero, zero],
            flags: OpFlags(0),
            reserved: [0; 6],
        }
    }
}

impl InlineAttr for ExpandAttr {
    open spec fn word_count() -> nat {
        16
    }

    open spec fn words(self) -> Seq<u32> {
        seq![
            self.rank.0, self.target_shape[0].0, self.target_shape[1].0, self.target_shape[2].0,
            self.target_shape[3].0, self.target_shape[4].0, self.target_shape[5].0,
            self.target_shape[6].0, self.target_shape[7].0, self.flags.0, self.reserved[0],
            self.reserved[1], self.reserved[2], self.reserved[3], self.reserved[4],
            self.reserved[5],
        ]
    }

    open spec fn of_words(words: Seq<u32>) -> Self {
        ExpandAttr {
            rank: DimCount(words[0]),
            target_shape: [DimSize(words[1]), DimSize(words[2]), DimSize(words[3]), DimSize(words[4]), DimSize(words[5]), DimSize(words[6]), DimSize(words[7]), DimSize(words[8])],
            flags: OpFlags(words[9]),
            reserved: [words[10], words[11], words[12], words[13], words[14], words[15]],
        }
    }

    proof fn words_hold_fields(self) {
        let back = Self::of_words(self.words());
        assert(back.target_shape =~= self.target_shape);
        assert(back.reserved =~= self.reserved);
    }

    fn word_len() -> (r: usize) {
        16
    }

    fn to_words(&self) -> (r: Vec<u32>) {
        let r: Vec<u32> = vec![
            self.rank.0, self.target_shape[0].0, self.target_shape[1].0, self.target_shape[2].0,
            self.target_shape[3].0, self.target_shape[4].0, self.target_shape[5].0,
            self.target_shape[6].0, self.target_shape[7].0, self.flags.0, self.reserved[0],
            self.reserved[1], self.reserved[2], self.reserved[3], self.reserved[4],
            self.reserved[5],
        ];
        assert(r@ =~= self.words());
        r
    }

    fn from_words(words: &[u32]) -> (r: Self) {
        ExpandAttr {
            rank: DimCount(words[0]),
            target_shape: [DimSize(words[1]), DimSize(words[2]), DimSize(words[3]), DimSize(words[4]), DimSize(words[5]), DimSize(words[6]), DimSize(words[7]), DimSize(words[8])],
            flags: OpFlags(words[9]),
            reserved: [words[10], words[11], words[12], words[13], words[14], words[15]],
        }
    }
}

impl AiKernelAttr for ExpandAttr {
    open spec fn op_code() -> KernelOp {
        KernelOp(KernelOp::EXPAND)
    }

    fn op() -> (r: KernelOp) {
        KernelOp(KernelOp::EXPAND)
    }
}

/// Parameters of a repetition.
#[derive(Clone, Copy, Debug)]
pub struct TileAttr {
    /// Number of axes.
    pub rank: DimCount,
    /// Repetitions along each axis.
    pub repeats: [DimSize; 8],
    /// Kept at zero.
    pub flags: OpFlags,
    /// Kept at zero.
    pub reserved: [u32; 6],
}

impl Default for TileAttr {
    fn default() -> (r: Self)
        ensures
            r.rank == DimCount(0),
            forall|i: int| 0 <= i < 8 ==> (#[trigger] r.repeats[i]).0 == 0,
            r.flags == OpFlags(0),
            forall|i: int| 0 <= i < 6 ==> (#[trigger] r.reserved[i]) == 0,
    {
        let zero = DimSize(0);
        TileAttr {
            rank: DimCount(0),
            repeats: [zero, zero, zero, zero, zero, zero, zero, zero],
            flags: OpFlags(0),
            reserved: [0; 6],
        }
    }
}

impl InlineAttr for TileAttr {
    open spec fn word_count() -> nat {
        16
    }

    open spec fn words(self) -> Seq<u32> {
        seq![
            self.rank.0, self.repeats[0].0, self.repeats[1].0, self.repeats[2].0,
            self.repeats[3].0, self.repeats[4].0, self.repeats[5].0, self.repeats[6].0,
            self.repeats[7].0, self.flags.0, self.reserved[0], self.reserved[1],
            self.reserved[2], self.reserved[3], self.reserved[4], self.reserved[5],
        ]
    }

    open spec fn of_words(words: Seq<u32>) -> Self {
        TileAttr {
            rank: DimCount(words[0]),
            repeats: [DimSize(words[1]), DimSize(words[2]), DimSize(words[3]), DimSize(words[4]), DimSize(words[5]), DimSize(words[6]), DimSize(words[7]), DimSize(words[8])],
            flags: OpFlags(words[9]),
            reserved: [words[10], words[11], words[12], words[13], words[14], words[15]],
        }
    }

    proof fn words_hold_fields(self) {
        let back = Self::of_words(self.words());
        assert(back.repeats =~= self.repeats);
        assert(back.reserved =~= self.reserved);
    }

    fn word_len() -> (r: usize) {
        16
    }

    fn to_words(&self) -> (r: Vec<u32>) {
        let r: Vec<u32> = vec![
            self.rank.0, self.repeats[0].0, self.repeats[1].0, self.repeats[2].0,
            self.repeats[3].0, self.repeats[4].0, self.repeats[5].0, self.repeats[6].0,
            self.repeats[7].0, self.flags.0, self.reserved[0], self.reserved[1],
            self.reserved[2], self.reserved[3], self.reserved[4], self.reserved[5],
        ];
        assert(r@ =~= self.words());
        r
    }

    fn from_words(words: &[u32]) -> (r: Self) {
        TileAttr {
            rank: DimCount(words[0]),
            repeats: [DimSize(words[1]), DimSize(words[2]), DimSize(words[3]), DimSize(words[4]), DimSize(words[5]), DimSize(words[6]), DimSize(words[7]), DimSize(words[8])],
            flags: OpFlags(words[9]),
            reserved: [words[10], words[11], words[12], words[13], words[14], words[15]],
        }
    }
}

impl AiKernelAttr for TileAttr {
    open spec fn op_code() -> KernelOp {
        KernelOp(KernelOp::TILE)
    }

    fn op() -> (r: KernelOp) {
        KernelOp(KernelOp::TILE)
    }
}

/// Parameters of a selection of single elements.
#[derive(Clone, Copy, Debug)]
pub struct GatherElementsAttr {
    /// Axis that is indexed.
    pub axis: TensorAxis,
    /// Kept at zero.
    pub flags: OpFlags,
    /// Kept at zero.
    pub reserved: [u32; 14],
}

impl Default for GatherElementsAttr {
    fn default() -> (r: Self)
        ensures
            r.axis == TensorAxis(0),
            r.flags == OpFlags(0),
            forall|i: int| 0 <= i < 14 ==> (#[trigger] r.reserved[i]) == 0,
    {
        GatherElementsAttr {
            axis: TensorAxis(0),
            flags: OpFlags(0),
            reserved: [0; 14],
        }
    }
}

impl InlineAttr for GatherElementsAttr {
    open spec fn word_count() -> nat {
        16
    }

    open spec fn words(self) -> Seq<u32> {
        seq![
            crate::bytes::word_of_signed(self.axis.0), self.flags.0, self.reserved[0],
            self.reserved[1], self.reserved[2], self.reserved[3], self.reserved[4],
            self.reserved[5], self.reserved[6], self.reserved[7], self.reserved[8],
            self.reserved[9], self.reserved[10], self.reserved[11], self.reserved[12],
            self.reserved[13],
        ]
    }

    open spec fn of_words(words: Seq<u32>) -> Self {
        GatherElementsAttr {
            axis: TensorAxis(crate::bytes::signed_of_word(words[0])),
            flags: OpFlags(words[1]),
            reserved: [words[2], words[3], words[4], words[5], words[6], words[7], words[8], words[9], words[10], words[11], words[12], words[13], words[14], words[15]],
        }
    }

    proof fn words_hold_fields(self) {
        broadcast use crate::bytes::signed_survives_word;

        let back = Self::of_words(self.words());
        assert(back.reserved =~= self.reserved);
    }

    fn word_len() -> (r: usize) {
        16
    }

    fn to_words(&self) -> (r: Vec<u32>) {
        let r: Vec<u32> = vec![
            signed_to_word(self.axis.0), self.flags.0, self.reserved[0], self.reserved[1],
            self.reserved[2], self.reserved[3], self.reserved[4], self.reserved[5],
            self.reserved[6], self.reserved[7], self.reserved[8], self.reserved[9],
            self.reserved[10], self.reserved[11], self.reserved[12], self.reserved[13],
        ];
        assert(r@ =~= self.words());
        r
    }

    fn from_words(words: &[u32]) -> (r: Self) {
        GatherElementsAttr {
            axis: TensorAxis(word_to_signed(words[0])),
            flags: OpFlags(words[1]),
            reserved: [words[2], words[3], words[4], words[5], words[6], words[7], words[8], words[9], words[10], words[11], words[12], words[13], words[14], words[15]],
        }
    }
}

impl AiKernelAttr for GatherElementsAttr {
    open spec fn op_code() -> KernelOp {
        KernelOp(KernelOp::GATHER_ELEMENTS)
    }

    fn op() -> (r: KernelOp) {
        KernelOp(KernelOp::GATHER_ELEMENTS)
    }
}

/// Parameters of a maximum over axes.
#[derive(Clone, Copy, Debug)]
pub struct ReduceMaxAttr {
    /// Number of axes that are reduced.
    pub axis_count: DimCount,
    /// The axes that are reduced.
    pub axes: [TensorAxis; 8],
    /// See the constants.
    pub flags: OpFlags,
    /// Kept at zero.
    pub reserved: [u32; 6],
}

impl ReduceMaxAttr {
    /// A reduced axis stays, with extent one.
    pub const KEEP_DIMS: u32 = 1;

    /// No axes means no reduction.
    pub const NOOP_WITH_EMPTY_AXES: u32 = 2;
}

impl Default for ReduceMaxAttr {
    fn default() -> (r: Self)
        ensures
            r.axis_count == DimCount(0),
            forall|i: int| 0 <= i < 8 ==> (#[trigger] r.axes[i]).0 == 0,
            r.flags == OpFlags(0),
            forall|i: int| 0 <= i < 6 ==> (#[trigger] r.reserved[i]) == 0,
    {
        let zero = TensorAxis(0);
        ReduceMaxAttr {
            axis_count: DimCount(0),
            axes: [zero, zero, zero, zero, zero, zero, zero, zero],
            flags: OpFlags(0),
            reserved: [0; 6],
        }
    }
}

impl InlineAttr for ReduceMaxAttr {
    open spec fn word_count() -> nat {
        16
    }

    open spec fn words(self) -> Seq<u32> {
        seq![
            self.axis_count.0, crate::bytes::word_of_signed(self.axes[0].0),
            crate::bytes::word_of_signed(self.axes[1].0),
            crate::bytes::word_of_signed(self.axes[2].0),
            crate::bytes::word_of_signed(self.axes[3].0),
            crate::bytes::word_of_signed(self.axes[4].0),
            crate::bytes::word_of_signed(self.axes[5].0),
            crate::bytes::word_of_signed(self.axes[6].0),
            crate::bytes::word_of_signed(self.axes[7].0), self.flags.0, self.reserved[0],
            self.reserved[1], self.reserved[2], self.reserved[3], self.reserved[4],
            self.reserved[5],
        ]
    }

    open spec fn of_words(words: Seq<u32>) -> Self {
        ReduceMaxAttr {
            axis_count: DimCount(words[0]),
            axes: [TensorAxis(crate::bytes::signed_of_word(words[1])), TensorAxis(crate::bytes::signed_of_word(words[2])), TensorAxis(crate::bytes::signed_of_word(words[3])), TensorAxis(crate::bytes::signed_of_word(words[4])), TensorAxis(crate::bytes::signed_of_word(words[5])), TensorAxis(crate::bytes::signed_of_word(words[6])), TensorAxis(crate::bytes::signed_of_word(words[7])), TensorAxis(crate::bytes::signed_of_word(words[8]))],
            flags: OpFlags(words[9]),
            reserved: [words[10], words[11], words[12], words[13], words[14], words[15]],
        }
    }

    proof fn words_hold_fields(self) {
        broadcast use crate::bytes::signed_survives_word;

        let back = Self::of_words(self.words());
        assert(back.axes =~= self.axes);
        assert(back.reserved =~= self.reserved);
    }

    fn word_len() -> (r: usize) {
        16
    }

    fn to_words(&self) -> (r: Vec<u32>) {
        let r: Vec<u32> = vec![
            self.axis_count.0, signed_to_word(self.axes[0].0), signed_to_word(self.axes[1].0),
            signed_to_word(self.axes[2].0), signed_to_word(self.axes[3].0),
            signed_to_word(self.axes[4].0), signed_to_word(self.axes[5].0),
            signed_to_word(self.axes[6].0), signed_to_word(self.axes[7].0), self.flags.0,
            self.reserved[0], self.reserved[1], self.reserved[2], self.reserved[3],
            self.reserved[4], self.reserved[5],
        ];
        assert(r@ =~= self.words());
        r
    }

    fn from_words(words: &[u32]) -> (r: Self) {
        ReduceMaxAttr {
            axis_count: DimCount(words[0]),
            axes: [TensorAxis(word_to_signed(words[1])), TensorAxis(word_to_signed(words[2])), TensorAxis(word_to_signed(words[3])), TensorAxis(word_to_signed(words[4])), TensorAxis(word_to_signed(words[5])), TensorAxis(word_to_signed(words[6])), TensorAxis(word_to_signed(words[7])), TensorAxis(word_to_signed(words[8]))],
            flags: OpFlags(words[9]),
            reserved: [words[10], words[11], words[12], words[13], words[14], words[15]],
        }
    }
}

impl AiKernelAttr for ReduceMaxAttr {
    open spec fn op_code() -> KernelOp {
        KernelOp(KernelOp::REDUCE_MAX)
    }

    fn op() -> (r: KernelOp) {
        KernelOp(KernelOp::REDUCE_MAX)
    }
}

} // verus!
