//! Where the fields of the binary interface stand, in bytes from the start of each structure.

use crate::runtime::ort::K3OrtTensor;
use crate::uabi::desc::{AiKernelDesc, AiTensorDesc};
use crate::uabi::error::AiCompletion;
use crate::uabi::kernelattr::{
    BinaryAttr, CastAttr, ConcatAttr, Conv2dAttr, CopyAttr, ExpandAttr, GatherAttr, GatherElementsAttr, GetRowsAttr, GluAttr, InlineAttr, MatMulAttr, Pool2dAttr, ReduceMaxAttr, Resize2dAttr, RmsNormAttr, RopeAttr, SetRowsAttr, SoftmaxAttr, TileAttr, TopKAttr, TransposeAttr, UnaryAttr,
};
use crate::uabi::node::{AiGraphHeader, AiGraphNode, AiGraphSubmitEntry};
use vstd::prelude::*;

verus! {

/// The word at a byte offset of a structure with the given words.
pub open spec fn word_field(words: Seq<u32>, offset: int) -> u32 {
    crate::bytes::word_at(crate::bytes::bytes_of_words(words), offset)
}

/// A word stands four bytes for each word before it from the start.
proof fn word_stands(words: Seq<u32>, k: int)
    requires
        0 <= k < words.len(),
    ensures
        word_field(words, 4 * k) == words[k],
{
    let image = crate::bytes::bytes_of_words(words);
    crate::bytes::word_in_image(words, Seq::empty(), k);
    assert(image + Seq::<u8>::empty() =~= image);
}

/// Words stand four bytes apart.
proof fn words_stand_in_order(words: Seq<u32>)
    ensures
        forall|k: int| 0 <= k < words.len() ==> word_field(words, 4 * k) == #[trigger] words[k],
{
    assert forall|k: int| 0 <= k < words.len() implies word_field(words, 4 * k)
        == #[trigger] words[k] by {
        word_stands(words, k);
    }
}

/// Offsets of the fields of `MatMulAttr`.
pub proof fn mat_mul_attr_layout(attr: MatMulAttr)
    ensures
        attr.words().len() == 18,
        word_field(attr.words(), 0) == attr.m.0,
        word_field(attr.words(), 4) == attr.n.0,
        word_field(attr.words(), 8) == attr.k.0,
        word_field(attr.words(), 12) == attr.batch.0,
        word_field(attr.words(), 16) == attr.lhs_row_stride.0,
        word_field(attr.words(), 20) == attr.lhs_col_stride.0,
        word_field(attr.words(), 24) == attr.lhs_batch_stride.0,
        word_field(attr.words(), 28) == attr.rhs_row_stride.0,
        word_field(attr.words(), 32) == attr.rhs_col_stride.0,
        word_field(attr.words(), 36) == attr.rhs_batch_stride.0,
        word_field(attr.words(), 40) == attr.out_row_stride.0,
        word_field(attr.words(), 44) == attr.out_col_stride.0,
        word_field(attr.words(), 48) == attr.out_batch_stride.0,
        word_field(attr.words(), 52) == attr.flags.0,
        word_field(attr.words(), 56) == attr.accum_dtype.0,
{
    let words = attr.words();
    words_stand_in_order(words);
    assert(words[0] == attr.m.0);
    assert(words[1] == attr.n.0);
    assert(words[2] == attr.k.0);
    assert(words[3] == attr.batch.0);
    assert(words[4] == attr.lhs_row_stride.0);
    assert(words[5] == attr.lhs_col_stride.0);
    assert(words[6] == attr.lhs_batch_stride.0);
    assert(words[7] == attr.rhs_row_stride.0);
    assert(words[8] == attr.rhs_col_stride.0);
    assert(words[9] == attr.rhs_batch_stride.0);
    assert(words[10] == attr.out_row_stride.0);
    assert(words[11] == attr.out_col_stride.0);
    assert(words[12] == attr.out_batch_stride.0);
    assert(words[13] == attr.flags.0);
    assert(words[14] == attr.accum_dtype.0);
}

/// Offsets of the fields of `RmsNormAttr`.
pub proof fn rms_norm_attr_layout(attr: RmsNormAttr)
    ensures
        attr.words().len() == 16,
        word_field(attr.words(), 0) == attr.hidden_size.0,
        word_field(attr.words(), 4) == attr.eps.0,
        word_field(attr.words(), 8) == attr.flags.0,
{
    let words = attr.words();
    words_stand_in_order(words);
    assert(words[0] == attr.hidden_size.0);
    assert(words[1] == attr.eps.0);
    assert(words[2] == attr.flags.0);
}

/// Offsets of the fields of `RopeAttr`.
pub proof fn rope_attr_layout(attr: RopeAttr)
    ensures
        attr.words().len() == 16,
        word_field(attr.words(), 0) == attr.n_dims.0,
        word_field(attr.words(), 4) == attr.mode,
        word_field(attr.words(), 8) == attr.n_ctx.0,
        word_field(attr.words(), 12) == attr.head_count.0,
        word_field(attr.words(), 16) == attr.freq_base.0,
        word_field(attr.words(), 20) == attr.freq_scale.0,
        word_field(attr.words(), 24) == attr.ext_factor.0,
        word_field(attr.words(), 28) == attr.attn_factor.0,
        word_field(attr.words(), 32) == attr.beta_fast.0,
        word_field(attr.words(), 36) == attr.beta_slow.0,
        word_field(attr.words(), 40) == attr.flags.0,
{
    let words = attr.words();
    words_stand_in_order(words);
    assert(words[0] == attr.n_dims.0);
    assert(words[1] == attr.mode);
    assert(words[2] == attr.n_ctx.0);
    assert(words[3] == attr.head_count.0);
    assert(words[4] == attr.freq_base.0);
    assert(words[5] == attr.freq_scale.0);
    assert(words[6] == attr.ext_factor.0);
    assert(words[7] == attr.attn_factor.0);
    assert(words[8] == attr.beta_fast.0);
    assert(words[9] == attr.beta_slow.0);
    assert(words[10] == attr.flags.0);
}

/// Offsets of the fields of `SoftmaxAttr`.
pub proof fn softmax_attr_layout(attr: SoftmaxAttr)
    ensures
        attr.words().len() == 16,
        word_field(attr.words(), 0) == crate::bytes::word_of_signed(attr.axis.0),
        word_field(attr.words(), 4) == attr.scale.0,
        word_field(attr.words(), 8) == attr.max_bias.0,
        word_field(attr.words(), 12) == attr.flags.0,
{
    let words = attr.words();
    words_stand_in_order(words);
    assert(words[0] == crate::bytes::word_of_signed(attr.axis.0));
    assert(words[1] == attr.scale.0);
    assert(words[2] == attr.max_bias.0);
    assert(words[3] == attr.flags.0);
}

/// Offsets of the fields of `BinaryAttr`.
pub proof fn binary_attr_layout(attr: BinaryAttr)
    ensures
        attr.words().len() == 16,
        word_field(attr.words(), 0) == attr.broadcast_kind,
        word_field(attr.words(), 4) == attr.alpha.0,
        word_field(attr.words(), 8) == attr.beta.0,
        word_field(attr.words(), 12) == attr.flags.0,
{
    let words = attr.words();
    words_stand_in_order(words);
    assert(words[0] == attr.broadcast_kind);
    assert(words[1] == attr.alpha.0);
    assert(words[2] == attr.beta.0);
    assert(words[3] == attr.flags.0);
}

/// Offsets of the fields of `GetRowsAttr`.
pub proof fn get_rows_attr_layout(attr: GetRowsAttr)
    ensures
        attr.words().len() == 16,
        word_field(attr.words(), 0) == attr.flags.0,
{
    let words = attr.words();
    words_stand_in_order(words);
    assert(words[0] == attr.flags.0);
}

/// Offsets of the fields of `SetRowsAttr`.
pub proof fn set_rows_attr_layout(attr: SetRowsAttr)
    ensures
        attr.words().len() == 16,
        word_field(attr.words(), 0) == attr.flags.0,
{
    let words = attr.words();
    words_stand_in_order(words);
    assert(words[0] == attr.flags.0);
}

/// Offsets of the fields of `GluAttr`.
pub proof fn glu_attr_layout(attr: GluAttr)
    ensures
        attr.words().len() == 16,
        word_field(attr.words(), 0) == attr.op,
        word_field(attr.words(), 4) == attr.swapped,
        word_field(attr.words(), 8) == attr.flags.0,
{
    let words = attr.words();
    words_stand_in_order(words);
    assert(words[0] == attr.op);
    assert(words[1] == attr.swapped);
    assert(words[2] == attr.flags.0);
}

/// Offsets of the fields of `CopyAttr`.
pub proof fn copy_attr_layout(attr: CopyAttr)
    ensures
        attr.words().len() == 16,
        word_field(attr.words(), 0) == attr.flags.0,
{
    let words = attr.words();
    words_stand_in_order(words);
    assert(words[0] == attr.flags.0);
}

/// Offsets of the fields of `UnaryAttr`.
pub proof fn unary_attr_layout(attr: UnaryAttr)
    ensures
        attr.words().len() == 16,
        word_field(attr.words(), 0) == attr.alpha.0,
        word_field(attr.words(), 4) == attr.beta.0,
        word_field(attr.words(), 8) == attr.flags.0,
{
    let words = attr.words();
    words_stand_in_order(words);
    assert(words[0] == attr.alpha.0);
    assert(words[1] == attr.beta.0);
    assert(words[2] == attr.flags.0);
}

/// Offsets of the fields of `Conv2dAttr`.
pub proof fn conv2d_attr_layout(attr: Conv2dAttr)
    ensures
        attr.words().len() == 32,
        word_field(attr.words(), 0) == attr.batch.0,
        word_field(attr.words(), 4) == attr.in_channels.0,
        word_field(attr.words(), 8) == attr.out_channels.0,
        word_field(attr.words(), 12) == attr.input_h.0,
        word_field(attr.words(), 16) == attr.input_w.0,
        word_field(attr.words(), 20) == attr.output_h.0,
        word_field(attr.words(), 24) == attr.output_w.0,
        word_field(attr.words(), 28) == attr.kernel_h.0,
        word_field(attr.words(), 32) == attr.kernel_w.0,
        word_field(attr.words(), 36) == attr.stride_h.0,
        word_field(attr.words(), 40) == attr.stride_w.0,
        word_field(attr.words(), 44) == attr.pad_h.0,
        word_field(attr.words(), 48) == attr.pad_w.0,
        word_field(attr.words(), 52) == attr.dilation_h.0,
        word_field(attr.words(), 56) == attr.dilation_w.0,
        word_field(attr.words(), 60) == attr.groups.0,
        word_field(attr.words(), 64) == attr.flags.0,
{
    let words = attr.words();
    words_stand_in_order(words);
    assert(words[0] == attr.batch.0);
    assert(words[1] == attr.in_channels.0);
    assert(words[2] == attr.out_channels.0);
    assert(words[3] == attr.input_h.0);
    assert(words[4] == attr.input_w.0);
    assert(words[5] == attr.output_h.0);
    assert(words[6] == attr.output_w.0);
    assert(words[7] == attr.kernel_h.0);
    assert(words[8] == attr.kernel_w.0);
    assert(words[9] == attr.stride_h.0);
    assert(words[10] == attr.stride_w.0);
    assert(words[11] == attr.pad_h.0);
    assert(words[12] == attr.pad_w.0);
    assert(words[13] == attr.dilation_h.0);
    assert(words[14] == attr.dilation_w.0);
    assert(words[15] == attr.groups.0);
    assert(words[16] == attr.flags.0);
}

/// Offsets of the fields of `ConcatAttr`.
pub proof fn concat_attr_layout(attr: ConcatAttr)
    ensures
        attr.words().len() == 16,
        word_field(attr.words(), 0) == crate::bytes::word_of_signed(attr.axis.0),
        word_field(attr.words(), 4) == attr.flags.0,
{
    let words = attr.words();
    words_stand_in_order(words);
    assert(words[0] == crate::bytes::word_of_signed(attr.axis.0));
    assert(words[1] == attr.flags.0);
}

/// Offsets of the fields of `TransposeAttr`.
pub proof fn transpose_attr_layout(attr: TransposeAttr)
    ensures
        attr.words().len() == 16,
        word_field(attr.words(), 0) == attr.rank.0,
        word_field(attr.words(), 4) == crate::bytes::word_of_signed(attr.perm[0].0),
        word_field(attr.words(), 8) == crate::bytes::word_of_signed(attr.perm[1].0),
        word_field(attr.words(), 12) == crate::bytes::word_of_signed(attr.perm[2].0),
        word_field(attr.words(), 16) == crate::bytes::word_of_signed(attr.perm[3].0),
        word_field(attr.words(), 20) == crate::bytes::word_of_signed(attr.perm[4].0),
        word_field(attr.words(), 24) == crate::bytes::word_of_signed(attr.perm[5].0),
        word_field(attr.words(), 28) == crate::bytes::word_of_signed(attr.perm[6].0),
        word_field(attr.words(), 32) == crate::bytes::word_of_signed(attr.perm[7].0),
        word_field(attr.words(), 36) == attr.flags.0,
{
    let words = attr.words();
    words_stand_in_order(words);
    assert(words[0] == attr.rank.0);
    assert(words[1] == crate::bytes::word_of_signed(attr.perm[0].0));
    assert(words[2] == crate::bytes::word_of_signed(attr.perm[1].0));
    assert(words[3] == crate::bytes::word_of_signed(attr.perm[2].0));
    assert(words[4] == crate::bytes::word_of_signed(attr.perm[3].0));
    assert(words[5] == crate::bytes::word_of_signed(attr.perm[4].0));
    assert(words[6] == crate::bytes::word_of_signed(attr.perm[5].0));
    assert(words[7] == crate::bytes::word_of_signed(attr.perm[6].0));
    assert(words[8] == crate::bytes::word_of_signed(attr.perm[7].0));
    assert(words[9] == attr.flags.0);
}

/// Offsets of the fields of `GatherAttr`.
pub proof fn gather_attr_layout(attr: GatherAttr)
    ensures
        attr.words().len() == 16,
        word_field(attr.words(), 0) == crate::bytes::word_of_signed(attr.axis.0),
        word_field(attr.words(), 4) == attr.flags.0,
{
    let words = attr.words();
    words_stand_in_order(words);
    assert(words[0] == crate::bytes::word_of_signed(attr.axis.0));
    assert(words[1] == attr.flags.0);
}

/// Offsets of the fields of `Pool2dAttr`.
pub proof fn pool2d_attr_layout(attr: Pool2dAttr)
    ensures
        attr.words().len() == 16,
        word_field(attr.words(), 0) == attr.kernel_h.0,
        word_field(attr.words(), 4) == attr.kernel_w.0,
        word_field(attr.words(), 8) == attr.stride_h.0,
        word_field(attr.words(), 12) == attr.stride_w.0,
        word_field(attr.words(), 16) == attr.dilation_h.0,
        word_field(attr.words(), 20) == attr.dilation_w.0,
        word_field(attr.words(), 24) == attr.pad_top.0,
        word_field(attr.words(), 28) == attr.pad_left.0,
        word_field(attr.words(), 32) == attr.pad_bottom.0,
        word_field(attr.words(), 36) == attr.pad_right.0,
        word_field(attr.words(), 40) == attr.flags.0,
{
    let words = attr.words();
    words_stand_in_order(words);
    assert(words[0] == attr.kernel_h.0);
    assert(words[1] == attr.kernel_w.0);
    assert(words[2] == attr.stride_h.0);
    assert(words[3] == attr.stride_w.0);
    assert(words[4] == attr.dilation_h.0);
    assert(words[5] == attr.dilation_w.0);
    assert(words[6] == attr.pad_top.0);
    assert(words[7] == attr.pad_left.0);
    assert(words[8] == attr.pad_bottom.0);
    assert(words[9] == attr.pad_right.0);
    assert(words[10] == attr.flags.0);
}

/// Offsets of the fields of `CastAttr`.
pub proof fn cast_attr_layout(attr: CastAttr)
    ensures
        attr.words().len() == 16,
        word_field(attr.words(), 0) == attr.to.0,
        word_field(attr.words(), 4) == attr.flags.0,
{
    let words = attr.words();
    words_stand_in_order(words);
    assert(words[0] == attr.to.0);
    assert(words[1] == attr.flags.0);
}

/// Offsets of the fields of `Resize2dAttr`.
pub proof fn resize2d_attr_layout(attr: Resize2dAttr)
    ensures
        attr.words().len() == 16,
        word_field(attr.words(), 0) == attr.mode,
        word_field(attr.words(), 4) == attr.coordinate_mode,
        word_field(attr.words(), 8) == attr.nearest_mode,
        word_field(attr.words(), 12) == attr.input_h.0,
        word_field(attr.words(), 16) == attr.input_w.0,
        word_field(attr.words(), 20) == attr.output_h.0,
        word_field(attr.words(), 24) == attr.output_w.0,
        word_field(attr.words(), 28) == attr.flags.0,
{
    let words = attr.words();
    words_stand_in_order(words);
    assert(words[0] == attr.mode);
    assert(words[1] == attr.coordinate_mode);
    assert(words[2] == attr.nearest_mode);
    assert(words[3] == attr.input_h.0);
    assert(words[4] == attr.input_w.0);
    assert(words[5] == attr.output_h.0);
    assert(words[6] == attr.output_w.0);
    assert(words[7] == attr.flags.0);
}

/// Offsets of the fields of `TopKAttr`.
pub proof fn top_kattr_layout(attr: TopKAttr)
    ensures
        attr.words().len() == 16,
        word_field(attr.words(), 0) == crate::bytes::word_of_signed(attr.axis.0),
        word_field(attr.words(), 4) == attr.k.0,
        word_field(attr.words(), 8) == attr.largest,
        word_field(attr.words(), 12) == attr.sorted,
        word_field(attr.words(), 16) == attr.flags.0,
{
    let words = attr.words();
    words_stand_in_order(words);
    assert(words[0] == crate::bytes::word_of_signed(attr.axis.0));
    assert(words[1] == attr.k.0);
    assert(words[2] == attr.largest);
    assert(words[3] == attr.sorted);
    assert(words[4] == attr.flags.0);
}

/// Offsets of the fields of `ExpandAttr`.
pub proof fn expand_attr_layout(attr: ExpandAttr)
    ensures
        attr.words().len() == 16,
        word_field(attr.words(), 0) == attr.rank.0,
        word_field(attr.words(), 4) == attr.target_shape[0].0,
        word_field(attr.words(), 8) == attr.target_shape[1].0,
        word_field(attr.words(), 12) == attr.target_shape[2].0,
        word_field(attr.words(), 16) == attr.target_shape[3].0,
        word_field(attr.words(), 20) == attr.target_shape[4].0,
        word_field(attr.words(), 24) == attr.target_shape[5].0,
        word_field(attr.words(), 28) == attr.target_shape[6].0,
        word_field(attr.words(), 32) == attr.target_shape[7].0,
        word_field(attr.words(), 36) == attr.flags.0,
{
    let words = attr.words();
    words_stand_in_order(words);
    assert(words[0] == attr.rank.0);
    assert(words[1] == attr.target_shape[0].0);
    assert(words[2] == attr.target_shape[1].0);
    assert(words[3] == attr.target_shape[2].0);
    assert(words[4] == attr.target_shape[3].0);
    assert(words[5] == attr.target_shape[4].0);
    assert(words[6] == attr.target_shape[5].0);
    assert(words[7] == attr.target_shape[6].0);
    assert(words[8] == attr.target_shape[7].0);
    assert(words[9] == attr.flags.0);
}

/// Offsets of the fields of `TileAttr`.
pub proof fn tile_attr_layout(attr: TileAttr)
    ensures
        attr.words().len() == 16,
        word_field(attr.words(), 0) == attr.rank.0,
        word_field(attr.words(), 4) == attr.repeats[0].0,
        word_field(attr.words(), 8) == attr.repeats[1].0,
        word_field(attr.words(), 12) == attr.repeats[2].0,
        word_field(attr.words(), 16) == attr.repeats[3].0,
        word_field(attr.words(), 20) == attr.repeats[4].0,
        word_field(attr.words(), 24) == attr.repeats[5].0,
        word_field(attr.words(), 28) == attr.repeats[6].0,
        word_field(attr.words(), 32) == attr.repeats[7].0,
        word_field(attr.words(), 36) == attr.flags.0,
{
    let words = attr.words();
    words_stand_in_order(words);
    assert(words[0] == attr.rank.0);
    assert(words[1] == attr.repeats[0].0);
    assert(words[2] == attr.repeats[1].0);
    assert(words[3] == attr.repeats[2].0);
    assert(words[4] == attr.repeats[3].0);
    assert(words[5] == attr.repeats[4].0);
    assert(words[6] == attr.repeats[5].0);
    assert(words[7] == attr.repeats[6].0);
    assert(words[8] == attr.repeats[7].0);
    assert(words[9] == attr.flags.0);
}

/// Offsets of the fields of `GatherElementsAttr`.
pub proof fn gather_elements_attr_layout(attr: GatherElementsAttr)
    ensures
        attr.words().len() == 16,
        word_field(attr.words(), 0) == crate::bytes::word_of_signed(attr.axis.0),
        word_field(attr.words(), 4) == attr.flags.0,
{
    let words = attr.words();
    words_stand_in_order(words);
    assert(words[0] == crate::bytes::word_of_signed(attr.axis.0));
    assert(words[1] == attr.flags.0);
}

/// Offsets of the fields of `ReduceMaxAttr`.
pub proof fn reduce_max_attr_layout(attr: ReduceMaxAttr)
    ensures
        attr.words().len() == 16,
        word_field(attr.words(), 0) == attr.axis_count.0,
        word_field(attr.words(), 4) == crate::bytes::word_of_signed(attr.axes[0].0),
        word_field(attr.words(), 8) == crate::bytes::word_of_signed(attr.axes[1].0),
        word_field(attr.words(), 12) == crate::bytes::word_of_signed(attr.axes[2].0),
        word_field(attr.words(), 16) == crate::bytes::word_of_signed(attr.axes[3].0),
        word_field(attr.words(), 20) == crate::bytes::word_of_signed(attr.axes[4].0),
        word_field(attr.words(), 24) == crate::bytes::word_of_signed(attr.axes[5].0),
        word_field(attr.words(), 28) == crate::bytes::word_of_signed(attr.axes[6].0),
        word_field(attr.words(), 32) == crate::bytes::word_of_signed(attr.axes[7].0),
        word_field(attr.words(), 36) == attr.flags.0,
{
    let words = attr.words();
    words_stand_in_order(words);
    assert(words[0] == attr.axis_count.0);
    assert(words[1] == crate::bytes::word_of_signed(attr.axes[0].0));
    assert(words[2] == crate::bytes::word_of_signed(attr.axes[1].0));
    assert(words[3] == crate::bytes::word_of_signed(attr.axes[2].0));
    assert(words[4] == crate::bytes::word_of_signed(attr.axes[3].0));
    assert(words[5] == crate::bytes::word_of_signed(attr.axes[4].0));
    assert(words[6] == crate::bytes::word_of_signed(attr.axes[5].0));
    assert(words[7] == crate::bytes::word_of_signed(attr.axes[6].0));
    assert(words[8] == crate::bytes::word_of_signed(attr.axes[7].0));
    assert(words[9] == attr.flags.0);
}

/// Offsets of the fields of `AiTensorDesc`.
pub proof fn tensor_desc_layout(value: AiTensorDesc)
    ensures
        value.words().len() == 44,
        word_field(value.words(), 0) == crate::bytes::low_word(value.user_va.0),
        word_field(value.words(), 4) == crate::bytes::high_word(value.user_va.0),
        word_field(value.words(), 8) == crate::bytes::low_word(value.kernel_va.0),
        word_field(value.words(), 12) == crate::bytes::high_word(value.kernel_va.0),
        word_field(value.words(), 16) == crate::bytes::low_word(value.size_bytes.0),
        word_field(value.words(), 20) == crate::bytes::high_word(value.size_bytes.0),
        word_field(value.words(), 24) == value.dtype.0,
        word_field(value.words(), 28) == value.format.0,
        word_field(value.words(), 32) == value.layout.0,
        word_field(value.words(), 36) == value.ndim.0,
        word_field(value.words(), 40) == value.flags.0 as u32,
        word_field(value.words(), 48) == value.shape[0].0,
        word_field(value.words(), 52) == value.shape[1].0,
        word_field(value.words(), 56) == value.shape[2].0,
        word_field(value.words(), 60) == value.shape[3].0,
        word_field(value.words(), 64) == value.shape[4].0,
        word_field(value.words(), 68) == value.shape[5].0,
        word_field(value.words(), 72) == value.shape[6].0,
        word_field(value.words(), 76) == value.shape[7].0,
        word_field(value.words(), 80) == crate::bytes::low_word(value.stride_bytes[0].0),
        word_field(value.words(), 84) == crate::bytes::high_word(value.stride_bytes[0].0),
        word_field(value.words(), 88) == crate::bytes::low_word(value.stride_bytes[1].0),
        word_field(value.words(), 92) == crate::bytes::high_word(value.stride_bytes[1].0),
        word_field(value.words(), 96) == crate::bytes::low_word(value.stride_bytes[2].0),
        word_field(value.words(), 100) == crate::bytes::high_word(value.stride_bytes[2].0),
        word_field(value.words(), 104) == crate::bytes::low_word(value.stride_bytes[3].0),
        word_field(value.words(), 108) == crate::bytes::high_word(value.stride_bytes[3].0),
        word_field(value.words(), 112) == crate::bytes::low_word(value.stride_bytes[4].0),
        word_field(value.words(), 116) == crate::bytes::high_word(value.stride_bytes[4].0),
        word_field(value.words(), 120) == crate::bytes::low_word(value.stride_bytes[5].0),
        word_field(value.words(), 124) == crate::bytes::high_word(value.stride_bytes[5].0),
        word_field(value.words(), 128) == crate::bytes::low_word(value.stride_bytes[6].0),
        word_field(value.words(), 132) == crate::bytes::high_word(value.stride_bytes[6].0),
        word_field(value.words(), 136) == crate::bytes::low_word(value.stride_bytes[7].0),
        word_field(value.words(), 140) == crate::bytes::high_word(value.stride_bytes[7].0),
        word_field(value.words(), 144) == value.quant.scale.0,
        word_field(value.words(), 148) == crate::bytes::word_of_signed(value.quant.zero_point),
        word_field(value.words(), 152) == value.quant.block_size.0,
        word_field(value.words(), 156) == value.quant.scale_dtype.0,
{
    let words = value.words();
    words_stand_in_order(words);
    assert(words[0] == crate::bytes::low_word(value.user_va.0));
    assert(words[1] == crate::bytes::high_word(value.user_va.0));
    assert(words[2] == crate::bytes::low_word(value.kernel_va.0));
    assert(words[3] == crate::bytes::high_word(value.kernel_va.0));
    assert(words[4] == crate::bytes::low_word(value.size_bytes.0));
    assert(words[5] == crate::bytes::high_word(value.size_bytes.0));
    assert(words[6] == value.dtype.0);
    assert(words[7] == value.format.0);
    assert(words[8] == value.layout.0);
    assert(words[9] == value.ndim.0);
    assert(words[10] == value.flags.0 as u32);
    assert(words[12] == value.shape[0].0);
    assert(words[13] == value.shape[1].0);
    assert(words[14] == value.shape[2].0);
    assert(words[15] == value.shape[3].0);
    assert(words[16] == value.shape[4].0);
    assert(words[17] == value.shape[5].0);
    assert(words[18] == value.shape[6].0);
    assert(words[19] == value.shape[7].0);
    assert(words[20] == crate::bytes::low_word(value.stride_bytes[0].0));
    assert(words[21] == crate::bytes::high_word(value.stride_bytes[0].0));
    assert(words[22] == crate::bytes::low_word(value.stride_bytes[1].0));
    assert(words[23] == crate::bytes::high_word(value.stride_bytes[1].0));
    assert(words[24] == crate::bytes::low_word(value.stride_bytes[2].0));
    assert(words[25] == crate::bytes::high_word(value.stride_bytes[2].0));
    assert(words[26] == crate::bytes::low_word(value.stride_bytes[3].0));
    assert(words[27] == crate::bytes::high_word(value.stride_bytes[3].0));
    assert(words[28] == crate::bytes::low_word(value.stride_bytes[4].0));
    assert(words[29] == crate::bytes::high_word(value.stride_bytes[4].0));
    assert(words[30] == crate::bytes::low_word(value.stride_bytes[5].0));
    assert(words[31] == crate::bytes::high_word(value.stride_bytes[5].0));
    assert(words[32] == crate::bytes::low_word(value.stride_bytes[6].0));
    assert(words[33] == crate::bytes::high_word(value.stride_bytes[6].0));
    assert(words[34] == crate::bytes::low_word(value.stride_bytes[7].0));
    assert(words[35] == crate::bytes::high_word(value.stride_bytes[7].0));
    assert(words[36] == value.quant.scale.0);
    assert(words[37] == crate::bytes::word_of_signed(value.quant.zero_point));
    assert(words[38] == value.quant.block_size.0);
    assert(words[39] == value.quant.scale_dtype.0);
}

/// Offsets of the fields of `AiGraphSubmitEntry`.
pub proof fn submit_entry_layout(value: AiGraphSubmitEntry)
    ensures
        value.words().len() == 16,
        word_field(value.words(), 0) == value.abi_version,
        word_field(value.words(), 4) == value.submit_kind.0,
        word_field(value.words(), 8) == value.flags.0,
        word_field(value.words(), 16) == value.user_token.0,
        word_field(value.words(), 24) == crate::bytes::low_word(value.graph_user_va.0),
        word_field(value.words(), 28) == crate::bytes::high_word(value.graph_user_va.0),
        word_field(value.words(), 32) == crate::bytes::low_word(value.graph_size.0),
        word_field(value.words(), 36) == crate::bytes::high_word(value.graph_size.0),
{
    let words = value.words();
    words_stand_in_order(words);
    assert(words[0] == value.abi_version);
    assert(words[1] == value.submit_kind.0);
    assert(words[2] == value.flags.0);
    assert(words[4] == value.user_token.0);
    assert(words[6] == crate::bytes::low_word(value.graph_user_va.0));
    assert(words[7] == crate::bytes::high_word(value.graph_user_va.0));
    assert(words[8] == crate::bytes::low_word(value.graph_size.0));
    assert(words[9] == crate::bytes::high_word(value.graph_size.0));
}

/// Offsets of the fields of `AiGraphHeader`.
pub proof fn graph_header_layout(value: AiGraphHeader)
    ensures
        value.words().len() == 7,
        word_field(value.words(), 0) == value.magic,
        word_field(value.words(), 4) == value.total_size.0,
        word_field(value.words(), 8) == value.flags.0,
        word_field(value.words(), 12) == value.node_count.0,
        word_field(value.words(), 16) == value.edge_count.0,
        word_field(value.words(), 20) == value.nodes_offset.0,
        word_field(value.words(), 24) == value.edges_offset.0,
{
    let words = value.words();
    words_stand_in_order(words);
    assert(words[0] == value.magic);
    assert(words[1] == value.total_size.0);
    assert(words[2] == value.flags.0);
    assert(words[3] == value.node_count.0);
    assert(words[4] == value.edge_count.0);
    assert(words[5] == value.nodes_offset.0);
    assert(words[6] == value.edges_offset.0);
}

/// Offsets of the fields of `AiCompletion`.
pub proof fn completion_layout(value: AiCompletion)
    ensures
        value.words().len() == 4,
        word_field(value.words(), 0) == value.user_token,
        word_field(value.words(), 4) == value.failed_node_id,
        word_field(value.words(), 8) == crate::bytes::word_of(value.status, value.failed_node_err, value.failed_node_op, value.reserved[0]),
{
    let words = value.words();
    words_stand_in_order(words);
    assert(words[0] == value.user_token);
    assert(words[1] == value.failed_node_id);
    assert(words[2] == crate::bytes::word_of(value.status, value.failed_node_err, value.failed_node_op, value.reserved[0]));
}

/// Offsets of the fields of `K3OrtTensor`.
pub proof fn ort_tensor_layout(value: K3OrtTensor)
    ensures
        value.words().len() == 34,
        word_field(value.words(), 0) == crate::bytes::low_word(value.data),
        word_field(value.words(), 4) == crate::bytes::high_word(value.data),
        word_field(value.words(), 8) == crate::bytes::low_word(value.size_bytes),
        word_field(value.words(), 12) == crate::bytes::high_word(value.size_bytes),
        word_field(value.words(), 16) == value.dtype,
        word_field(value.words(), 20) == value.format,
        word_field(value.words(), 24) == value.layout,
        word_field(value.words(), 28) == value.ndim,
        word_field(value.words(), 36) == value.shape[0],
        word_field(value.words(), 40) == value.shape[1],
        word_field(value.words(), 44) == value.shape[2],
        word_field(value.words(), 48) == value.shape[3],
        word_field(value.words(), 52) == value.shape[4],
        word_field(value.words(), 56) == value.shape[5],
        word_field(value.words(), 60) == value.shape[6],
        word_field(value.words(), 64) == value.shape[7],
        word_field(value.words(), 72) == crate::bytes::low_word(value.stride_bytes[0]),
        word_field(value.words(), 76) == crate::bytes::high_word(value.stride_bytes[0]),
        word_field(value.words(), 80) == crate::bytes::low_word(value.stride_bytes[1]),
        word_field(value.words(), 84) == crate::bytes::high_word(value.stride_bytes[1]),
        word_field(value.words(), 88) == crate::bytes::low_word(value.stride_bytes[2]),
        word_field(value.words(), 92) == crate::bytes::high_word(value.stride_bytes[2]),
        word_field(value.words(), 96) == crate::bytes::low_word(value.stride_bytes[3]),
        word_field(value.words(), 100) == crate::bytes::high_word(value.stride_bytes[3]),
        word_field(value.words(), 104) == crate::bytes::low_word(value.stride_bytes[4]),
        word_field(value.words(), 108) == crate::bytes::high_word(value.stride_bytes[4]),
        word_field(value.words(), 112) == crate::bytes::low_word(value.stride_bytes[5]),
        word_field(value.words(), 116) == crate::bytes::high_word(value.stride_bytes[5]),
        word_field(value.words(), 120) == crate::bytes::low_word(value.stride_bytes[6]),
        word_field(value.words(), 124) == crate::bytes::high_word(value.stride_bytes[6]),
        word_field(value.words(), 128) == crate::bytes::low_word(value.stride_bytes[7]),
        word_field(value.words(), 132) == crate::bytes::high_word(value.stride_bytes[7]),
{
    let words = value.words();
    words_stand_in_order(words);
    assert(words[0] == crate::bytes::low_word(value.data));
    assert(words[1] == crate::bytes::high_word(value.data));
    assert(words[2] == crate::bytes::low_word(value.size_bytes));
    assert(words[3] == crate::bytes::high_word(value.size_bytes));
    assert(words[4] == value.dtype);
    assert(words[5] == value.format);
    assert(words[6] == value.layout);
    assert(words[7] == value.ndim);
    assert(words[9] == value.shape[0]);
    assert(words[10] == value.shape[1]);
    assert(words[11] == value.shape[2]);
    assert(words[12] == value.shape[3]);
    assert(words[13] == value.shape[4]);
    assert(words[14] == value.shape[5]);
    assert(words[15] == value.shape[6]);
    assert(words[16] == value.shape[7]);
    assert(words[18] == crate::bytes::low_word(value.stride_bytes[0]));
    assert(words[19] == crate::bytes::high_word(value.stride_bytes[0]));
    assert(words[20] == crate::bytes::low_word(value.stride_bytes[1]));
    assert(words[21] == crate::bytes::high_word(value.stride_bytes[1]));
    assert(words[22] == crate::bytes::low_word(value.stride_bytes[2]));
    assert(words[23] == crate::bytes::high_word(value.stride_bytes[2]));
    assert(words[24] == crate::bytes::low_word(value.stride_bytes[3]));
    assert(words[25] == crate::bytes::high_word(value.stride_bytes[3]));
    assert(words[26] == crate::bytes::low_word(value.stride_bytes[4]));
    assert(words[27] == crate::bytes::high_word(value.stride_bytes[4]));
    assert(words[28] == crate::bytes::low_word(value.stride_bytes[5]));
    assert(words[29] == crate::bytes::high_word(value.stride_bytes[5]));
    assert(words[30] == crate::bytes::low_word(value.stride_bytes[6]));
    assert(words[31] == crate::bytes::high_word(value.stride_bytes[6]));
    assert(words[32] == crate::bytes::low_word(value.stride_bytes[7]));
    assert(words[33] == crate::bytes::high_word(value.stride_bytes[7]));
}

/// Offsets of the fields of `AiKernelDesc`: operation and target first, then the numbers of tensors, the
/// descriptions of eight tensors, the size of the attribute, and the attribute.
pub proof fn kernel_desc_layout(value: AiKernelDesc, tensor: int, k: int)
    requires
        0 <= tensor < 8,
        0 <= k < 44,
    ensures
        value.words().len() == 400,
        word_field(value.words(), 0) == crate::bytes::word_of(
            value.op.0,
            value.target_hint.0,
            0,
            0,
        ),
        word_field(value.words(), 4) == value.input_count.0,
        word_field(value.words(), 8) == value.output_count.0,
        word_field(value.words(), 16 + 176 * tensor + 4 * k) == value.tensors[tensor].words()[k],
        word_field(value.words(), 1428) == value.attr_size.0,
        k < 32 ==> word_field(value.words(), 1432 + 4 * k) == crate::bytes::word_at(
            value.attr_inline@,
            4 * k,
        ),
{
    let words = value.words();
    let at = 44 * tensor + k;
    assert(words.len() == 400);
    assert(at / 44 == tensor && at % 44 == k);
    assert(words[4 + at] == value.tensor_words()[at]);
    word_stands(words, 4 + at);
    word_stands(words, 0);
    word_stands(words, 1);
    word_stands(words, 2);
    word_stands(words, 357);
    assert(words[357] == value.attr_size.0);
    if k < 32 {
        word_stands(words, 358 + k);
        assert(words[358 + k] == value.attr_words()[k]);
    }
}

/// Offsets of the fields of `AiGraphNode`: its number, its kernel at byte 64, and its state behind that.
pub proof fn graph_node_layout(value: AiGraphNode, k: int)
    requires
        0 <= k < 400,
    ensures
        value.words().len() == 432,
        word_field(value.words(), 0) == value.node_id.0,
        word_field(value.words(), 64 + 4 * k) == value.desc.words()[k],
        word_field(value.words(), 1664) == crate::bytes::word_of(
            value.state.complete,
            value.state.error_flag,
            0,
            0,
        ),
{
    let words = value.words();
    word_stands(words, 0);
    word_stands(words, 16 + k);
    word_stands(words, 416);
}

} // verus!
