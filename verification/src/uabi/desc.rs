//! Descriptions of tensors, kernels and completions.
//!
//! A tensor description says where a user buffer lies and how it is laid out; it
//! does not own the memory. Whoever receives one has to check it again.

use crate::bytes::{
    high_half, join_halves, low_half, read_words, signed_to_word, word_to_signed, words_to_bytes,
};
use crate::uabi::kernel::{AiTargetHint, KernelOp};
use crate::uabi::kernelattr::{AiKernelAttr, InlineAttr};
use crate::uabi::types::{
    AttrByteSize, ByteSize, ByteStride, CompletionStatus, CompletionUserToken, DimCount, DimSize,
    FloatBits, KernelVa, TensorCount, TensorFlags, UserVa,
};
use vstd::prelude::*;
use vstd::slice::slice_subrange;

verus! {

/// Most axes that a tensor can have.
pub const MAX_DIM: usize = 8;

/// Largest stride of one axis, in bytes.
pub const MAX_STRIDE_BYTE: u64 = 0x1_0000_0000;

/// Most tensors that one kernel can take, inputs and outputs together.
pub const MAX_SUBMIT_TENSORS: usize = 8;

/// Size of the inline attribute area, in bytes.
pub const ATTR_INLINE_SIZE: usize = 128;

/// Words of a tensor description.
pub const TENSOR_WORDS: usize = 44;

/// Words of a kernel description.
pub const KERNEL_WORDS: usize = 400;

/// Element type of a tensor.
#[derive(Clone, Copy, PartialEq, Eq, Structural, Debug)]
pub struct AiDtype(pub u32);

impl AiDtype {
    /// Single-precision float.
    pub const F32: u32 = 0;

    /// Half-precision float.
    pub const F16: u32 = 1;

    /// Brain float.
    pub const BF16: u32 = 2;

    /// Signed byte.
    pub const I8: u32 = 3;

    /// Unsigned byte.
    pub const U8: u32 = 4;

    /// Signed 32-bit integer.
    pub const I32: u32 = 5;

    /// Signed 64-bit integer.
    pub const I64: u32 = 6;

    /// Boolean in one byte.
    pub const BOOL: u32 = 7;

    /// Block format Q4_0.
    pub const Q4_0: u32 = 100;

    /// Block format Q4_K.
    pub const Q4_K: u32 = 101;

    /// Block format Q8_0.
    pub const Q8_0: u32 = 102;

    /// Block format Q3_K.
    pub const Q3_K: u32 = 103;

    /// Block format IQ4_NL.
    pub const IQ4_NL: u32 = 104;

    /// Bytes of one element, for the types with a fixed width.
    pub open spec fn element_size(self) -> Option<u32> {
        if self.0 == AiDtype::F32 || self.0 == AiDtype::I32 {
            Some(4)
        } else if self.0 == AiDtype::F16 || self.0 == AiDtype::BF16 {
            Some(2)
        } else if self.0 == AiDtype::I8 || self.0 == AiDtype::U8 || self.0 == AiDtype::BOOL {
            Some(1)
        } else if self.0 == AiDtype::I64 {
            Some(8)
        } else {
            None
        }
    }

    /// Elements in one block of a block format.
    pub open spec fn block_size(self) -> Option<u32> {
        if self.0 == AiDtype::Q8_0 || self.0 == AiDtype::IQ4_NL {
            Some(32)
        } else if self.0 == AiDtype::Q3_K {
            Some(256)
        } else {
            None
        }
    }

    /// Bytes of one block of a block format.
    pub open spec fn block_bytes(self) -> Option<u32> {
        if self.0 == AiDtype::Q8_0 {
            Some(34)
        } else if self.0 == AiDtype::Q3_K {
            Some(110)
        } else if self.0 == AiDtype::IQ4_NL {
            Some(18)
        } else {
            None
        }
    }

    /// Bytes of one element; `None` where the size depends on a block format.
    pub fn element_size_bytes(self) -> (r: Option<u32>)
        ensures
            r == self.element_size(),
    {
        match self.0 {
            0 | 5 => Some(4),
            1 | 2 => Some(2),
            3 | 4 | 7 => Some(1),
            6 => Some(8),
            _ => None,
        }
    }

    /// Elements in one block of a block format.
    pub fn ggml_quant_block_size(self) -> (r: Option<u32>)
        ensures
            r == self.block_size(),
    {
        match self.0 {
            102 | 104 => Some(32),
            103 => Some(256),
            _ => None,
        }
    }

    /// Bytes of one block of a block format.
    pub fn ggml_quant_block_bytes(self) -> (r: Option<u32>)
        ensures
            r == self.block_bytes(),
    {
        match self.0 {
            102 => Some(34),
            103 => Some(110),
            104 => Some(18),
            _ => None,
        }
    }

    /// Whether the type is one of the block formats with a known size.
    pub fn is_ggml_quant(self) -> (r: bool)
        ensures
            r == (self.block_size() is Some),
    {
        self.ggml_quant_block_size().is_some()
    }
}

impl Default for AiDtype {
    fn default() -> (r: Self)
        ensures
            r == AiDtype(AiDtype::F32),
    {
        AiDtype(AiDtype::F32)
    }
}

/// Meaning of the axes of a tensor.
#[derive(Clone, Copy, PartialEq, Eq, Structural, Debug)]
pub struct AiTensorFormat(pub u32);

impl AiTensorFormat {
    /// Not said.
    pub const ANY: u32 = 0;

    /// Batch, channel, height, width.
    pub const NCHW: u32 = 1;

    /// Batch, height, width, channel.
    pub const NHWC: u32 = 2;

    /// Batch, channel, depth, height, width.
    pub const NCDHW: u32 = 3;
}

impl Default for AiTensorFormat {
    fn default() -> (r: Self)
        ensures
            r == AiTensorFormat(AiTensorFormat::ANY),
    {
        AiTensorFormat(AiTensorFormat::ANY)
    }
}

/// Placement of the elements of a tensor in memory.
#[derive(Clone, Copy, PartialEq, Eq, Structural, Debug)]
pub struct AiTensorLayout(pub u32);

impl AiTensorLayout {
    /// One element after the other, last axis fastest.
    pub const DENSE: u32 = 0;

    /// By the strides.
    pub const STRIDED: u32 = 1;

    /// In tiles.
    pub const BLOCKED: u32 = 2;

    /// In the blocks of a block format.
    pub const GGML_QUANT: u32 = 3;
}

impl Default for AiTensorLayout {
    fn default() -> (r: Self)
        ensures
            r == AiTensorLayout(AiTensorLayout::DENSE),
    {
        AiTensorLayout(AiTensorLayout::DENSE)
    }
}

/// What a block format needs besides its code.
#[derive(Clone, Copy, Debug)]
pub struct AiQuantDesc {
    /// Scale of the whole tensor.
    pub scale: FloatBits,
    /// Zero point, zero for symmetric formats.
    pub zero_point: i32,
    /// Elements in one block.
    pub block_size: DimSize,
    /// Element type of the scales.
    pub scale_dtype: AiDtype,
    /// Flags, for the backend to read.
    pub flags: TensorFlags,
    /// Kept at zero.
    pub reserved: [u32; 3],
}

impl AiQuantDesc {
    /// Every field is zero.
    pub open spec fn is_zero(self) -> bool {
        &&& self.scale.0 == 0
        &&& self.zero_point == 0
        &&& self.block_size.0 == 0
        &&& self.scale_dtype.0 == 0
        &&& self.flags.0 == 0
        &&& forall|i: int| 0 <= i < 3 ==> #[trigger] self.reserved[i] == 0
    }
}

impl Default for AiQuantDesc {
    fn default() -> (r: Self)
        ensures
            r.is_zero(),
    {
        AiQuantDesc {
            scale: FloatBits(0),
            zero_point: 0,
            block_size: DimSize(0),
            scale_dtype: AiDtype(0),
            flags: TensorFlags(0),
            reserved: [0; 3],
        }
    }
}

/// Description of a tensor in a user buffer.
#[derive(Clone, Copy, Debug)]
pub struct AiTensorDesc {
    /// Where the user sees the buffer.
    pub user_va: UserVa,
    /// Where the kernel sees the buffer, once it is mapped.
    pub kernel_va: KernelVa,
    /// Bytes of the buffer.
    pub size_bytes: ByteSize,
    /// Element type.
    pub dtype: AiDtype,
    /// Meaning of the axes.
    pub format: AiTensorFormat,
    /// Placement of the elements.
    pub layout: AiTensorLayout,
    /// Number of axes, at most `MAX_DIM`.
    pub ndim: DimCount,
    /// Flags, for frontend and backend to agree on.
    pub flags: TensorFlags,
    /// Kept at zero.
    pub reserved0: u32,
    /// Extent of each axis.
    pub shape: [DimSize; 8],
    /// Bytes from one element to the next along each axis.
    pub stride_bytes: [ByteStride; 8],
    /// What a block format needs besides its code.
    pub quant: AiQuantDesc,
}

/// The extents of a shape as numbers.
pub open spec fn dims_of(shape: Seq<DimSize>) -> Seq<nat> {
    Seq::new(shape.len(), |i: int| shape[i].0 as nat)
}

/// No product of leading extents from axis `from` on is above `limit`.
pub open spec fn prefixes_fit(dims: Seq<nat>, from: int, factor: nat, limit: int) -> bool {
    forall|n: int|
        from <= n <= dims.len() ==> factor * (#[trigger] crate::shape::product(dims, from, n))
            <= limit
}

/// No product of trailing extents, times the element size, is above `limit`.
pub open spec fn suffixes_fit(dims: Seq<nat>, element_size: nat, limit: int) -> bool {
    forall|n: int|
        0 <= n <= dims.len() ==> element_size * (#[trigger] crate::shape::product(
            dims,
            n,
            dims.len() as int,
        )) <= limit
}

/// Bytes of a dense tensor.
pub open spec fn dense_size(dims: Seq<nat>, element_size: nat) -> nat {
    crate::shape::product(dims, 0, dims.len() as int) * element_size
}

/// Stride of axis `i` of a dense tensor, in bytes.
pub open spec fn dense_stride(dims: Seq<nat>, element_size: nat, i: int) -> nat {
    if 0 <= i < dims.len() {
        element_size * crate::shape::product(dims, i + 1, dims.len() as int)
    } else {
        0
    }
}

/// Bytes of one row of a tensor in a block format.
pub open spec fn quant_row_size(dtype: AiDtype, first: nat) -> nat {
    (first / (dtype.block_size()->0 as nat)) * (dtype.block_bytes()->0 as nat)
}

/// Whether a row of `first` elements is a whole number of blocks, and at least one.
pub open spec fn quant_row_ok(dtype: AiDtype, first: nat) -> bool {
    dtype.block_size() matches Some(block) && first > 0 && first % (block as nat) == 0
}

/// Bytes of a tensor in a block format, where it has a size that fits.
pub open spec fn quant_size(dtype: AiDtype, dims: Seq<nat>) -> Option<nat> {
    if dims.len() == 0 || !quant_row_ok(dtype, dims[0]) || !prefixes_fit(dims, 1, 1, u64::MAX as int) {
        None
    } else {
        let size = quant_row_size(dtype, dims[0]) * crate::shape::product(
            dims,
            1,
            dims.len() as int,
        );
        if size <= u64::MAX {
            Some(size)
        } else {
            None
        }
    }
}

/// Stride of axis `i` of a tensor in a block format, in bytes.
pub open spec fn quant_stride(dtype: AiDtype, dims: Seq<nat>, i: int) -> nat {
    if i == 0 && dims.len() > 0 {
        dtype.block_bytes()->0 as nat
    } else if 0 < i < dims.len() {
        quant_row_size(dtype, dims[0]) * crate::shape::product(dims, 1, i)
    } else {
        0
    }
}

impl AiTensorDesc {
    /// Every field is zero.
    pub open spec fn is_zero(self) -> bool {
        &&& self.user_va.0 == 0
        &&& self.kernel_va.0 == 0
        &&& self.size_bytes.0 == 0
        &&& self.dtype.0 == 0
        &&& self.format.0 == 0
        &&& self.layout.0 == 0
        &&& self.ndim.0 == 0
        &&& self.flags.0 == 0
        &&& self.reserved0 == 0
        &&& forall|i: int| 0 <= i < 8 ==> (#[trigger] self.shape[i]).0 == 0
        &&& forall|i: int| 0 <= i < 8 ==> (#[trigger] self.stride_bytes[i]).0 == 0
        &&& self.quant.is_zero()
    }

    /// The description says what a constructor was told, and nothing is mapped yet.
    pub open spec fn describes(
        self,
        user_va: UserVa,
        size_bytes: ByteSize,
        dtype: AiDtype,
        format: AiTensorFormat,
        layout: AiTensorLayout,
        shape: Seq<DimSize>,
        flags: TensorFlags,
    ) -> bool {
        &&& self.user_va == user_va
        &&& self.kernel_va.0 == 0
        &&& self.size_bytes == size_bytes
        &&& self.dtype == dtype
        &&& self.format == format
        &&& self.layout == layout
        &&& self.ndim.0 == shape.len()
        &&& self.flags == flags
        &&& self.reserved0 == 0
        &&& forall|i: int| 0 <= i < 8 ==> (#[trigger] self.shape[i]).0 == (if i < shape.len() {
            shape[i].0
        } else {
            0
        })
    }

    /// Describes a user buffer with a dense tensor in it.
    pub fn from_user_buffer(
        user_va: UserVa,
        size_bytes: ByteSize,
        dtype: AiDtype,
        format: AiTensorFormat,
        layout: AiTensorLayout,
        shape: &[DimSize],
        flags: TensorFlags,
    ) -> (r: Self)
        requires
            shape@.len() <= MAX_DIM,
            layout.0 != AiTensorLayout::GGML_QUANT,
            dtype.element_size() is Some,
            prefixes_fit(dims_of(shape@), 0, 1, u64::MAX as int),
            suffixes_fit(dims_of(shape@), dtype.element_size()->0 as nat, u64::MAX as int),
            dense_size(dims_of(shape@), dtype.element_size()->0 as nat) <= size_bytes.0,
        ensures
            r.describes(user_va, size_bytes, dtype, format, layout, shape@, flags),
            forall|i: int|
                0 <= i < 8 ==> (#[trigger] r.stride_bytes[i]).0 == dense_stride(
                    dims_of(shape@),
                    dtype.element_size()->0 as nat,
                    i,
                ),
            r.quant.is_zero(),
    {
        let element_size: u32 = match dtype.element_size_bytes() {
            Some(size) => size,
            None => 0,
        };
        let ghost dims = dims_of(shape@);
        let mut desc = AiTensorDesc::default();
        desc.user_va = user_va;
        desc.size_bytes = size_bytes;
        desc.dtype = dtype;
        desc.format = format;
        desc.layout = layout;
        desc.ndim = DimCount(shape.len() as u32);
        desc.flags = flags;
        let ghost blank = desc;
        let mut stride: u64 = element_size as u64;
        let mut i: usize = shape.len();
        assert(stride == element_size as nat * crate::shape::product(dims, i as int, dims.len() as int))
            by (nonlinear_arith)
            requires
                stride == element_size,
                crate::shape::product(dims, i as int, dims.len() as int) == 1,
        ;
        while i > 0
            invariant
                i <= shape@.len() <= 8,
                dims == dims_of(shape@),
                suffixes_fit(dims, element_size as nat, u64::MAX as int),
                stride == element_size as nat * crate::shape::product(
                    dims,
                    i as int,
                    dims.len() as int,
                ),
                desc.user_va == blank.user_va,
                desc.kernel_va == blank.kernel_va,
                desc.size_bytes == blank.size_bytes,
                desc.dtype == blank.dtype,
                desc.format == blank.format,
                desc.layout == blank.layout,
                desc.ndim == blank.ndim,
                desc.flags == blank.flags,
                desc.reserved0 == blank.reserved0,
                desc.quant == blank.quant,
                forall|j: int|
                    0 <= j < 8 ==> (#[trigger] desc.shape[j]).0 == (if i <= j < shape@.len() {
                        shape@[j].0
                    } else {
                        0
                    }),
                forall|j: int|
                    0 <= j < 8 ==> (#[trigger] desc.stride_bytes[j]).0 == (if i <= j {
                        dense_stride(dims, element_size as nat, j)
                    } else {
                        0
                    }),
            decreases i,
        {
            i = i - 1;
            desc.shape[i] = shape[i];
            desc.stride_bytes[i] = ByteStride(stride);
            let extent: u64 = shape[i].0 as u64;
            proof {
                crate::shape::product_front(dims, i as int, dims.len() as int);
                let tail = crate::shape::product(dims, i + 1, dims.len() as int);
                assert((element_size as nat * tail) * extent == element_size as nat * (extent
                    * tail)) by (nonlinear_arith);
                assert(element_size as nat * crate::shape::product(
                    dims,
                    i as int,
                    dims.len() as int,
                ) <= u64::MAX);
            }
            stride = stride * extent;
        }
        desc
    }

    /// Describes a user buffer with a tensor in a block format in it.
    ///
    /// The extents count elements; the first must be a whole number of blocks. The
    /// stride of the first axis is one block, those of the others grow row by row.
    pub fn from_user_quant_buffer(
        user_va: UserVa,
        size_bytes: ByteSize,
        dtype: AiDtype,
        format: AiTensorFormat,
        shape: &[DimSize],
        flags: TensorFlags,
    ) -> (r: Self)
        requires
            shape@.len() <= MAX_DIM,
            quant_size(dtype, dims_of(shape@)) matches Some(size) && size <= size_bytes.0,
            prefixes_fit(
                dims_of(shape@),
                1,
                quant_row_size(dtype, dims_of(shape@)[0]),
                u64::MAX as int,
            ),
        ensures
            r.describes(
                user_va,
                size_bytes,
                dtype,
                format,
                AiTensorLayout(AiTensorLayout::GGML_QUANT),
                shape@,
                flags,
            ),
            forall|i: int|
                0 <= i < 8 ==> (#[trigger] r.stride_bytes[i]).0 == quant_stride(
                    dtype,
                    dims_of(shape@),
                    i,
                ),
            r.quant.scale.0 == 0,
            r.quant.zero_point == 0,
            r.quant.block_size.0 == dtype.block_size()->0,
            r.quant.scale_dtype == AiDtype(AiDtype::F16),
            r.quant.flags == flags,
            forall|i: int| 0 <= i < 3 ==> #[trigger] r.quant.reserved[i] == 0,
    {
        let block_size: u32 = match dtype.ggml_quant_block_size() {
            Some(size) => size,
            None => 1,
        };
        let block_bytes: u32 = match dtype.ggml_quant_block_bytes() {
            Some(bytes) => bytes,
            None => 0,
        };
        let ghost dims = dims_of(shape@);
        let mut desc = AiTensorDesc::default();
        desc.user_va = user_va;
        desc.size_bytes = size_bytes;
        desc.dtype = dtype;
        desc.format = format;
        desc.layout = AiTensorLayout(AiTensorLayout::GGML_QUANT);
        desc.ndim = DimCount(shape.len() as u32);
        desc.flags = flags;
        desc.quant.block_size = DimSize(block_size);
        desc.quant.scale_dtype = AiDtype(AiDtype::F16);
        desc.quant.flags = flags;
        desc.shape[0] = shape[0];
        desc.stride_bytes[0] = ByteStride(block_bytes as u64);
        let row_blocks: u64 = shape[0].0 as u64 / block_size as u64;
        assert(row_blocks * block_bytes <= u64::MAX) by (nonlinear_arith)
            requires
                row_blocks <= u32::MAX,
                block_bytes <= 110,
        ;
        let row_bytes: u64 = row_blocks * block_bytes as u64;
        assert(row_bytes == quant_row_size(dtype, dims[0]));
        let mut stride: u64 = row_bytes;
        let ghost blank = desc;
        let mut i: usize = 1;
        assert(stride == row_bytes as nat * crate::shape::product(dims, 1, 1)) by (nonlinear_arith)
            requires
                stride == row_bytes,
                crate::shape::product(dims, 1, 1) == 1,
        ;
        while i < shape.len()
            invariant
                1 <= i <= shape@.len() <= 8,
                dims == dims_of(shape@),
                row_bytes == quant_row_size(dtype, dims[0]),
                prefixes_fit(dims, 1, row_bytes as nat, u64::MAX as int),
                stride == row_bytes as nat * crate::shape::product(dims, 1, i as int),
                desc.user_va == blank.user_va,
                desc.kernel_va == blank.kernel_va,
                desc.size_bytes == blank.size_bytes,
                desc.dtype == blank.dtype,
                desc.format == blank.format,
                desc.layout == blank.layout,
                desc.ndim == blank.ndim,
                desc.flags == blank.flags,
                desc.reserved0 == blank.reserved0,
                desc.quant == blank.quant,
                forall|j: int|
                    0 <= j < 8 ==> (#[trigger] desc.shape[j]).0 == (if j < i {
                        shape@[j].0
                    } else {
                        0
                    }),
                forall|j: int|
                    0 <= j < 8 ==> (#[trigger] desc.stride_bytes[j]).0 == (if j < i {
                        quant_stride(dtype, dims, j)
                    } else {
                        0
                    }),
            decreases shape@.len() - i,
        {
            desc.shape[i] = shape[i];
            desc.stride_bytes[i] = ByteStride(stride);
            let extent: u64 = shape[i].0 as u64;
            proof {
                let head = crate::shape::product(dims, 1, i as int);
                assert((row_bytes as nat * head) * extent == row_bytes as nat * (head * extent))
                    by (nonlinear_arith);
                assert(row_bytes as nat * crate::shape::product(dims, 1, i + 1) <= u64::MAX);
            }
            stride = stride * extent;
            i = i + 1;
        }
        desc
    }

    /// The words of the description, in order.
    pub open spec fn words(self) -> Seq<u32> {
        seq![
            crate::bytes::low_word(self.user_va.0), crate::bytes::high_word(self.user_va.0),
            crate::bytes::low_word(self.kernel_va.0), crate::bytes::high_word(self.kernel_va.0),
            crate::bytes::low_word(self.size_bytes.0),
            crate::bytes::high_word(self.size_bytes.0), self.dtype.0, self.format.0,
            self.layout.0, self.ndim.0, self.flags.0 as u32, self.reserved0, self.shape[0].0,
            self.shape[1].0, self.shape[2].0, self.shape[3].0, self.shape[4].0, self.shape[5].0,
            self.shape[6].0, self.shape[7].0, crate::bytes::low_word(self.stride_bytes[0].0),
            crate::bytes::high_word(self.stride_bytes[0].0),
            crate::bytes::low_word(self.stride_bytes[1].0),
            crate::bytes::high_word(self.stride_bytes[1].0),
            crate::bytes::low_word(self.stride_bytes[2].0),
            crate::bytes::high_word(self.stride_bytes[2].0),
            crate::bytes::low_word(self.stride_bytes[3].0),
            crate::bytes::high_word(self.stride_bytes[3].0),
            crate::bytes::low_word(self.stride_bytes[4].0),
            crate::bytes::high_word(self.stride_bytes[4].0),
            crate::bytes::low_word(self.stride_bytes[5].0),
            crate::bytes::high_word(self.stride_bytes[5].0),
            crate::bytes::low_word(self.stride_bytes[6].0),
            crate::bytes::high_word(self.stride_bytes[6].0),
            crate::bytes::low_word(self.stride_bytes[7].0),
            crate::bytes::high_word(self.stride_bytes[7].0), self.quant.scale.0,
            crate::bytes::word_of_signed(self.quant.zero_point), self.quant.block_size.0,
            self.quant.scale_dtype.0, self.quant.flags.0 as u32, self.quant.reserved[0],
            self.quant.reserved[1], self.quant.reserved[2],
        ]
    }

    /// The description with the given words.
    pub open spec fn of_words(words: Seq<u32>) -> Self {
        AiTensorDesc {
            user_va: UserVa(crate::bytes::double_word(words[0], words[1])),
            kernel_va: KernelVa(crate::bytes::double_word(words[2], words[3])),
            size_bytes: ByteSize(crate::bytes::double_word(words[4], words[5])),
            dtype: AiDtype(words[6]),
            format: AiTensorFormat(words[7]),
            layout: AiTensorLayout(words[8]),
            ndim: DimCount(words[9]),
            flags: TensorFlags(words[10] as u8),
            reserved0: words[11],
            shape: [
                DimSize(words[12]), DimSize(words[13]), DimSize(words[14]), DimSize(words[15]),
                DimSize(words[16]), DimSize(words[17]), DimSize(words[18]), DimSize(words[19]),
            ],
            stride_bytes: [
                ByteStride(crate::bytes::double_word(words[20], words[21])),
                ByteStride(crate::bytes::double_word(words[22], words[23])),
                ByteStride(crate::bytes::double_word(words[24], words[25])),
                ByteStride(crate::bytes::double_word(words[26], words[27])),
                ByteStride(crate::bytes::double_word(words[28], words[29])),
                ByteStride(crate::bytes::double_word(words[30], words[31])),
                ByteStride(crate::bytes::double_word(words[32], words[33])),
                ByteStride(crate::bytes::double_word(words[34], words[35])),
            ],
            quant: AiQuantDesc {
                scale: FloatBits(words[36]),
                zero_point: crate::bytes::signed_of_word(words[37]),
                block_size: DimSize(words[38]),
                scale_dtype: AiDtype(words[39]),
                flags: TensorFlags(words[40] as u8),
                reserved: [words[41], words[42], words[43]],
            },
        }
    }

    /// The words hold every field of the description.
    pub proof fn words_hold_fields(self)
        ensures
            self.words().len() == TENSOR_WORDS,
            Self::of_words(self.words()) == self,
    {
        broadcast use {crate::bytes::double_word_of_halves, crate::bytes::signed_survives_word};

        let back = Self::of_words(self.words());
        assert(back.shape =~= self.shape);
        assert(back.stride_bytes =~= self.stride_bytes);
        assert(back.quant.reserved =~= self.quant.reserved);
    }

    /// The words of the description, in order.
    pub fn to_words(&self) -> (r: Vec<u32>)
        ensures
            r@ == self.words(),
    {
        let r: Vec<u32> = vec![
            low_half(self.user_va.0), high_half(self.user_va.0), low_half(self.kernel_va.0),
            high_half(self.kernel_va.0), low_half(self.size_bytes.0),
            high_half(self.size_bytes.0), self.dtype.0, self.format.0, self.layout.0,
            self.ndim.0, self.flags.0 as u32, self.reserved0, self.shape[0].0, self.shape[1].0,
            self.shape[2].0, self.shape[3].0, self.shape[4].0, self.shape[5].0, self.shape[6].0,
            self.shape[7].0, low_half(self.stride_bytes[0].0), high_half(self.stride_bytes[0].0),
            low_half(self.stride_bytes[1].0), high_half(self.stride_bytes[1].0),
            low_half(self.stride_bytes[2].0), high_half(self.stride_bytes[2].0),
            low_half(self.stride_bytes[3].0), high_half(self.stride_bytes[3].0),
            low_half(self.stride_bytes[4].0), high_half(self.stride_bytes[4].0),
            low_half(self.stride_bytes[5].0), high_half(self.stride_bytes[5].0),
            low_half(self.stride_bytes[6].0), high_half(self.stride_bytes[6].0),
            low_half(self.stride_bytes[7].0), high_half(self.stride_bytes[7].0),
            self.quant.scale.0, signed_to_word(self.quant.zero_point), self.quant.block_size.0,
            self.quant.scale_dtype.0, self.quant.flags.0 as u32, self.quant.reserved[0],
            self.quant.reserved[1], self.quant.reserved[2],
        ];
        assert(r@ =~= self.words());
        r
    }

    /// The description with the given words.
    pub fn from_words(words: &[u32]) -> (r: Self)
        requires
            words@.len() == TENSOR_WORDS,
        ensures
            r == Self::of_words(words@),
    {
        AiTensorDesc {
            user_va: UserVa(join_halves(words[0], words[1])),
            kernel_va: KernelVa(join_halves(words[2], words[3])),
            size_bytes: ByteSize(join_halves(words[4], words[5])),
            dtype: AiDtype(words[6]),
            format: AiTensorFormat(words[7]),
            layout: AiTensorLayout(words[8]),
            ndim: DimCount(words[9]),
            flags: TensorFlags(words[10] as u8),
            reserved0: words[11],
            shape: [
                DimSize(words[12]), DimSize(words[13]), DimSize(words[14]), DimSize(words[15]),
                DimSize(words[16]), DimSize(words[17]), DimSize(words[18]), DimSize(words[19]),
            ],
            stride_bytes: [
                ByteStride(join_halves(words[20], words[21])),
                ByteStride(join_halves(words[22], words[23])),
                ByteStride(join_halves(words[24], words[25])),
                ByteStride(join_halves(words[26], words[27])),
                ByteStride(join_halves(words[28], words[29])),
                ByteStride(join_halves(words[30], words[31])),
                ByteStride(join_halves(words[32], words[33])),
                ByteStride(join_halves(words[34], words[35])),
            ],
            quant: AiQuantDesc {
                scale: FloatBits(words[36]),
                zero_point: word_to_signed(words[37]),
                block_size: DimSize(words[38]),
                scale_dtype: AiDtype(words[39]),
                flags: TensorFlags(words[40] as u8),
                reserved: [words[41], words[42], words[43]],
            },
        }
    }
}

impl Default for AiTensorDesc {
    fn default() -> (r: Self)
        ensures
            r.is_zero(),
    {
        let dim = DimSize(0);
        let step = ByteStride(0);
        AiTensorDesc {
            user_va: UserVa(0),
            kernel_va: KernelVa(0),
            size_bytes: ByteSize(0),
            dtype: AiDtype(0),
            format: AiTensorFormat(0),
            layout: AiTensorLayout(0),
            ndim: DimCount(0),
            flags: TensorFlags(0),
            reserved0: 0,
            shape: [dim, dim, dim, dim, dim, dim, dim, dim],
            stride_bytes: [step, step, step, step, step, step, step, step],
            quant: AiQuantDesc::default(),
        }
    }
}

/// Bytes of a dense tensor with the given shape.
pub fn tensor_size_bytes(shape: &[DimSize], element_size: u32) -> (r: ByteSize)
    requires
        prefixes_fit(dims_of(shape@), 0, 1, u64::MAX as int),
        dense_size(dims_of(shape@), element_size as nat) <= u64::MAX,
    ensures
        r.0 == dense_size(dims_of(shape@), element_size as nat),
{
    let ghost dims = dims_of(shape@);
    let mut count: u64 = 1;
    let mut i: usize = 0;
    while i < shape.len()
        invariant
            i <= shape@.len(),
            dims == dims_of(shape@),
            prefixes_fit(dims, 0, 1, u64::MAX as int),
            count == crate::shape::product(dims, 0, i as int),
        decreases shape@.len() - i,
    {
        assert(1nat * crate::shape::product(dims, 0, i + 1) <= u64::MAX);
        count = count * shape[i].0 as u64;
        i = i + 1;
    }
    ByteSize(count * element_size as u64)
}

/// Bytes of a tensor in a block format with the given shape, where it has a size.
pub fn ggml_quant_tensor_size_bytes(dtype: AiDtype, shape: &[DimSize]) -> (r: Option<ByteSize>)
    ensures
        match r {
            Some(size) => quant_size(dtype, dims_of(shape@)) == Some(size.0 as nat),
            None => quant_size(dtype, dims_of(shape@)) is None,
        },
{
    if shape.len() == 0 {
        return None;
    }
    let ghost dims = dims_of(shape@);
    let block_size: u32 = match dtype.ggml_quant_block_size() {
        Some(size) => size,
        None => {
            return None;
        },
    };
    let block_bytes: u32 = match dtype.ggml_quant_block_bytes() {
        Some(bytes) => bytes,
        None => {
            return None;
        },
    };
    let first: u64 = shape[0].0 as u64;
    if first == 0 || first % block_size as u64 != 0 {
        return None;
    }
    let row_blocks: u64 = first / block_size as u64;
    assert(row_blocks * block_bytes <= u64::MAX) by (nonlinear_arith)
        requires
            row_blocks <= u32::MAX,
            block_bytes <= 110,
    ;
    let row_bytes: u64 = row_blocks * block_bytes as u64;
    let mut rows: u64 = 1;
    let mut i: usize = 1;
    while i < shape.len()
        invariant
            1 <= i <= shape@.len(),
            dims == dims_of(shape@),
            rows == crate::shape::product(dims, 1, i as int),
            forall|n: int|
                1 <= n <= i ==> 1nat * (#[trigger] crate::shape::product(dims, 1, n)) <= u64::MAX,
            shape@.len() > 0,
        decreases shape@.len() - i,
    {
        match rows.checked_mul(shape[i].0 as u64) {
            Some(next) => {
                rows = next;
            },
            None => {
                assert(1nat * crate::shape::product(dims, 1, i + 1) > u64::MAX);
                assert(!prefixes_fit(dims, 1, 1, u64::MAX as int));
                return None;
            },
        }
        i = i + 1;
    }
    match row_bytes.checked_mul(rows) {
        Some(total) => Some(ByteSize(total)),
        None => None,
    }
}

/// Description of one kernel: what to run, on what, with which parameters.
///
/// `tensors[0..input_count]` are the inputs, the next `output_count` the outputs.
#[derive(Clone, Copy, Debug)]
pub struct AiKernelDesc {
    /// What to run.
    pub op: KernelOp,
    /// Where the user would like it to run.
    pub target_hint: AiTargetHint,
    /// Number of inputs.
    pub input_count: TensorCount,
    /// Number of outputs.
    pub output_count: TensorCount,
    /// Inputs, then outputs.
    pub tensors: [AiTensorDesc; 8],
    /// Kept at zero.
    pub reserved0: u32,
    /// Meaningful bytes of the attribute area.
    pub attr_size: AttrByteSize,
    /// Attribute area; the operation says how to read it.
    pub attr_inline: [u8; 128],
}

/// The bytes of the attribute area after an attribute was stored in it.
pub open spec fn inline_bytes(words: Seq<u32>) -> Seq<u8> {
    Seq::new(
        128,
        |i: int|
            if i < 4 * words.len() {
                crate::bytes::byte_of(words[i / 4], i % 4)
            } else {
                0u8
            },
    )
}

impl AiKernelDesc {
    /// The description says what a constructor was told.
    pub open spec fn describes(
        self,
        op: KernelOp,
        attr_words: Seq<u32>,
        target_hint: AiTargetHint,
        input_count: TensorCount,
        output_count: TensorCount,
        tensors: Seq<AiTensorDesc>,
    ) -> bool {
        &&& self.op == op
        &&& self.target_hint == target_hint
        &&& self.input_count == input_count
        &&& self.output_count == output_count
        &&& forall|i: int| 0 <= i < tensors.len() ==> #[trigger] self.tensors[i] == tensors[i]
        &&& forall|i: int| tensors.len() <= i < 8 ==> (#[trigger] self.tensors[i]).is_zero()
        &&& self.reserved0 == 0
        &&& self.attr_size.0 == 4 * attr_words.len()
        &&& self.attr_inline@ == inline_bytes(attr_words)
    }

    /// Describes the kernel that the attribute belongs to.
    pub fn new<T: AiKernelAttr>(
        attr: &T,
        target_hint: AiTargetHint,
        input_count: TensorCount,
        output_count: TensorCount,
        tensors: &[AiTensorDesc],
    ) -> (r: Self)
        requires
            input_count.0 + output_count.0 <= MAX_SUBMIT_TENSORS,
            tensors@.len() == input_count.0 + output_count.0,
        ensures
            r.describes(
                T::op_code(),
                attr.words(),
                target_hint,
                input_count,
                output_count,
                tensors@,
            ),
    {
        Self::new_with_op(T::op(), attr, target_hint, input_count, output_count, tensors)
    }

    /// Describes a kernel whose attribute several operations share.
    pub fn new_with_op<T: InlineAttr>(
        op: KernelOp,
        attr: &T,
        target_hint: AiTargetHint,
        input_count: TensorCount,
        output_count: TensorCount,
        tensors: &[AiTensorDesc],
    ) -> (r: Self)
        requires
            input_count.0 + output_count.0 <= MAX_SUBMIT_TENSORS,
            tensors@.len() == input_count.0 + output_count.0,
        ensures
            r.describes(op, attr.words(), target_hint, input_count, output_count, tensors@),
    {
        let mut desc = AiKernelDesc::default();
        desc.op = op;
        desc.target_hint = target_hint;
        desc.input_count = input_count;
        desc.output_count = output_count;
        let ghost blank = desc;
        let mut i: usize = 0;
        while i < tensors.len()
            invariant
                i <= tensors@.len() <= 8,
                blank.tensors@.len() == 8,
                forall|j: int| 0 <= j < 8 ==> (#[trigger] blank.tensors[j]).is_zero(),
                forall|j: int| 0 <= j < i ==> #[trigger] desc.tensors[j] == tensors@[j],
                forall|j: int| i <= j < 8 ==> #[trigger] desc.tensors[j] == blank.tensors[j],
                desc.op == op,
                desc.target_hint == target_hint,
                desc.input_count == input_count,
                desc.output_count == output_count,
                desc.reserved0 == 0,
            decreases tensors@.len() - i,
        {
            desc.tensors[i] = tensors[i];
            i = i + 1;
        }
        desc.set_inline_attr(attr);
        desc
    }

    /// Stores an attribute in the attribute area.
    fn set_inline_attr<T: InlineAttr>(&mut self, attr: &T)
        ensures
            final(self).attr_size.0 == 4 * attr.words().len(),
            final(self).attr_inline@ == inline_bytes(attr.words()),
            final(self).op == old(self).op,
            final(self).target_hint == old(self).target_hint,
            final(self).input_count == old(self).input_count,
            final(self).output_count == old(self).output_count,
            final(self).tensors == old(self).tensors,
            final(self).reserved0 == old(self).reserved0,
    {
        proof {
            attr.words_hold_fields();
        }
        let words: Vec<u32> = attr.to_words();
        let bytes: Vec<u8> = words_to_bytes(&words);
        let mut area: [u8; 128] = [0; 128];
        let mut i: usize = 0;
        while i < bytes.len()
            invariant
                i <= bytes@.len() == 4 * words@.len() <= 128,
                bytes@ == crate::bytes::bytes_of_words(words@),
                forall|j: int| 0 <= j < i ==> #[trigger] area[j] == bytes@[j],
                forall|j: int| i <= j < 128 ==> #[trigger] area[j] == 0,
            decreases bytes@.len() - i,
        {
            area[i] = bytes[i];
            i = i + 1;
        }
        assert(area@ =~= inline_bytes(words@));
        self.attr_size = AttrByteSize(4 * words.len() as u32);
        self.attr_inline = area;
    }

    /// The words of the attribute area.
    pub open spec fn attr_words(self) -> Seq<u32> {
        crate::bytes::words_at(self.attr_inline@, 0, 32)
    }

    /// The words of the eight tensor descriptions.
    pub open spec fn tensor_words(self) -> Seq<u32> {
        Seq::new(
            352,
            |i: int| self.tensors[i / (TENSOR_WORDS as int)].words()[i % (TENSOR_WORDS as int)],
        )
    }

    /// The words of the description, in order; padding is zero.
    pub open spec fn words(self) -> Seq<u32> {
        seq![
            crate::bytes::word_of(self.op.0, self.target_hint.0, 0, 0),
            self.input_count.0,
            self.output_count.0,
            0u32,
        ] + self.tensor_words() + seq![self.reserved0, self.attr_size.0] + self.attr_words()
            + Seq::new(10, |i: int| 0u32)
    }

    /// The description is what the words say; padding does not matter.
    pub open spec fn read_from(self, words: Seq<u32>) -> bool {
        &&& self.op.0 == crate::bytes::byte_of(words[0], 0)
        &&& self.target_hint.0 == crate::bytes::byte_of(words[0], 1)
        &&& self.input_count.0 == words[1]
        &&& self.output_count.0 == words[2]
        &&& forall|i: int|
            0 <= i < 8 ==> #[trigger] self.tensors[i] == AiTensorDesc::of_words(
                words.subrange(4 + 44 * i, 48 + 44 * i),
            )
        &&& self.reserved0 == words[356]
        &&& self.attr_size.0 == words[357]
        &&& forall|i: int|
            0 <= i < 128 ==> #[trigger] self.attr_inline[i] == crate::bytes::byte_of(
                words[358 + i / 4],
                i % 4,
            )
    }

    /// The words hold every field: only one description can be read from them.
    pub proof fn words_hold_fields(self, back: Self)
        requires
            back.read_from(self.words()),
        ensures
            self.words().len() == KERNEL_WORDS,
            back == self,
    {
        let words = self.words();
        crate::bytes::bytes_of_word(self.op.0, self.target_hint.0, 0, 0);
        assert forall|i: int| 0 <= i < 8 implies back.tensors[i] == self.tensors[i] by {
            self.tensors[i].words_hold_fields();
            let part = words.subrange(4 + 44 * i, 48 + 44 * i);
            assert forall|j: int| 0 <= j < 44 implies part[j] == self.tensors[i].words()[j] by {
                let k = 44 * i + j;
                assert(k / 44 == i && k % 44 == j);
                assert(part[j] == words[4 + k]);
                assert(words[4 + k] == self.tensor_words()[k]);
            }
            assert(part =~= self.tensors[i].words());
        }
        assert(back.tensors =~= self.tensors);
        assert forall|i: int| 0 <= i < 128 implies back.attr_inline[i] == self.attr_inline[i] by {
            let k = i / 4;
            let area = self.attr_inline@;
            assert(words[358 + k] == self.attr_words()[k]);
            assert(self.attr_words()[k] == crate::bytes::word_at(area, 4 * k));
            crate::bytes::bytes_of_word(area[4 * k], area[4 * k + 1], area[4 * k + 2], area[4 * k
                + 3]);
        }
        assert(back.attr_inline =~= self.attr_inline);
        assert(words[356] == self.reserved0);
        assert(words[357] == self.attr_size.0);
        assert(words[0] == crate::bytes::word_of(self.op.0, self.target_hint.0, 0, 0));
        assert(words[1] == self.input_count.0);
        assert(words[2] == self.output_count.0);
    }

    /// The words of the description, in order; padding is zero.
    pub fn to_words(&self) -> (r: Vec<u32>)
        ensures
            r@ == self.words(),
            r@.len() == KERNEL_WORDS,
    {
        let head: u32 = (self.op.0 as u32) | ((self.target_hint.0 as u32) << 8) | ((0u8 as u32)
            << 16) | ((0u8 as u32) << 24);
        let mut out: Vec<u32> = vec![head, self.input_count.0, self.output_count.0, 0u32];
        let ghost start = out@;
        let mut i: usize = 0;
        while i < 8
            invariant
                i <= 8,
                start.len() == 4,
                out@ == start + self.tensor_words().take(44 * i),
            decreases 8 - i,
        {
            let mut part: Vec<u32> = self.tensors[i].to_words();
            let ghost before = out@;
            let ghost piece = part@;
            proof {
                self.tensors[i as int].words_hold_fields();
            }
            out.append(&mut part);
            assert(out@ =~= before + piece);
            assert forall|j: int| 0 <= j < 44 implies self.tensor_words()[44 * i + j] == piece[j] by {
                let k = 44 * i + j;
                assert(k / 44 == i && k % 44 == j);
            }
            i = i + 1;
            assert(out@ =~= start + self.tensor_words().take(44 * i));
        }
        assert(self.tensor_words().take(352) =~= self.tensor_words());
        out.push(self.reserved0);
        out.push(self.attr_size.0);
        let mut attr: Vec<u32> = read_words(&self.attr_inline, 0, 32);
        let ghost before = out@;
        let ghost area = attr@;
        out.append(&mut attr);
        assert(out@ =~= before + area);
        let mut i: usize = 0;
        let ghost body = out@;
        while i < 10
            invariant
                i <= 10,
                out@ == body + Seq::new(i as nat, |j: int| 0u32),
            decreases 10 - i,
        {
            out.push(0);
            i = i + 1;
            assert(out@ =~= body + Seq::new(i as nat, |j: int| 0u32));
        }
        assert(out@ =~= self.words());
        out
    }

    /// The description that the words say.
    pub fn from_words(words: &[u32]) -> (r: Self)
        requires
            words@.len() == KERNEL_WORDS,
        ensures
            r.read_from(words@),
    {
        let mut desc = AiKernelDesc::default();
        desc.op = KernelOp(words[0] as u8);
        desc.target_hint = AiTargetHint((words[0] >> 8) as u8);
        desc.input_count = TensorCount(words[1]);
        desc.output_count = TensorCount(words[2]);
        desc.reserved0 = words[356];
        desc.attr_size = AttrByteSize(words[357]);
        let ghost head = desc;
        let mut i: usize = 0;
        while i < 8
            invariant
                i <= 8,
                words@.len() == KERNEL_WORDS,
                desc.op == head.op,
                desc.target_hint == head.target_hint,
                desc.input_count == head.input_count,
                desc.output_count == head.output_count,
                desc.reserved0 == head.reserved0,
                desc.attr_size == head.attr_size,
                forall|j: int|
                    0 <= j < i ==> #[trigger] desc.tensors[j] == AiTensorDesc::of_words(
                        words@.subrange(4 + 44 * j, 48 + 44 * j),
                    ),
            decreases 8 - i,
        {
            let part: &[u32] = slice_subrange(words, 4 + 44 * i, 48 + 44 * i);
            desc.tensors[i] = AiTensorDesc::from_words(part);
            i = i + 1;
        }
        let ghost full = desc.tensors;
        let mut i: usize = 0;
        while i < 128
            invariant
                i <= 128,
                words@.len() == KERNEL_WORDS,
                desc.op == head.op,
                desc.target_hint == head.target_hint,
                desc.input_count == head.input_count,
                desc.output_count == head.output_count,
                desc.reserved0 == head.reserved0,
                desc.attr_size == head.attr_size,
                desc.tensors == full,
                forall|j: int|
                    0 <= j < i ==> #[trigger] desc.attr_inline[j] == crate::bytes::byte_of(
                        words@[358 + j / 4],
                        j % 4,
                    ),
            decreases 128 - i,
        {
            let word: u32 = words[358 + i / 4];
            desc.attr_inline[i] = match i % 4 {
                0 => word as u8,
                1 => (word >> 8) as u8,
                2 => (word >> 16) as u8,
                _ => (word >> 24) as u8,
            };
            i = i + 1;
        }
        desc
    }
}

impl Default for AiKernelDesc {
    fn default() -> (r: Self)
        ensures
            r.op == KernelOp(KernelOp::INVALID),
            r.target_hint == AiTargetHint(AiTargetHint::AUTO),
            r.input_count.0 == 0,
            r.output_count.0 == 0,
            forall|i: int| 0 <= i < 8 ==> (#[trigger] r.tensors[i]).is_zero(),
            r.reserved0 == 0,
            r.attr_size.0 == 0,
            forall|i: int| 0 <= i < 128 ==> #[trigger] r.attr_inline[i] == 0,
    {
        let tensor = AiTensorDesc::default();
        AiKernelDesc {
            op: KernelOp(KernelOp::INVALID),
            target_hint: AiTargetHint(AiTargetHint::AUTO),
            input_count: TensorCount(0),
            output_count: TensorCount(0),
            tensors: [tensor, tensor, tensor, tensor, tensor, tensor, tensor, tensor],
            reserved0: 0,
            attr_size: AttrByteSize(0),
            attr_inline: [0; 128],
        }
    }
}

/// Outcome of a submitted graph, in the form that fills a cache line.
#[derive(Clone, Copy, PartialEq, Eq, Structural, Debug)]
pub struct AiCompletionEntry {
    /// The token of the submission.
    pub user_token: CompletionUserToken,
    /// Zero for success, else a negative error number.
    pub status: CompletionStatus,
    /// Kept at zero.
    pub reserved0: u8,
}

impl Default for AiCompletionEntry {
    fn default() -> (r: Self)
        ensures
            r == (AiCompletionEntry {
                user_token: CompletionUserToken(0),
                status: CompletionStatus(0),
                reserved0: 0,
            }),
    {
        AiCompletionEntry {
            user_token: CompletionUserToken(0),
            status: CompletionStatus(0),
            reserved0: 0,
        }
    }
}


/// The strides of a tensor in a block format: a block along the first axis, a row of blocks
/// along the second, and along any other as far as all of the axis before it. The size is
/// all of the last axis.
pub proof fn block_strides_nest(dtype: AiDtype, dims: Seq<nat>, axis: int)
    requires
        quant_size(dtype, dims) is Some,
        0 <= axis < dims.len(),
    ensures
        axis == 0 ==> quant_stride(dtype, dims, 0) == dtype.block_bytes()->0,
        axis == 1 ==> quant_stride(dtype, dims, 1) * dtype.block_size()->0 == dims[0]
            * dtype.block_bytes()->0,
        axis > 1 ==> quant_stride(dtype, dims, axis) == quant_stride(dtype, dims, axis - 1)
            * dims[axis - 1],
        axis > 0 && axis == dims.len() - 1 ==> quant_size(dtype, dims)->0 == quant_stride(
            dtype,
            dims,
            axis,
        ) * dims[axis],
{
    let row = quant_row_size(dtype, dims[0]);
    if axis == 1 {
        let (first, block, bytes) = (
            dims[0] as int,
            dtype.block_size()->0 as int,
            dtype.block_bytes()->0 as int,
        );
        let whole = first / block;
        assert(whole * block == first) by (nonlinear_arith)
            requires
                whole == first / block,
                first % block == 0,
                block > 0,
        ;
        assert(crate::shape::product(dims, 1, 1) == 1);
        assert((whole * bytes) * 1 * block == (whole * block) * bytes) by (nonlinear_arith);
    }
    if axis > 1 {
        let (before, extent) = (crate::shape::product(dims, 1, axis - 1), dims[axis - 1]);
        assert(row * (before * extent) == (row * before) * extent) by (nonlinear_arith);
    }
    if axis > 0 {
        let (before, extent) = (crate::shape::product(dims, 1, axis), dims[axis]);
        assert(row * (before * extent) == (row * before) * extent) by (nonlinear_arith);
    }
}

} // verus!
