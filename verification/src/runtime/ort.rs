//! Single-node requests of an inference engine.
//!
//! The engine hands over one node with the addresses of its tensors. The node becomes a
//! graph of its own, which is submitted and waited for.

use crate::bytes::{high_half, join_halves, low_half, read_words};
use crate::runtime::tensor::TensorManager;
use crate::uabi::builder::GraphManager;
use crate::uabi::desc::{
    AiDtype, AiKernelDesc, AiTensorDesc, AiTensorFormat, AiTensorLayout, ATTR_INLINE_SIZE, MAX_DIM,
    MAX_SUBMIT_TENSORS,
};
use crate::uabi::graph::AiGraphBlob;
use crate::uabi::kernel::{AiTargetHint, KernelOp};
use crate::uabi::node::AiGraphSubmitEntry;
use crate::uabi::types::{AttrByteSize, TensorCount, UserToken};
use vstd::prelude::*;
use vstd::slice::slice_subrange;

verus! {

/// Version of the request format.
pub const K3_ORT_ABI_VERSION: u32 = 1;

/// Token of the first request.
pub const FIRST_TOKEN: u32 = 0x4B33_1000;

/// Outcome of a request.
#[derive(Clone, Copy, PartialEq, Eq, Structural, Debug)]
pub enum K3OrtStatus {
    /// The node has run.
    Success,
    /// There was no request.
    NullRequest,
    /// The tensor counts are not valid.
    InvalidCount,
    /// Operation or target is not supported.
    Unsupported,
    /// The attributes are not valid.
    InvalidAttribute,
    /// A tensor is not valid or not supported.
    InvalidTensor,
    /// Memory could not be allocated.
    AllocationFailed,
    /// The node could not be run.
    ExecutionFailed,
    /// Data could not be copied.
    CopyFailed,
}

impl K3OrtStatus {
    /// The code that the engine gets.
    pub open spec fn code_of(self) -> int {
        match self {
            K3OrtStatus::Success => 0int,
            K3OrtStatus::NullRequest => -1,
            K3OrtStatus::InvalidCount => -2,
            K3OrtStatus::Unsupported => -3,
            K3OrtStatus::InvalidAttribute => -4,
            K3OrtStatus::InvalidTensor => -5,
            K3OrtStatus::AllocationFailed => -6,
            K3OrtStatus::ExecutionFailed => -7,
            K3OrtStatus::CopyFailed => -8,
        }
    }

    /// The code that the engine gets.
    pub fn code(self) -> (r: i32)
        ensures
            r == self.code_of(),
    {
        match self {
            K3OrtStatus::Success => 0,
            K3OrtStatus::NullRequest => -1,
            K3OrtStatus::InvalidCount => -2,
            K3OrtStatus::Unsupported => -3,
            K3OrtStatus::InvalidAttribute => -4,
            K3OrtStatus::InvalidTensor => -5,
            K3OrtStatus::AllocationFailed => -6,
            K3OrtStatus::ExecutionFailed => -7,
            K3OrtStatus::CopyFailed => -8,
        }
    }
}

/// A tensor of a request.
#[derive(Clone, Copy, Debug)]
pub struct K3OrtTensor {
    /// Address of the buffer.
    pub data: u64,
    /// Bytes of the buffer.
    pub size_bytes: u64,
    /// Element type.
    pub dtype: u32,
    /// Meaning of the axes.
    pub format: u32,
    /// Placement of the elements.
    pub layout: u32,
    /// Number of axes.
    pub ndim: u32,
    /// Tensor flags.
    pub flags: u8,
    /// Padding.
    pub reserved0: [u8; 3],
    /// Extent of each axis.
    pub shape: [u32; 8],
    /// Stride of each axis, in bytes.
    pub stride_bytes: [u64; 8],
}

/// A request.
#[derive(Clone, Copy, Debug)]
pub struct K3OrtRunNode {
    /// Operation.
    pub op: u8,
    /// Where it should run.
    pub target_hint: u8,
    /// Padding.
    pub reserved0: [u8; 2],
    /// Number of inputs.
    pub input_count: u32,
    /// Number of outputs.
    pub output_count: u32,
    /// Inputs, then outputs.
    pub tensors: [K3OrtTensor; 8],
    /// Meaningful bytes of the attributes.
    pub attr_size: u32,
    /// Attributes.
    pub attr_inline: [u8; 128],
}

impl K3OrtTensor {
    /// Bytes of a tensor in a request image.
    pub const SIZE: usize = 136;

    /// Alignment of a tensor in a request image.
    pub const ALIGN: usize = 8;

    /// Where the extents start.
    pub const SHAPE_OFFSET: usize = 36;

    /// Where the strides start.
    pub const STRIDE_OFFSET: usize = 72;

    /// The words of the tensor; padding is zero.
    pub open spec fn words(self) -> Seq<u32> {
        seq![
            crate::bytes::low_word(self.data), crate::bytes::high_word(self.data),
            crate::bytes::low_word(self.size_bytes), crate::bytes::high_word(self.size_bytes),
            self.dtype, self.format, self.layout, self.ndim,
            crate::bytes::word_of(self.flags, self.reserved0[0], self.reserved0[1], self.reserved0[2]),
            self.shape[0], self.shape[1], self.shape[2], self.shape[3], self.shape[4],
            self.shape[5], self.shape[6], self.shape[7], 0u32,
            crate::bytes::low_word(self.stride_bytes[0]),
            crate::bytes::high_word(self.stride_bytes[0]),
            crate::bytes::low_word(self.stride_bytes[1]),
            crate::bytes::high_word(self.stride_bytes[1]),
            crate::bytes::low_word(self.stride_bytes[2]),
            crate::bytes::high_word(self.stride_bytes[2]),
            crate::bytes::low_word(self.stride_bytes[3]),
            crate::bytes::high_word(self.stride_bytes[3]),
            crate::bytes::low_word(self.stride_bytes[4]),
            crate::bytes::high_word(self.stride_bytes[4]),
            crate::bytes::low_word(self.stride_bytes[5]),
            crate::bytes::high_word(self.stride_bytes[5]),
            crate::bytes::low_word(self.stride_bytes[6]),
            crate::bytes::high_word(self.stride_bytes[6]),
            crate::bytes::low_word(self.stride_bytes[7]),
            crate::bytes::high_word(self.stride_bytes[7]),
        ]
    }

    /// The tensor that the words say.
    pub open spec fn of_words(words: Seq<u32>) -> Self {
        K3OrtTensor {
            data: crate::bytes::double_word(words[0], words[1]),
            size_bytes: crate::bytes::double_word(words[2], words[3]),
            dtype: words[4],
            format: words[5],
            layout: words[6],
            ndim: words[7],
            flags: crate::bytes::byte_of(words[8], 0),
            reserved0: [crate::bytes::byte_of(words[8], 1), crate::bytes::byte_of(words[8], 2), crate::bytes::byte_of(words[8], 3)],
            shape: [
                words[9], words[10], words[11], words[12], words[13], words[14], words[15],
                words[16],
            ],
            stride_bytes: [
                crate::bytes::double_word(words[18], words[19]),
                crate::bytes::double_word(words[20], words[21]),
                crate::bytes::double_word(words[22], words[23]),
                crate::bytes::double_word(words[24], words[25]),
                crate::bytes::double_word(words[26], words[27]),
                crate::bytes::double_word(words[28], words[29]),
                crate::bytes::double_word(words[30], words[31]),
                crate::bytes::double_word(words[32], words[33]),
            ],
        }
    }

    /// The words hold every field.
    pub proof fn words_hold_fields(self)
        ensures
            self.words().len() == 34,
            Self::of_words(self.words()) == self,
    {
        broadcast use crate::bytes::double_word_of_halves;

        crate::bytes::bytes_of_word(
            self.flags,
            self.reserved0[0],
            self.reserved0[1],
            self.reserved0[2],
        );
        let back = Self::of_words(self.words());
        assert(back.reserved0 =~= self.reserved0);
        assert(back.shape =~= self.shape);
        assert(back.stride_bytes =~= self.stride_bytes);
    }

    /// The words of the tensor; padding is zero.
    pub fn to_words(&self) -> (r: Vec<u32>)
        ensures
            r@ == self.words(),
    {
        let flags: u32 = (self.flags as u32) | ((self.reserved0[0] as u32) << 8) | ((
        self.reserved0[1] as u32) << 16) | ((self.reserved0[2] as u32) << 24);
        let r: Vec<u32> = vec![
            low_half(self.data), high_half(self.data), low_half(self.size_bytes),
            high_half(self.size_bytes), self.dtype, self.format, self.layout, self.ndim, flags,
            self.shape[0], self.shape[1], self.shape[2], self.shape[3], self.shape[4],
            self.shape[5], self.shape[6], self.shape[7], 0, low_half(self.stride_bytes[0]),
            high_half(self.stride_bytes[0]), low_half(self.stride_bytes[1]),
            high_half(self.stride_bytes[1]), low_half(self.stride_bytes[2]),
            high_half(self.stride_bytes[2]), low_half(self.stride_bytes[3]),
            high_half(self.stride_bytes[3]), low_half(self.stride_bytes[4]),
            high_half(self.stride_bytes[4]), low_half(self.stride_bytes[5]),
            high_half(self.stride_bytes[5]), low_half(self.stride_bytes[6]),
            high_half(self.stride_bytes[6]), low_half(self.stride_bytes[7]),
            high_half(self.stride_bytes[7]),
        ];
        assert(r@ =~= self.words());
        r
    }

    /// The tensor that the words say.
    pub fn from_words(words: &[u32]) -> (r: Self)
        requires
            words@.len() == 34,
        ensures
            r == Self::of_words(words@),
    {
        K3OrtTensor {
            data: join_halves(words[0], words[1]),
            size_bytes: join_halves(words[2], words[3]),
            dtype: words[4],
            format: words[5],
            layout: words[6],
            ndim: words[7],
            flags: words[8] as u8,
            reserved0: [(words[8] >> 8) as u8, (words[8] >> 16) as u8, (words[8] >> 24) as u8],
            shape: [
                words[9], words[10], words[11], words[12], words[13], words[14], words[15],
                words[16],
            ],
            stride_bytes: [
                join_halves(words[18], words[19]), join_halves(words[20], words[21]),
                join_halves(words[22], words[23]), join_halves(words[24], words[25]),
                join_halves(words[26], words[27]), join_halves(words[28], words[29]),
                join_halves(words[30], words[31]), join_halves(words[32], words[33]),
            ],
        }
    }
}

impl K3OrtRunNode {
    /// Bytes of a request image.
    pub const SIZE: usize = 1240;

    /// Where the tensors start.
    pub const TENSORS_OFFSET: usize = 16;

    /// Where the attributes start.
    pub const ATTR_OFFSET: usize = 1108;

    /// The request is what the words of an image say.
    pub open spec fn read_from(self, words: Seq<u32>) -> bool {
        &&& self.op == crate::bytes::byte_of(words[0], 0)
        &&& self.target_hint == crate::bytes::byte_of(words[0], 1)
        &&& self.reserved0[0] == crate::bytes::byte_of(words[0], 2)
        &&& self.reserved0[1] == crate::bytes::byte_of(words[0], 3)
        &&& self.input_count == words[1]
        &&& self.output_count == words[2]
        &&& forall|i: int|
            0 <= i < 8 ==> #[trigger] self.tensors[i] == K3OrtTensor::of_words(
                words.subrange(4 + 34 * i, 38 + 34 * i),
            )
        &&& self.attr_size == words[276]
        &&& forall|i: int|
            0 <= i < 128 ==> #[trigger] self.attr_inline[i] == crate::bytes::byte_of(
                words[277 + i / 4],
                i % 4,
            )
    }

    /// Reads a request from its image, where the image is long enough.
    pub fn from_bytes(bytes: &[u8]) -> (r: Option<Self>)
        ensures
            match r {
                Some(req) => bytes@.len() >= K3OrtRunNode::SIZE && req.read_from(
                    crate::bytes::words_at(bytes@, 0, 310),
                ),
                None => bytes@.len() < K3OrtRunNode::SIZE,
            },
    {
        if bytes.len() < K3OrtRunNode::SIZE {
            return None;
        }
        let words: Vec<u32> = read_words(bytes, 0, 310);
        let first = K3OrtTensor::from_words(slice_subrange(&words, 4, 38));
        let mut tensors: [K3OrtTensor; 8] = [
            first, first, first, first, first, first, first, first,
        ];
        let mut i: usize = 0;
        while i < 8
            invariant
                i <= 8,
                words@.len() == 310,
                forall|j: int|
                    0 <= j < i ==> #[trigger] tensors[j] == K3OrtTensor::of_words(
                        words@.subrange(4 + 34 * j, 38 + 34 * j),
                    ),
            decreases 8 - i,
        {
            tensors[i] = K3OrtTensor::from_words(
                slice_subrange(&words, 4 + 34 * i, 38 + 34 * i),
            );
            i = i + 1;
        }
        let mut attr_inline: [u8; 128] = [0; 128];
        let mut i: usize = 0;
        while i < 128
            invariant
                i <= 128,
                words@.len() == 310,
                forall|j: int|
                    0 <= j < i ==> #[trigger] attr_inline[j] == crate::bytes::byte_of(
                        words@[277 + j / 4],
                        j % 4,
                    ),
            decreases 128 - i,
        {
            let word: u32 = words[277 + i / 4];
            attr_inline[i] = match i % 4 {
                0 => word as u8,
                1 => (word >> 8) as u8,
                2 => (word >> 16) as u8,
                _ => (word >> 24) as u8,
            };
            i = i + 1;
        }
        Some(
            K3OrtRunNode {
                op: words[0] as u8,
                target_hint: (words[0] >> 8) as u8,
                reserved0: [(words[0] >> 16) as u8, (words[0] >> 24) as u8],
                input_count: words[1],
                output_count: words[2],
                tensors,
                attr_size: words[276],
                attr_inline,
            },
        )
    }

    /// The counts are at least one each and at most eight together.
    pub open spec fn counts_ok(self) -> bool {
        &&& self.input_count > 0
        &&& self.output_count > 0
        &&& self.input_count + self.output_count <= 8
    }

    /// Number of tensors.
    pub open spec fn total(self) -> int {
        self.input_count + self.output_count
    }

    /// What is wrong with a request, where anything is.
    pub open spec fn fault(self) -> Option<K3OrtStatus> {
        if !KernelOp(self.op).known() || !AiTargetHint(self.target_hint).known() {
            Some(K3OrtStatus::Unsupported)
        } else if self.attr_size > 128 {
            Some(K3OrtStatus::InvalidAttribute)
        } else if !self.counts_ok() {
            Some(K3OrtStatus::InvalidCount)
        } else if exists|i: int| 0 <= i < self.total() && !tensor_ok(#[trigger] self.tensors[i]) {
            Some(K3OrtStatus::InvalidTensor)
        } else {
            None
        }
    }
}

/// The extents of a tensor.
pub open spec fn extents_of(raw: K3OrtTensor) -> Seq<nat> {
    Seq::new(raw.ndim as nat, |i: int| raw.shape[i] as nat)
}

/// The tensor is a dense single-precision one, with extents other than zero, and its
/// size and strides are those of its extents.
pub open spec fn tensor_ok(raw: K3OrtTensor) -> bool {
    let dims = extents_of(raw);
    let rank = raw.ndim as int;
    &&& rank <= 8
    &&& raw.data != 0
    &&& raw.dtype == AiDtype::F32
    &&& raw.format == 0 || raw.format == 1
    &&& raw.layout == AiTensorLayout::DENSE
    &&& forall|i: int| 0 <= i < rank ==> #[trigger] raw.shape[i] > 0
    &&& raw.size_bytes == 4 * crate::shape::product(dims, 0, rank)
    &&& forall|i: int|
        0 <= i < rank ==> (#[trigger] raw.stride_bytes[i]) == 4 * crate::shape::product(
            dims,
            i + 1,
            rank,
        )
}

/// Checks a tensor of a request.
pub fn validate_tensor(raw: &K3OrtTensor) -> (r: Result<(), K3OrtStatus>)
    ensures
        r == (if tensor_ok(*raw) {
            Ok::<(), K3OrtStatus>(())
        } else {
            Err(K3OrtStatus::InvalidTensor)
        }),
{
    let rank: usize = raw.ndim as usize;
    if rank > MAX_DIM || raw.data == 0 || raw.dtype != AiDtype::F32 || (raw.format != 0
        && raw.format != 1) || raw.layout != AiTensorLayout::DENSE {
        return Err(K3OrtStatus::InvalidTensor);
    }
    let ghost dims = extents_of(*raw);
    let mut expected_size: u64 = 4;
    let mut i: usize = 0;
    while i < rank
        invariant
            i <= rank <= 8,
            rank == raw.ndim,
            dims == extents_of(*raw),
            forall|j: int| 0 <= j < i ==> #[trigger] raw.shape[j] > 0,
            expected_size == 4 * crate::shape::product(dims, 0, i as int),
        decreases rank - i,
    {
        let dim: u32 = raw.shape[i];
        if dim == 0 {
            return Err(K3OrtStatus::InvalidTensor);
        }
        let ghost head = crate::shape::product(dims, 0, i as int);
        assert((4 * head) * dim == 4 * (head * dim)) by (nonlinear_arith);
        match expected_size.checked_mul(dim as u64) {
            Some(size) => {
                expected_size = size;
            },
            None => {
                proof {
                    if tensor_ok(*raw) {
                        assert forall|j: int| i + 1 <= j < rank implies dims[j] > 0 by {
                            assert(raw.shape[j] > 0);
                        }
                        crate::shape::product_grows(dims, 0, i + 1, rank as int);
                    }
                }
                return Err(K3OrtStatus::InvalidTensor);
            },
        }
        i = i + 1;
    }
    if raw.size_bytes != expected_size {
        return Err(K3OrtStatus::InvalidTensor);
    }
    let mut expected_stride: u64 = 4;
    let mut i: usize = rank;
    while i > 0
        invariant
            i <= rank <= 8,
            rank == raw.ndim,
            dims == extents_of(*raw),
            forall|j: int| 0 <= j < rank ==> #[trigger] raw.shape[j] > 0,
            4 * crate::shape::product(dims, 0, rank as int) <= u64::MAX,
            expected_stride == 4 * crate::shape::product(dims, i as int, rank as int),
            forall|j: int|
                i <= j < rank ==> (#[trigger] raw.stride_bytes[j]) == 4 * crate::shape::product(
                    dims,
                    j + 1,
                    rank as int,
                ),
        decreases i,
    {
        i = i - 1;
        if raw.stride_bytes[i] != expected_stride {
            return Err(K3OrtStatus::InvalidTensor);
        }
        proof {
            crate::shape::product_front(dims, i as int, rank as int);
            crate::shape::product_split(dims, 0, i as int, rank as int);
            assert forall|j: int| 0 <= j < i implies dims[j] > 0 by {
                assert(raw.shape[j] > 0);
            }
            crate::shape::product_positive(dims, 0, i as int);
            let head = crate::shape::product(dims, 0, i as int);
            let tail = crate::shape::product(dims, i as int, rank as int);
            let rest = crate::shape::product(dims, i + 1, rank as int);
            let dim = dims[i as int];
            assert(tail <= head * tail) by (nonlinear_arith)
                requires
                    head > 0,
            ;
            assert((4 * rest) * dim == 4 * (dim * rest)) by (nonlinear_arith);
        }
        expected_stride = expected_stride * raw.shape[i] as u64;
    }
    Ok(())
}

/// Number of tensors of a request.
pub fn total_tensor_count(req: &K3OrtRunNode) -> (r: Result<usize, K3OrtStatus>)
    ensures
        r == (if req.counts_ok() {
            Ok::<usize, K3OrtStatus>(req.total() as usize)
        } else {
            Err(K3OrtStatus::InvalidCount)
        }),
{
    match req.input_count.checked_add(req.output_count) {
        Some(total) => if req.input_count == 0 || req.output_count == 0 || total as usize
            > MAX_SUBMIT_TENSORS {
            Err(K3OrtStatus::InvalidCount)
        } else {
            Ok(total as usize)
        },
        None => Err(K3OrtStatus::InvalidCount),
    }
}

/// Checks a request: operation and target, then attributes, then counts, then tensors.
pub fn validate_request(req: &K3OrtRunNode) -> (r: Result<usize, K3OrtStatus>)
    ensures
        match r {
            Ok(total) => req.fault() is None && total == req.total(),
            Err(status) => req.fault() == Some(status),
        },
{
    if !KernelOp(req.op).is_known() || !AiTargetHint(req.target_hint).is_known() {
        return Err(K3OrtStatus::Unsupported);
    }
    if req.attr_size as usize > ATTR_INLINE_SIZE {
        return Err(K3OrtStatus::InvalidAttribute);
    }
    let total: usize = match total_tensor_count(req) {
        Ok(total) => total,
        Err(status) => {
            return Err(status);
        },
    };
    let mut i: usize = 0;
    while i < total
        invariant
            i <= total <= 8,
            total == req.total(),
            KernelOp(req.op).known(),
            AiTargetHint(req.target_hint).known(),
            req.attr_size <= 128,
            req.counts_ok(),
            forall|j: int| 0 <= j < i ==> tensor_ok(#[trigger] req.tensors[j]),
        decreases total - i,
    {
        match validate_tensor(&req.tensors[i]) {
            Ok(()) => {},
            Err(status) => {
                assert(!tensor_ok(req.tensors[i as int]));
                return Err(status);
            },
        }
        i = i + 1;
    }
    Ok(total)
}

/// The buffer of a tensor lies within the address space.
pub open spec fn range_ok(raw: K3OrtTensor) -> bool {
    raw.data + raw.size_bytes <= usize::MAX
}

/// The description is that of a tensor of a request, in place.
pub open spec fn describes_raw(desc: AiTensorDesc, raw: K3OrtTensor) -> bool {
    &&& desc.user_va.0 == raw.data
    &&& crate::runtime::tensor::describes_dense(
        desc,
        raw.size_bytes as nat,
        AiDtype(raw.dtype),
        AiTensorFormat(raw.format),
        AiTensorLayout(raw.layout),
        raw.shape@.take(raw.ndim as int),
        raw.flags,
    )
}

/// Describes a checked tensor where it lies.
fn borrow_tensor(raw: &K3OrtTensor) -> (r: Result<AiTensorDesc, K3OrtStatus>)
    requires
        tensor_ok(*raw),
    ensures
        match r {
            Ok(desc) => range_ok(*raw) && describes_raw(desc, *raw),
            Err(status) => !range_ok(*raw) && status == K3OrtStatus::InvalidTensor,
        },
{
    if raw.size_bytes > usize::MAX as u64 {
        return Err(K3OrtStatus::InvalidTensor);
    }
    let rank: usize = raw.ndim as usize;
    let shape: &[u32] = slice_subrange(raw.shape.as_slice(), 0, rank);
    proof {
        assert(shape@ =~= raw.shape@.take(rank as int));
        tensor_sizes_fit(*raw);
    }
    match TensorManager::new().borrow_tensor_with_layout(
        raw.data,
        raw.size_bytes as usize,
        AiDtype(raw.dtype),
        AiTensorFormat(raw.format),
        AiTensorLayout(raw.layout),
        shape,
        raw.flags,
    ) {
        Ok(desc) => Ok(desc),
        Err(_) => Err(K3OrtStatus::InvalidTensor),
    }
}

/// Sizes and strides of a checked tensor can be computed, and fill its buffer.
proof fn tensor_sizes_fit(raw: K3OrtTensor)
    requires
        tensor_ok(raw),
    ensures
        crate::runtime::tensor::shape_fits(raw.shape@.take(raw.ndim as int), 4),
        crate::runtime::tensor::dense_bytes(
            AiDtype(raw.dtype),
            raw.shape@.take(raw.ndim as int),
        ) == raw.size_bytes,
        raw.size_bytes > 0,
{
    let rank = raw.ndim as int;
    let shape = raw.shape@.take(rank);
    let dims = extents_of(raw);
    assert(crate::runtime::tensor::extents(shape) =~= dims);
    assert forall|i: int| 0 <= i < rank implies dims[i] > 0 by {
        assert(raw.shape[i] > 0);
    }
    let whole = crate::shape::product(dims, 0, rank);
    crate::shape::product_positive(dims, 0, rank);
    assert forall|n: int| 0 <= n <= dims.len() implies 1nat * (#[trigger] crate::shape::product(
        dims,
        0,
        n,
    )) <= u64::MAX by {
        crate::shape::product_grows(dims, 0, n, rank);
    }
    assert forall|n: int| 0 <= n <= dims.len() implies 4nat * (#[trigger] crate::shape::product(
        dims,
        n,
        dims.len() as int,
    )) <= u64::MAX by {
        crate::shape::product_split(dims, 0, n, rank);
        crate::shape::product_positive(dims, 0, n);
        let head = crate::shape::product(dims, 0, n);
        let tail = crate::shape::product(dims, n, rank);
        assert(tail <= head * tail) by (nonlinear_arith)
            requires
                head > 0,
        ;
    }
}

/// The kernel description that a request asks for.
pub open spec fn describes_request(desc: AiKernelDesc, req: K3OrtRunNode) -> bool {
    &&& desc.op.0 == req.op
    &&& desc.target_hint.0 == req.target_hint
    &&& desc.input_count.0 == req.input_count
    &&& desc.output_count.0 == req.output_count
    &&& desc.reserved0 == 0
    &&& desc.attr_size.0 == req.attr_size
    &&& forall|i: int|
        0 <= i < 128 ==> #[trigger] desc.attr_inline[i] == (if i < req.attr_size {
            req.attr_inline[i]
        } else {
            0
        })
    &&& forall|i: int|
        0 <= i < req.total() ==> describes_raw(#[trigger] desc.tensors[i], req.tensors[i])
    &&& forall|i: int| req.total() <= i < 8 ==> (#[trigger] desc.tensors[i]).is_zero()
}

/// Checks a request and turns it into the description of the kernel to run.
pub fn run_node(req: &K3OrtRunNode) -> (r: Result<AiKernelDesc, K3OrtStatus>)
    ensures
        match r {
            Ok(desc) => {
                &&& req.fault() is None
                &&& forall|i: int| 0 <= i < req.total() ==> range_ok(#[trigger] req.tensors[i])
                &&& describes_request(desc, *req)
            },
            Err(status) => match req.fault() {
                Some(fault) => status == fault,
                None => {
                    &&& exists|i: int|
                        0 <= i < req.total() && !range_ok(#[trigger] req.tensors[i])
                    &&& status == K3OrtStatus::InvalidTensor
                },
            },
        },
{
    let total: usize = match validate_request(req) {
        Ok(total) => total,
        Err(status) => {
            return Err(status);
        },
    };
    let mut desc = AiKernelDesc::default();
    desc.op = KernelOp(req.op);
    desc.target_hint = AiTargetHint(req.target_hint);
    desc.input_count = TensorCount(req.input_count);
    desc.output_count = TensorCount(req.output_count);
    desc.attr_size = AttrByteSize(req.attr_size);
    let ghost blank = desc;
    let mut i: usize = 0;
    while i < total
        invariant
            i <= total <= 8,
            total == req.total(),
            req.fault() is None,
            desc.op == blank.op,
            desc.target_hint == blank.target_hint,
            desc.input_count == blank.input_count,
            desc.output_count == blank.output_count,
            desc.reserved0 == blank.reserved0,
            desc.attr_size == blank.attr_size,
            desc.attr_inline == blank.attr_inline,
            forall|j: int| 0 <= j < i ==> range_ok(#[trigger] req.tensors[j]),
            forall|j: int|
                0 <= j < i ==> describes_raw(#[trigger] desc.tensors[j], req.tensors[j]),
            forall|j: int| i <= j < 8 ==> (#[trigger] desc.tensors[j]).is_zero(),
        decreases total - i,
    {
        assert(tensor_ok(req.tensors[i as int]));
        match borrow_tensor(&req.tensors[i]) {
            Ok(tensor) => {
                desc.tensors[i] = tensor;
            },
            Err(status) => {
                assert(!range_ok(req.tensors[i as int]));
                return Err(status);
            },
        }
        i = i + 1;
    }
    let ghost full = desc.tensors;
    let size: usize = req.attr_size as usize;
    let mut i: usize = 0;
    while i < size
        invariant
            i <= size <= 128,
            size == req.attr_size,
            desc.op == blank.op,
            desc.target_hint == blank.target_hint,
            desc.input_count == blank.input_count,
            desc.output_count == blank.output_count,
            desc.reserved0 == blank.reserved0,
            desc.attr_size == blank.attr_size,
            desc.tensors == full,
            forall|j: int|
                0 <= j < 128 ==> #[trigger] desc.attr_inline[j] == (if j < i {
                    req.attr_inline[j]
                } else {
                    0
                }),
        decreases size - i,
    {
        desc.attr_inline[i] = req.attr_inline[i];
        i = i + 1;
    }
    Ok(desc)
}

/// Answers a request that may be missing: the kernel to run, or the code of the status.
pub fn k3_ort_run_node(req: Option<&K3OrtRunNode>) -> (r: Result<AiKernelDesc, i32>)
    ensures
        match req {
            None => r is Err && r->Err_0 == -1,
            Some(req) => match r {
                Ok(desc) => {
                    &&& req.fault() is None
                    &&& forall|i: int| 0 <= i < req.total() ==> range_ok(#[trigger] req.tensors[i])
                    &&& describes_request(desc, *req)
                },
                Err(code) => match req.fault() {
                    Some(fault) => code == fault.code_of(),
                    None => {
                        &&& exists|i: int|
                            0 <= i < req.total() && !range_ok(#[trigger] req.tensors[i])
                        &&& code == K3OrtStatus::InvalidTensor.code_of()
                    },
                },
            },
        },
{
    match req {
        None => Err(K3OrtStatus::NullRequest.code()),
        Some(req) => match run_node(req) {
            Ok(desc) => Ok(desc),
            Err(status) => Err(status.code()),
        },
    }
}

/// Turns any failed step on the device into the one status that the engine gets.
pub fn device_step<T, E>(result: Result<T, E>) -> (r: Result<T, K3OrtStatus>)
    ensures
        r == (match result {
            Ok(value) => Ok::<T, K3OrtStatus>(value),
            Err(_) => Err(K3OrtStatus::ExecutionFailed),
        }),
{
    match result {
        Ok(value) => Ok(value),
        Err(_) => Err(K3OrtStatus::ExecutionFailed),
    }
}

/// Makes a graph of one kernel, frozen and with the entry that submits it.
pub fn execute_on_device(desc: &AiKernelDesc, token: u32) -> (r: Result<
    (AiGraphBlob, AiGraphSubmitEntry),
    K3OrtStatus,
>)
    ensures
        r is Ok,
        r->Ok_0.0@ == crate::uabi::graph::blob_bytes(
            seq![single_node(*desc)],
            Seq::<crate::uabi::dag::AiGraphEdge>::empty(),
        ),
        r->Ok_0.1 == crate::uabi::graph::submission(
            UserToken(token),
            r->Ok_0.1.graph_user_va,
            r->Ok_0.0@.len() as int,
        ),
{
    let mut graph = GraphManager::new();
    match device_step(graph.push_kernel_no_depend(*desc)) {
        Ok(_) => {},
        Err(status) => {
            return Err(status);
        },
    }
    assert(graph.nodes() =~= seq![single_node(*desc)]);
    let blob: AiGraphBlob = match device_step(graph.freeze()) {
        Ok(blob) => blob,
        Err(status) => {
            return Err(status);
        },
    };
    let entry: AiGraphSubmitEntry = blob.submit_entry(UserToken(token));
    Ok((blob, entry))
}

/// The only node of a graph of one kernel.
pub open spec fn single_node(desc: AiKernelDesc) -> crate::uabi::node::AiGraphNode {
    crate::uabi::node::AiGraphNode {
        node_id: crate::uabi::dag::AiGraphNodeId(0),
        desc,
        state: crate::uabi::node::AiGraphState { complete: 0, error_flag: 0 },
    }
}

/// What a process counts about requests.
#[derive(Clone, Copy, PartialEq, Eq, Structural, Debug)]
pub struct OrtCounters {
    /// Token of the next request.
    pub next_token: u32,
    /// Nodes that have run.
    pub executed: u64,
}

impl OrtCounters {
    /// The counters of a fresh process.
    pub fn new() -> (r: Self)
        ensures
            r == (OrtCounters { next_token: FIRST_TOKEN, executed: 0 }),
    {
        OrtCounters { next_token: FIRST_TOKEN, executed: 0 }
    }

    /// Takes the next token; tokens wrap around.
    pub fn take_token(&mut self) -> (r: u32)
        ensures
            r == old(self).next_token,
            final(self).next_token == old(self).next_token.wrapping_add(1),
            final(self).executed == old(self).executed,
    {
        let token: u32 = self.next_token;
        self.next_token = token.wrapping_add(1);
        token
    }

    /// Notes that a node has run.
    pub fn node_executed(&mut self)
        ensures
            final(self).executed == old(self).executed.wrapping_add(1),
            final(self).next_token == old(self).next_token,
    {
        self.executed = self.executed.wrapping_add(1);
    }

    /// Number of nodes that have run.
    pub fn k3_ort_executed_node_count(&self) -> (r: u64)
        ensures
            r == self.executed,
    {
        self.executed
    }
}

/// Version of the request format.
pub fn k3_ort_abi_version() -> (r: u32)
    ensures
        r == K3_ORT_ABI_VERSION,
{
    K3_ORT_ABI_VERSION
}

/// What a status code means, in words.
pub open spec fn status_text(status: i32) -> Seq<char> {
    if status == 0 {
        "success"@
    } else if status == -1 {
        "null request"@
    } else if status == -2 {
        "invalid tensor count"@
    } else if status == -3 {
        "unsupported operator or target"@
    } else if status == -4 {
        "invalid operator attributes"@
    } else if status == -5 {
        "invalid or unsupported tensor"@
    } else if status == -6 {
        "tensor staging allocation failed"@
    } else if status == -7 {
        "K3 node execution failed"@
    } else if status == -8 {
        "tensor staging copy failed"@
    } else {
        "unknown K3 ORT status"@
    }
}

/// What a status code means, in words.
pub fn k3_ort_status_message(status: i32) -> (r: &'static str)
    ensures
        r@ == status_text(status),
{
    if status == 0 {
        "success"
    } else if status == -1 {
        "null request"
    } else if status == -2 {
        "invalid tensor count"
    } else if status == -3 {
        "unsupported operator or target"
    } else if status == -4 {
        "invalid operator attributes"
    } else if status == -5 {
        "invalid or unsupported tensor"
    } else if status == -6 {
        "tensor staging allocation failed"
    } else if status == -7 {
        "K3 node execution failed"
    } else if status == -8 {
        "tensor staging copy failed"
    } else {
        "unknown K3 ORT status"
    }
}


/// The strides of a tensor that is accepted are those of its extents: neighbours along the
/// last axis are four bytes apart, and along any other as far as all of the next axis. Its
/// size is all of the first axis.
pub proof fn accepted_tensors_are_dense(raw: K3OrtTensor, axis: int)
    requires
        tensor_ok(raw),
        0 <= axis < raw.ndim,
    ensures
        axis == raw.ndim - 1 ==> raw.stride_bytes[axis] == 4,
        axis < raw.ndim - 1 ==> raw.stride_bytes[axis] == raw.stride_bytes[axis + 1]
            * raw.shape[axis + 1],
        axis == 0 ==> raw.size_bytes == raw.stride_bytes[0] * raw.shape[0],
{
    let dims = extents_of(raw);
    let rank = raw.ndim as int;
    if axis < rank - 1 {
        crate::shape::product_front(dims, axis + 1, rank);
        let (extent, rest) = (dims[axis + 1], crate::shape::product(dims, axis + 2, rank));
        assert(raw.stride_bytes[axis + 1] == 4 * rest);
        assert(4 * (extent * rest) == (4 * rest) * extent) by (nonlinear_arith);
    } else {
        assert(crate::shape::product(dims, rank, rank) == 1);
    }
    if axis == 0 {
        crate::shape::product_front(dims, 0, rank);
        let (extent, rest) = (dims[0], crate::shape::product(dims, 1, rank));
        assert(raw.stride_bytes[0] == 4 * rest);
        assert(4 * (extent * rest) == (4 * rest) * extent) by (nonlinear_arith);
    }
}

/// Where the fields of a request stand in its image: operation and target first, then the
/// numbers of tensors, eight tensors of 136 bytes each, the size of the attribute, and the
/// attribute.
pub proof fn request_fields_have_their_places(
    bytes: Seq<u8>,
    req: K3OrtRunNode,
    tensor: int,
    b: int,
)
    requires
        req.read_from(crate::bytes::words_at(bytes, 0, 310)),
        0 <= tensor < 8,
        0 <= b < 128,
    ensures
        req.op == bytes[0],
        req.target_hint == bytes[1],
        req.input_count == crate::bytes::word_at(bytes, 4),
        req.output_count == crate::bytes::word_at(bytes, 8),
        ({
            let at = 16 + 136 * tensor;
            let raw = req.tensors[tensor];
            &&& raw.data == crate::bytes::double_word(
                crate::bytes::word_at(bytes, at),
                crate::bytes::word_at(bytes, at + 4),
            )
            &&& raw.size_bytes == crate::bytes::double_word(
                crate::bytes::word_at(bytes, at + 8),
                crate::bytes::word_at(bytes, at + 12),
            )
            &&& raw.dtype == crate::bytes::word_at(bytes, at + 16)
            &&& raw.format == crate::bytes::word_at(bytes, at + 20)
            &&& raw.layout == crate::bytes::word_at(bytes, at + 24)
            &&& raw.ndim == crate::bytes::word_at(bytes, at + 28)
            &&& raw.shape[0] == crate::bytes::word_at(bytes, at + 36)
            &&& raw.shape[7] == crate::bytes::word_at(bytes, at + 64)
        }),
        req.attr_size == crate::bytes::word_at(bytes, 1104),
        req.attr_inline[b] == bytes[1108 + b],
{
    let words = crate::bytes::words_at(bytes, 0, 310);
    crate::bytes::bytes_of_word(bytes[0], bytes[1], bytes[2], bytes[3]);
    let part = words.subrange(4 + 34 * tensor, 38 + 34 * tensor);
    assert(req.tensors[tensor] == K3OrtTensor::of_words(part));
    let k = b / 4;
    crate::bytes::bytes_of_word(
        bytes[1108 + 4 * k],
        bytes[1108 + 4 * k + 1],
        bytes[1108 + 4 * k + 2],
        bytes[1108 + 4 * k + 3],
    );
    assert(req.attr_inline[b] == crate::bytes::byte_of(words[277 + b / 4], b % 4));
    assert(words[277 + k] == crate::bytes::word_at(bytes, 1108 + 4 * k));
    assert(b == 4 * k + b % 4);
}

} // verus!
