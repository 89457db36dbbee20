//! The weights of a model file: their sizes, their bytes, and the tensors made of them.

use crate::runtime::tensor::{Tensor, TensorManager};
use crate::story::gguf::{Gguf, TensorInfo};
use crate::story::model::{HIDDEN, VOCAB};
use crate::text::same_text;
use crate::uabi::desc::{AiDtype, MAX_DIM};
use crate::uabi::error::AiRuntimeErr;
use vstd::prelude::*;
use vstd::slice::slice_subrange;

verus! {

/// Single-precision elements.
pub const GGML_TYPE_F32: u32 = 0;

/// Blocks of 32 elements in 34 bytes.
pub const GGML_TYPE_Q8_0: u32 = 8;

/// Blocks of 256 elements in 110 bytes.
pub const GGML_TYPE_Q3_K: u32 = 11;

/// Blocks of 32 elements in 18 bytes.
pub const GGML_TYPE_IQ4_NL: u32 = 20;

/// Why a weight cannot be loaded.
#[derive(Clone, Copy, PartialEq, Eq, Debug)]
pub enum LoadError {
    /// An extent does not fit.
    DimOverflow,
    /// There are no extents.
    EmptyShape,
    /// The size does not fit.
    SizeOverflow,
    /// The size of a row does not fit.
    RowOverflow,
    /// A row is no whole number of blocks.
    NotMultiple,
    /// The element format is not known.
    UnsupportedType(u32),
    /// The place of the bytes leads past every address.
    OffsetOverflow,
    /// The end of the bytes leads past every address.
    EndOverflow,
    /// The bytes reach past the end of the file.
    PastEnd,
    /// No tensor could be made.
    Alloc(AiRuntimeErr),
}

/// The extents as numbers.
pub open spec fn numbers(shape: Seq<u64>) -> Seq<nat> {
    Seq::new(shape.len(), |i: int| shape[i] as nat)
}

/// Elements and bytes of a block.
pub open spec fn block_of(ggml_type: u32) -> Option<(int, int)> {
    if ggml_type == GGML_TYPE_Q8_0 {
        Some((32, 34))
    } else if ggml_type == GGML_TYPE_Q3_K {
        Some((256, 110))
    } else if ggml_type == GGML_TYPE_IQ4_NL {
        Some((32, 18))
    } else {
        None
    }
}

/// The element type of a format.
pub open spec fn dtype_of(ggml_type: u32) -> Option<AiDtype> {
    if ggml_type == GGML_TYPE_Q8_0 {
        Some(AiDtype(AiDtype::Q8_0))
    } else if ggml_type == GGML_TYPE_Q3_K {
        Some(AiDtype(AiDtype::Q3_K))
    } else if ggml_type == GGML_TYPE_IQ4_NL {
        Some(AiDtype(AiDtype::IQ4_NL))
    } else {
        None
    }
}

/// Bytes of a row of blocks.
pub open spec fn blocks_size(first: int, block: int, bytes: int) -> Result<int, LoadError> {
    if first == 0 || first % block != 0 {
        Err(LoadError::NotMultiple)
    } else if first / block * bytes > usize::MAX {
        Err(LoadError::RowOverflow)
    } else {
        Ok(first / block * bytes)
    }
}

/// Bytes of a row.
pub open spec fn row_size(ggml_type: u32, first: int) -> Result<int, LoadError> {
    if ggml_type == GGML_TYPE_F32 {
        if first * 4 > usize::MAX {
            Err(LoadError::RowOverflow)
        } else {
            Ok(first * 4)
        }
    } else {
        match block_of(ggml_type) {
            Some((block, bytes)) => blocks_size(first, block, bytes),
            None => Err(LoadError::UnsupportedType(ggml_type)),
        }
    }
}

/// Number of rows.
pub open spec fn row_count(shape: Seq<u64>) -> nat {
    crate::shape::product(numbers(shape), 1, shape.len() as int)
}

/// Bytes of a tensor.
pub open spec fn tensor_size(shape: Seq<u64>, ggml_type: u32) -> Result<int, LoadError> {
    if shape.len() == 0 {
        Err(LoadError::EmptyShape)
    } else if !crate::uabi::desc::prefixes_fit(numbers(shape), 1, 1, usize::MAX as int) {
        Err(LoadError::SizeOverflow)
    } else {
        match row_size(ggml_type, shape[0] as int) {
            Ok(row) => if row * row_count(shape) > usize::MAX {
                Err(LoadError::SizeOverflow)
            } else {
                Ok(row * row_count(shape))
            },
            Err(err) => Err(err),
        }
    }
}

/// Where the bytes of a tensor lie in a file.
pub open spec fn bytes_range(file_len: int, data_start: int, offset: int, size: int) -> Result<
    (int, int),
    LoadError,
> {
    if data_start + offset > usize::MAX {
        Err(LoadError::OffsetOverflow)
    } else if data_start + offset + size > usize::MAX {
        Err(LoadError::EndOverflow)
    } else if data_start + offset + size > file_len {
        Err(LoadError::PastEnd)
    } else {
        Ok((data_start + offset, data_start + offset + size))
    }
}

/// The element type of a format.
pub fn ggml_type_to_ai_dtype(ggml_type: u32) -> (r: Option<AiDtype>)
    ensures
        r == dtype_of(ggml_type),
{
    if ggml_type == GGML_TYPE_Q8_0 {
        Some(AiDtype(AiDtype::Q8_0))
    } else if ggml_type == GGML_TYPE_Q3_K {
        Some(AiDtype(AiDtype::Q3_K))
    } else if ggml_type == GGML_TYPE_IQ4_NL {
        Some(AiDtype(AiDtype::IQ4_NL))
    } else {
        None
    }
}

/// Bytes of a row of blocks.
pub fn quant_row_bytes(first: u64, block: u64, bytes: u64) -> (r: Result<usize, LoadError>)
    requires
        block > 0,
    ensures
        match blocks_size(first as int, block as int, bytes as int) {
            Ok(size) => r matches Ok(v) && v == size,
            Err(err) => r matches Err(e) && e == err,
        },
{
    if first == 0 || first % block != 0 {
        return Err(LoadError::NotMultiple);
    }
    match (first / block).checked_mul(bytes) {
        Some(size) => if size > usize::MAX as u64 {
            Err(LoadError::RowOverflow)
        } else {
            Ok(size as usize)
        },
        None => Err(LoadError::RowOverflow),
    }
}

/// Bytes of a tensor.
pub fn ggml_tensor_nbytes(info: &TensorInfo) -> (r: Result<usize, LoadError>)
    ensures
        match tensor_size(info.shape@, info.ggml_type) {
            Ok(size) => r matches Ok(v) && v == size,
            Err(err) => r matches Err(e) && e == err,
        },
{
    let count: usize = info.shape.len();
    if count == 0 {
        return Err(LoadError::EmptyShape);
    }
    let ghost dims = numbers(info.shape@);
    let mut rows: usize = 1;
    let mut axis: usize = 1;
    while axis < count
        invariant
            1 <= axis <= count == info.shape@.len(),
            dims == numbers(info.shape@),
            rows == crate::shape::product(dims, 1, axis as int),
            forall|n: int|
                1 <= n <= axis ==> 1 * (#[trigger] crate::shape::product(dims, 1, n))
                    <= usize::MAX,
        decreases count - axis,
    {
        let dim: u64 = info.shape[axis];
        let ghost next = crate::shape::product(dims, 1, axis + 1);
        assert(next == rows * dim);
        let fits: Option<usize> = if rows == 0 {
            assert(0 * dim == 0);
            Some(0)
        } else if dim > usize::MAX as u64 {
            assert(rows * dim > usize::MAX) by (nonlinear_arith)
                requires
                    rows >= 1,
                    dim > usize::MAX,
            ;
            None
        } else {
            rows.checked_mul(dim as usize)
        };
        match fits {
            Some(product) => {
                rows = product;
            },
            None => {
                assert(!crate::uabi::desc::prefixes_fit(dims, 1, 1, usize::MAX as int)) by {
                    assert(1 * crate::shape::product(dims, 1, axis + 1) > usize::MAX);
                }
                return Err(LoadError::SizeOverflow);
            },
        }
        axis = axis + 1;
    }
    let first: u64 = info.shape[0];
    let row: usize = if info.ggml_type == GGML_TYPE_F32 {
        match first.checked_mul(4) {
            Some(size) => if size > usize::MAX as u64 {
                return Err(LoadError::RowOverflow);
            } else {
                size as usize
            },
            None => {
                return Err(LoadError::RowOverflow);
            },
        }
    } else if info.ggml_type == GGML_TYPE_Q8_0 {
        quant_row_bytes(first, 32, 34)?
    } else if info.ggml_type == GGML_TYPE_Q3_K {
        quant_row_bytes(first, 256, 110)?
    } else if info.ggml_type == GGML_TYPE_IQ4_NL {
        quant_row_bytes(first, 32, 18)?
    } else {
        return Err(LoadError::UnsupportedType(info.ggml_type));
    };
    match row.checked_mul(rows) {
        Some(size) => Ok(size),
        None => Err(LoadError::SizeOverflow),
    }
}

/// The bytes of a tensor, where they all lie within the file.
pub fn checked_tensor_bytes<'a>(
    bytes: &'a [u8],
    data_start: usize,
    offset: u64,
    nbytes: usize,
) -> (r: Result<&'a [u8], LoadError>)
    ensures
        match bytes_range(bytes@.len() as int, data_start as int, offset as int, nbytes as int) {
            Ok((start, end)) => r matches Ok(raw) && raw@ == bytes@.subrange(start, end),
            Err(err) => r matches Err(e) && e == err,
        },
{
    if offset > usize::MAX as u64 {
        return Err(LoadError::OffsetOverflow);
    }
    let start: usize = match data_start.checked_add(offset as usize) {
        Some(start) => start,
        None => {
            return Err(LoadError::OffsetOverflow);
        },
    };
    let end: usize = match start.checked_add(nbytes) {
        Some(end) => end,
        None => {
            return Err(LoadError::EndOverflow);
        },
    };
    if end > bytes.len() {
        return Err(LoadError::PastEnd);
    }
    Ok(slice_subrange(bytes, start, end))
}

/// Whether the token embedding is that of the story model: blocks of 32, and a row of
/// hidden states for each token.
pub fn validate_story_layout(info: &TensorInfo) -> (r: bool)
    ensures
        r == (info.ggml_type == GGML_TYPE_Q8_0 && info.shape@ == seq![HIDDEN as u64, VOCAB as u64]),
{
    let r: bool = info.ggml_type == GGML_TYPE_Q8_0 && info.shape.len() == 2 && info.shape[0]
        == HIDDEN as u64 && info.shape[1] == VOCAB as u64;
    assert(r ==> info.shape@ =~= seq![HIDDEN as u64, VOCAB as u64]);
    r
}

/// The first tensor with the given name.
pub fn find_tensor(tensors: &Vec<TensorInfo>, name: &str) -> (r: Option<usize>)
    ensures
        match r {
            Some(index) => {
                &&& index < tensors@.len()
                &&& tensors@[index as int].name@ == name@
                &&& forall|i: int| 0 <= i < index ==> (#[trigger] tensors@[i]).name@ != name@
            },
            None => forall|i: int|
                0 <= i < tensors@.len() ==> (#[trigger] tensors@[i]).name@ != name@,
        },
{
    let mut i: usize = 0;
    while i < tensors.len()
        invariant
            i <= tensors@.len(),
            forall|j: int| 0 <= j < i ==> (#[trigger] tensors@[j]).name@ != name@,
        decreases tensors@.len() - i,
    {
        if same_text(tensors[i].name.as_str(), name) {
            return Some(i);
        }
        i = i + 1;
    }
    None
}

/// What is wrong with a weight, where anything is.
pub open spec fn weight_fault(
    file_len: int,
    data_start: int,
    shape: Seq<u64>,
    ggml_type: u32,
    offset: int,
) -> Option<LoadError> {
    if exists|i: int| 0 <= i < shape.len() && #[trigger] shape[i] > u32::MAX {
        Some(LoadError::DimOverflow)
    } else {
        match tensor_size(shape, ggml_type) {
            Err(err) => Some(err),
            Ok(size) => match bytes_range(file_len, data_start, offset, size) {
                Err(err) => Some(err),
                Ok(_) => if shape.len() > MAX_DIM {
                    Some(LoadError::Alloc(AiRuntimeErr::InvalidShape))
                } else if size == 0 {
                    Some(LoadError::Alloc(AiRuntimeErr::AllocFailed))
                } else {
                    None
                },
            },
        }
    }
}

/// The tensor of a weight: its element type, its extents and its bytes.
pub open spec fn weight_loaded(
    tensor: Tensor,
    bytes: Seq<u8>,
    data_start: int,
    shape: Seq<u64>,
    ggml_type: u32,
    offset: int,
) -> bool {
    let start = data_start + offset;
    let desc = tensor.description();
    &&& tensor.wf()
    &&& tensor.bytes() == bytes.subrange(start, start + tensor_size(shape, ggml_type)->Ok_0)
    &&& desc.dtype == (match dtype_of(ggml_type) {
        Some(dtype) => dtype,
        None => AiDtype(AiDtype::F32),
    })
    &&& desc.ndim.0 == shape.len()
    &&& forall|i: int| 0 <= i < shape.len() ==> (#[trigger] desc.shape[i]).0 == shape[i]
}

fn narrow_dims(shape: &Vec<u64>) -> (r: Option<Vec<u32>>)
    ensures
        match r {
            Some(dims) => {
                &&& dims@.len() == shape@.len()
                &&& forall|i: int| 0 <= i < shape@.len() ==> #[trigger] dims@[i] == shape@[i]
            },
            None => exists|i: int| 0 <= i < shape@.len() && #[trigger] shape@[i] > u32::MAX,
        },
{
    let mut dims: Vec<u32> = Vec::new();
    let mut i: usize = 0;
    while i < shape.len()
        invariant
            i <= shape@.len(),
            dims@.len() == i,
            forall|j: int| 0 <= j < i ==> #[trigger] dims@[j] == shape@[j],
        decreases shape@.len() - i,
    {
        let dim: u64 = shape[i];
        if dim > u32::MAX as u64 {
            assert(shape@[i as int] > u32::MAX);
            return None;
        }
        dims.push(dim as u32);
        i = i + 1;
    }
    assert forall|j: int| 0 <= j < shape@.len() implies !(#[trigger] shape@[j] > u32::MAX) by {
        assert(dims@[j] == shape@[j]);
    }
    Some(dims)
}

/// Sizes and strides can be computed for a tensor that has elements and whose size fits.
proof fn sizes_fit(dims: Seq<nat>, row: nat, limit: int)
    requires
        dims.len() > 0,
        row > 0,
        0 < row * crate::shape::product(dims, 1, dims.len() as int) <= limit,
    ensures
        crate::uabi::desc::prefixes_fit(dims, 1, row, limit),
        forall|i: int| 1 <= i < dims.len() ==> #[trigger] dims[i] > 0,
{
    let rows = crate::shape::product(dims, 1, dims.len() as int);
    if rows == 0 {
        assert(row * rows == 0) by (nonlinear_arith)
            requires
                rows == 0,
        ;
    }
    assert forall|i: int| 1 <= i < dims.len() implies #[trigger] dims[i] > 0 by {
        if dims[i] == 0 {
            crate::shape::product_zero(dims, 1, i, dims.len() as int);
        }
    }
    assert forall|n: int| 1 <= n <= dims.len() implies row * (#[trigger] crate::shape::product(
        dims,
        1,
        n,
    )) <= limit by {
        crate::shape::product_grows(dims, 1, n, dims.len() as int);
        let part = crate::shape::product(dims, 1, n);
        assert(row * part <= row * rows) by (nonlinear_arith)
            requires
                part <= rows,
        ;
    }
}

proof fn dense_fits(dims: Seq<nat>, limit: int)
    requires
        dims.len() > 0,
        dims[0] > 0,
        0 < (dims[0] * 4) * crate::shape::product(dims, 1, dims.len() as int) <= limit,
    ensures
        crate::uabi::desc::prefixes_fit(dims, 0, 1, limit),
        crate::uabi::desc::suffixes_fit(dims, 4, limit),
        crate::uabi::desc::dense_size(dims, 4) == (dims[0] * 4) * crate::shape::product(
            dims,
            1,
            dims.len() as int,
        ),
{
    let len = dims.len() as int;
    let first = dims[0];
    let rows = crate::shape::product(dims, 1, len);
    sizes_fit(dims, (first * 4) as nat, limit);
    crate::shape::product_front(dims, 0, len);
    let total = crate::shape::product(dims, 0, len);
    assert(total * 4 == (first * 4) * rows) by (nonlinear_arith)
        requires
            total == first * rows,
    ;
    assert forall|n: int| 0 <= n <= len implies 1 * (#[trigger] crate::shape::product(dims, 0, n))
        <= limit by {
        crate::shape::product_grows(dims, 0, n, len);
    }
    assert forall|n: int| 0 <= n <= len implies 4 * (#[trigger] crate::shape::product(
        dims,
        n,
        len,
    )) <= limit by {
        crate::shape::product_split(dims, 0, n, len);
        crate::shape::product_positive(dims, 0, n);
        let head = crate::shape::product(dims, 0, n);
        let tail = crate::shape::product(dims, n, len);
        assert(tail <= head * tail) by (nonlinear_arith)
            requires
                head >= 1,
        ;
    }
}

/// Loads a weight: makes a tensor of its extents and element type and copies its bytes.
pub fn load_weight(bytes: &[u8], data_start: usize, info: &TensorInfo) -> (r: Result<
    Tensor,
    LoadError,
>)
    ensures
        match r {
            Ok(tensor) => {
                &&& weight_fault(
                    bytes@.len() as int,
                    data_start as int,
                    info.shape@,
                    info.ggml_type,
                    info.offset as int,
                ) is None
                &&& weight_loaded(
                    tensor,
                    bytes@,
                    data_start as int,
                    info.shape@,
                    info.ggml_type,
                    info.offset as int,
                )
            },
            Err(err) => weight_fault(
                bytes@.len() as int,
                data_start as int,
                info.shape@,
                info.ggml_type,
                info.offset as int,
            ) == Some(err),
        },
{
    let shape: Vec<u32> = match narrow_dims(&info.shape) {
        Some(shape) => shape,
        None => {
            return Err(LoadError::DimOverflow);
        },
    };
    assert forall|i: int| 0 <= i < info.shape@.len() implies !(#[trigger] info.shape@[i]
        > u32::MAX) by {
        assert(shape@[i] == info.shape@[i]);
    }
    let nbytes: usize = ggml_tensor_nbytes(info)?;
    let raw: &[u8] = checked_tensor_bytes(bytes, data_start, info.offset, nbytes)?;
    if shape.len() > MAX_DIM {
        return Err(LoadError::Alloc(AiRuntimeErr::InvalidShape));
    }
    if nbytes == 0 {
        return Err(LoadError::Alloc(AiRuntimeErr::AllocFailed));
    }
    let ghost dims = numbers(info.shape@);
    proof {
        assert(crate::runtime::tensor::extents(shape@) =~= dims);
        let row = row_size(info.ggml_type, info.shape@[0] as int)->Ok_0;
        let rows = row_count(info.shape@);
        if row <= 0 {
            assert(row * rows <= 0) by (nonlinear_arith)
                requires
                    row <= 0,
                    rows >= 0,
            ;
        }
        if info.ggml_type == GGML_TYPE_F32 {
            dense_fits(dims, usize::MAX as int);
        } else {
            sizes_fit(dims, row as nat, usize::MAX as int);
        }
    }
    let manager = TensorManager::new();
    let made: Result<Tensor, AiRuntimeErr> = if info.ggml_type == GGML_TYPE_F32 {
        manager.alloc_tensor(AiDtype(AiDtype::F32), &shape)
    } else {
        match ggml_type_to_ai_dtype(info.ggml_type) {
            Some(dtype) => manager.alloc_ggml_quant_tensor(dtype, &shape, 0),
            None => {
                return Err(LoadError::UnsupportedType(info.ggml_type));
            },
        }
    };
    match made {
        Ok(mut tensor) => {
            assert(tensor.bytes().len() == nbytes);
            copy_into(&mut tensor, raw);
            Ok(tensor)
        },
        Err(err) => {
            assert(false);
            Err(LoadError::Alloc(err))
        },
    }
}

fn copy_into(tensor: &mut Tensor, raw: &[u8])
    requires
        old(tensor).bytes().len() == raw@.len(),
    ensures
        final(tensor).bytes() == raw@,
        final(tensor).description() == old(tensor).description(),
{
    let buffer: &mut [u8] = tensor.as_mut_slice();
    let total: usize = raw.len();
    let mut i: usize = 0;
    while i < total
        invariant
            i <= total == raw@.len(),
            buffer@.len() == total,
            forall|j: int| 0 <= j < i ==> #[trigger] buffer@[j] == raw@[j],
        decreases total - i,
    {
        buffer[i] = raw[i];
        i = i + 1;
    }
    assert(buffer@ =~= raw@);
}

/// The weights of a model, by name.
pub struct ModelWeights {
    names: Vec<String>,
    tensors: Vec<Tensor>,
}

impl ModelWeights {
    /// The names.
    pub closed spec fn labels(&self) -> Seq<Seq<char>> {
        Seq::new(self.names@.len(), |i: int| self.names@[i]@)
    }

    /// The tensors.
    pub closed spec fn values(&self) -> Seq<Tensor> {
        self.tensors@
    }

    /// There is a tensor for every name.
    pub closed spec fn wf(&self) -> bool {
        self.names@.len() == self.tensors@.len()
    }

    /// The tensor with the given name; of several the last.
    pub fn tensor(&self, name: &str) -> (r: Option<&Tensor>)
        requires
            self.wf(),
        ensures
            match r {
                Some(tensor) => exists|i: int|
                    {
                        &&& 0 <= i < self.values().len()
                        &&& #[trigger] self.labels()[i] == name@
                        &&& *tensor == self.values()[i]
                        &&& forall|j: int|
                            i < j < self.labels().len() ==> #[trigger] self.labels()[j] != name@
                    },
                None => forall|i: int|
                    0 <= i < self.labels().len() ==> #[trigger] self.labels()[i] != name@,
            },
    {
        let mut i: usize = self.names.len();
        while i > 0
            invariant
                self.wf(),
                i <= self.names@.len(),
                forall|j: int|
                    i <= j < self.labels().len() ==> #[trigger] self.labels()[j] != name@,
            decreases i,
        {
            i = i - 1;
            if same_text(self.names[i].as_str(), name) {
                assert(self.labels()[i as int] == name@);
                return Some(&self.tensors[i]);
            }
        }
        None
    }
}

/// What is wrong with a line of the tensor table.
pub open spec fn entry_fault(
    file_len: int,
    data_start: int,
    entry: crate::story::gguf::TensorEntry,
) -> Option<LoadError> {
    weight_fault(file_len, data_start, entry.shape, entry.ggml_type, entry.offset as int)
}

/// Loads every weight of a model file, or says which cannot be loaded and why.
pub fn load_model_weights(bytes: &[u8], gguf: &Gguf) -> (r: Result<
    ModelWeights,
    (usize, LoadError),
>)
    ensures
        match r {
            Ok(weights) => {
                &&& weights.wf()
                &&& weights.labels().len() == gguf.tensors@.len()
                &&& weights.values().len() == gguf.tensors@.len()
                &&& forall|i: int|
                    0 <= i < gguf.tensors@.len() ==> {
                        let entry = (#[trigger] gguf.tensors@[i])@;
                        &&& entry_fault(bytes@.len() as int, gguf.data_start as int, entry) is None
                        &&& weights.labels()[i] == entry.name
                        &&& weight_loaded(
                            weights.values()[i],
                            bytes@,
                            gguf.data_start as int,
                            entry.shape,
                            entry.ggml_type,
                            entry.offset as int,
                        )
                    }
            },
            Err((at, err)) => {
                &&& at < gguf.tensors@.len()
                &&& entry_fault(
                    bytes@.len() as int,
                    gguf.data_start as int,
                    gguf.tensors@[at as int]@,
                ) == Some(err)
                &&& forall|i: int|
                    0 <= i < at ==> entry_fault(
                        bytes@.len() as int,
                        gguf.data_start as int,
                        (#[trigger] gguf.tensors@[i])@,
                    ) is None
            },
        },
{
    let mut weights = ModelWeights { names: Vec::new(), tensors: Vec::new() };
    let mut i: usize = 0;
    while i < gguf.tensors.len()
        invariant
            i <= gguf.tensors@.len(),
            weights.names@.len() == i,
            weights.tensors@.len() == i,
            forall|j: int|
                0 <= j < i ==> {
                    let entry = (#[trigger] gguf.tensors@[j])@;
                    &&& entry_fault(bytes@.len() as int, gguf.data_start as int, entry) is None
                    &&& weights.names@[j]@ == entry.name
                    &&& weight_loaded(
                        weights.tensors@[j],
                        bytes@,
                        gguf.data_start as int,
                        entry.shape,
                        entry.ggml_type,
                        entry.offset as int,
                    )
                },
        decreases gguf.tensors@.len() - i,
    {
        let info: &TensorInfo = &gguf.tensors[i];
        match load_weight(bytes, gguf.data_start, info) {
            Ok(tensor) => {
                weights.names.push(info.name.clone());
                weights.tensors.push(tensor);
            },
            Err(err) => {
                return Err((i, err));
            },
        }
        i = i + 1;
    }
    Ok(weights)
}


/// A tensor takes its share of bytes: four for each element in single precision, and in a
/// block format the bytes of a block for as many elements as a block has.
pub proof fn bytes_follow_elements(shape: Seq<u64>, ggml_type: u32)
    requires
        tensor_size(shape, ggml_type) is Ok,
    ensures
        ({
            let elements = crate::shape::product(numbers(shape), 0, shape.len() as int);
            let size = tensor_size(shape, ggml_type)->Ok_0;
            &&& ggml_type == 0 ==> size == 4 * elements
            &&& ggml_type == 8 ==> 32 * size == 34 * elements
            &&& ggml_type == 11 ==> 256 * size == 110 * elements
            &&& ggml_type == 20 ==> 32 * size == 18 * elements
            &&& ggml_type == 0 || ggml_type == 8 || ggml_type == 11 || ggml_type == 20
        }),
{
    let dims = numbers(shape);
    let first = dims[0] as int;
    let rest = row_count(shape) as int;
    crate::shape::product_front(dims, 0, shape.len() as int);
    assert(first == shape[0]);
    if ggml_type == 0 {
        assert((first * 4) * rest == 4 * (first * rest)) by (nonlinear_arith);
    } else {
        let (block, bytes) = block_of(ggml_type)->0;
        let whole = first / block;
        assert(whole * block == first) by (nonlinear_arith)
            requires
                whole == first / block,
                first % block == 0,
                block > 0,
        ;
        assert(block * ((whole * bytes) * rest) == bytes * ((whole * block) * rest))
            by (nonlinear_arith);
    }
}

/// The bytes of a tensor are those of the file from its place on, counted from where the
/// tensors start, and every one of them lies in the file.
pub proof fn tensor_bytes_stand_at_their_place(
    bytes: &[u8],
    data_start: usize,
    offset: u64,
    nbytes: usize,
    r: Result<&[u8], LoadError>,
)
    requires
        call_ensures(checked_tensor_bytes, (bytes, data_start, offset, nbytes), r),
        bytes@.len() <= usize::MAX,
    ensures
        r is Ok <==> data_start + offset + nbytes <= bytes@.len(),
        r matches Ok(raw) ==> raw@.len() == nbytes && forall|i: int|
            0 <= i < nbytes ==> #[trigger] raw@[i] == bytes@[data_start + offset + i],
{
}


/// A weight that was loaded holds the bytes of the file from its place on, and has the
/// extents and the element type that the file says.
pub proof fn loaded_weight_is_that_of_the_file(
    tensor: Tensor,
    bytes: Seq<u8>,
    data_start: int,
    shape: Seq<u64>,
    ggml_type: u32,
    offset: int,
    i: int,
)
    requires
        data_start >= 0,
        offset >= 0,
        weight_fault(bytes.len() as int, data_start, shape, ggml_type, offset) is None,
        weight_loaded(tensor, bytes, data_start, shape, ggml_type, offset),
        0 <= i < tensor.bytes().len(),
    ensures
        data_start + offset + tensor.bytes().len() <= bytes.len(),
        tensor.bytes()[i] == bytes[data_start + offset + i],
        tensor.description().ndim.0 == shape.len(),
        forall|a: int|
            0 <= a < shape.len() ==> (#[trigger] tensor.description().shape[a]).0 == shape[a],
        ggml_type == 8 ==> tensor.description().dtype.0 == AiDtype::Q8_0,
        ggml_type == 11 ==> tensor.description().dtype.0 == AiDtype::Q3_K,
        ggml_type == 20 ==> tensor.description().dtype.0 == AiDtype::IQ4_NL,
        ggml_type == 0 ==> tensor.description().dtype.0 == AiDtype::F32,
{
}

} // verus!
