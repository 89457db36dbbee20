//! Tensors in user memory.

use crate::memory::buffer_address;
use crate::uabi::desc::{
    ggml_quant_tensor_size_bytes, tensor_size_bytes, AiDtype, AiTensorDesc, AiTensorFormat,
    AiTensorLayout, MAX_DIM,
};
use crate::uabi::error::AiRuntimeErr;
use crate::uabi::types::{ByteSize, DimSize, TensorFlags, UserVa};
use vstd::prelude::*;
use vstd::slice::slice_subrange;

verus! {

/// A tensor with its buffer. The description points at the buffer for as long as the
/// tensor lives.
pub struct Tensor {
    desc: AiTensorDesc,
    storage: Vec<u8>,
}

/// The extents as the interface writes them.
pub open spec fn dims_from(shape: Seq<u32>) -> Seq<DimSize> {
    Seq::new(shape.len(), |i: int| DimSize(shape[i]))
}

/// The extents as numbers.
pub open spec fn extents(shape: Seq<u32>) -> Seq<nat> {
    crate::uabi::desc::dims_of(dims_from(shape))
}

/// Sizes and strides of a dense tensor of this shape can be computed.
pub open spec fn shape_fits(shape: Seq<u32>, element_size: u32) -> bool {
    &&& crate::uabi::desc::prefixes_fit(extents(shape), 0, 1, u64::MAX as int)
    &&& crate::uabi::desc::suffixes_fit(extents(shape), element_size as nat, u64::MAX as int)
}

/// What is wrong with a dense tensor before memory comes into play.
pub open spec fn dense_fault(dtype: AiDtype, shape: Seq<u32>) -> Option<AiRuntimeErr> {
    match dtype.element_size() {
        None => Some(AiRuntimeErr::InvalidInput),
        Some(element_size) => if shape.len() > MAX_DIM {
            Some(AiRuntimeErr::InvalidShape)
        } else if crate::uabi::desc::dense_size(extents(shape), element_size as nat)
            > usize::MAX {
            Some(AiRuntimeErr::InvalidShape)
        } else {
            None
        },
    }
}

/// Bytes of a dense tensor that has none of these faults.
pub open spec fn dense_bytes(dtype: AiDtype, shape: Seq<u32>) -> nat {
    crate::uabi::desc::dense_size(extents(shape), dtype.element_size()->0 as nat)
}

/// The description is that of a dense tensor.
pub open spec fn describes_dense(
    desc: AiTensorDesc,
    size_bytes: nat,
    dtype: AiDtype,
    format: AiTensorFormat,
    layout: AiTensorLayout,
    shape: Seq<u32>,
    flags: u8,
) -> bool {
    &&& desc.size_bytes.0 == size_bytes
    &&& desc.describes(
        desc.user_va,
        desc.size_bytes,
        dtype,
        format,
        layout,
        dims_from(shape),
        TensorFlags(flags),
    )
    &&& desc.quant.is_zero()
    &&& forall|i: int|
        0 <= i < 8 ==> (#[trigger] desc.stride_bytes[i]).0 == crate::uabi::desc::dense_stride(
            extents(shape),
            dtype.element_size()->0 as nat,
            i,
        )
}

/// Wraps extents.
fn wrap_dims(shape: &[u32]) -> (r: Vec<DimSize>)
    ensures
        r@ == dims_from(shape@),
{
    let mut out: Vec<DimSize> = Vec::new();
    let mut i: usize = 0;
    while i < shape.len()
        invariant
            i <= shape@.len(),
            out@ == dims_from(shape@.take(i as int)),
        decreases shape@.len() - i,
    {
        out.push(DimSize(shape[i]));
        i = i + 1;
        assert(out@ =~= dims_from(shape@.take(i as int)));
    }
    assert(shape@.take(i as int) =~= shape@);
    out
}

/// Checks a dense tensor and gives its extents and size.
fn plan_dense(dtype: AiDtype, shape: &[u32]) -> (r: Result<(Vec<DimSize>, usize), AiRuntimeErr>)
    requires
        dtype.element_size() is Some && shape@.len() <= MAX_DIM ==> shape_fits(
            shape@,
            dtype.element_size()->0,
        ),
    ensures
        match r {
            Ok((dims, size)) => {
                &&& dense_fault(dtype, shape@) is None
                &&& dims@ == dims_from(shape@)
                &&& size == dense_bytes(dtype, shape@)
            },
            Err(err) => dense_fault(dtype, shape@) == Some(err),
        },
{
    let element_size: u32 = match dtype.element_size_bytes() {
        Some(size) => size,
        None => {
            return Err(AiRuntimeErr::InvalidInput);
        },
    };
    if shape.len() > MAX_DIM {
        return Err(AiRuntimeErr::InvalidShape);
    }
    let dims: Vec<DimSize> = wrap_dims(shape);
    proof {
        let e = extents(shape@);
        let whole = crate::shape::product(e, 0, e.len() as int);
        assert(element_size as nat * whole <= u64::MAX);
        assert(element_size as nat * whole == whole * element_size as nat) by (nonlinear_arith);
    }
    match tensor_size_bytes(&dims, element_size).try_as_usize() {
        Ok(size) => Ok((dims, size)),
        Err(_) => Err(AiRuntimeErr::InvalidShape),
    }
}

impl Tensor {
    /// The bytes of the buffer.
    pub closed spec fn bytes(&self) -> Seq<u8> {
        self.storage@
    }

    /// The description.
    pub closed spec fn description(&self) -> AiTensorDesc {
        self.desc
    }

    /// The buffer is as long as the description says.
    pub open spec fn wf(&self) -> bool {
        &&& self.bytes().len() == self.description().size_bytes.0
        &&& self.description().ndim.0 <= 8
    }

    /// The description that a kernel takes.
    pub fn desc(&self) -> (r: AiTensorDesc)
        ensures
            r == self.description(),
    {
        self.desc
    }

    /// Address of the buffer.
    pub fn user_va(&self) -> (r: UserVa)
        ensures
            r == self.description().user_va,
    {
        self.desc.user_va
    }

    /// Size of the buffer.
    pub fn size_bytes(&self) -> (r: ByteSize)
        ensures
            r == self.description().size_bytes,
    {
        self.desc.size_bytes
    }

    /// Element type.
    pub fn dtype(&self) -> (r: AiDtype)
        ensures
            r == self.description().dtype,
    {
        self.desc.dtype
    }

    /// Extent of each axis.
    pub fn shape(&self) -> (r: &[DimSize])
        requires
            self.wf(),
        ensures
            r@ == self.description().shape@.take(self.description().ndim.0 as int),
    {
        let rank: usize = self.desc.ndim.0 as usize;
        let r: &[DimSize] = slice_subrange(self.desc.shape.as_slice(), 0, rank);
        assert(r@ =~= self.desc.shape@.take(rank as int));
        r
    }

    /// The buffer, to read.
    pub fn as_slice(&self) -> (r: &[u8])
        ensures
            r@ == self.bytes(),
    {
        self.storage.as_slice()
    }

    /// The buffer, to write.
    pub fn as_mut_slice(&mut self) -> (r: &mut [u8])
        ensures
            r@ == old(self).bytes(),
            final(self).bytes() == final(r)@,
            final(self).description() == old(self).description(),
    {
        self.storage.as_mut_slice()
    }
}

/// Allocates tensors.
#[derive(Clone, Copy, PartialEq, Eq, Structural, Debug)]
pub struct TensorManager;

impl TensorManager {
    /// An allocator.
    pub fn new() -> (r: Self)
        ensures
            r == TensorManager,
    {
        TensorManager
    }

    /// Describes a dense tensor in a buffer that the caller keeps.
    pub fn borrow_tensor_with_layout(
        &self,
        data: u64,
        size_bytes: usize,
        dtype: AiDtype,
        format: AiTensorFormat,
        layout: AiTensorLayout,
        shape: &[u32],
        flags: u8,
    ) -> (r: Result<AiTensorDesc, AiRuntimeErr>)
        requires
            dtype.element_size() is Some && shape@.len() <= MAX_DIM
                ==> shape_fits(shape@, dtype.element_size()->0) && layout.0 != AiTensorLayout::GGML_QUANT,
        ensures
            match r {
                Ok(desc) => {
                    &&& dense_fault(dtype, shape@) is None
                    &&& dense_bytes(dtype, shape@) <= size_bytes
                    &&& data != 0 && size_bytes != 0
                    &&& data + size_bytes <= usize::MAX
                    &&& desc.user_va.0 == data
                    &&& describes_dense(
                        desc,
                        size_bytes as nat,
                        dtype,
                        format,
                        layout,
                        shape@,
                        flags,
                    )
                },
                Err(err) => match dense_fault(dtype, shape@) {
                    Some(fault) => err == fault,
                    None => {
                        &&& err == AiRuntimeErr::InvalidInput
                        &&& dense_bytes(dtype, shape@) > size_bytes || data == 0 || size_bytes == 0
                            || data + size_bytes > usize::MAX
                    },
                },
            },
    {
        let (dims, required) = match plan_dense(dtype, shape) {
            Ok(plan) => plan,
            Err(err) => {
                return Err(err);
            },
        };
        if size_bytes < required {
            return Err(AiRuntimeErr::InvalidInput);
        }
        if data == 0 || size_bytes == 0 || data > usize::MAX as u64 || data as usize > usize::MAX
            - size_bytes {
            return Err(AiRuntimeErr::InvalidInput);
        }
        let desc = AiTensorDesc::from_user_buffer(
            UserVa(data),
            ByteSize(size_bytes as u64),
            dtype,
            format,
            layout,
            &dims,
            TensorFlags(flags),
        );
        Ok(desc)
    }

    /// Allocates a dense tensor.
    pub fn alloc_tensor(&self, dtype: AiDtype, shape: &[u32]) -> (r: Result<Tensor, AiRuntimeErr>)
        requires
            dtype.element_size() is Some && shape@.len() <= MAX_DIM
                ==> shape_fits(shape@, dtype.element_size()->0),
        ensures
            allocated(
                r,
                dtype,
                AiTensorFormat(AiTensorFormat::ANY),
                AiTensorLayout(AiTensorLayout::DENSE),
                shape@,
                0,
            ),
    {
        self.alloc_tensor_with_layout(
            dtype,
            AiTensorFormat(AiTensorFormat::ANY),
            AiTensorLayout(AiTensorLayout::DENSE),
            shape,
            0,
        )
    }

    /// Allocates a dense tensor with the given format and layout. The buffer starts
    /// out as zeros; a tensor without elements has no buffer and is refused.
    pub fn alloc_tensor_with_layout(
        &self,
        dtype: AiDtype,
        format: AiTensorFormat,
        layout: AiTensorLayout,
        shape: &[u32],
        flags: u8,
    ) -> (r: Result<Tensor, AiRuntimeErr>)
        requires
            dtype.element_size() is Some && shape@.len() <= MAX_DIM
                ==> shape_fits(shape@, dtype.element_size()->0) && layout.0 != AiTensorLayout::GGML_QUANT,
        ensures
            allocated(r, dtype, format, layout, shape@, flags),
    {
        let (dims, size) = match plan_dense(dtype, shape) {
            Ok(plan) => plan,
            Err(err) => {
                return Err(err);
            },
        };
        if size == 0 {
            return Err(AiRuntimeErr::AllocFailed);
        }
        let storage: Vec<u8> = vec![0u8; size];
        let desc = AiTensorDesc::from_user_buffer(
            UserVa(buffer_address(&storage)),
            ByteSize(size as u64),
            dtype,
            format,
            layout,
            &dims,
            TensorFlags(flags),
        );
        Ok(Tensor { desc, storage })
    }

    /// Allocates a tensor in a block format.
    pub fn alloc_ggml_quant_tensor(&self, dtype: AiDtype, shape: &[u32], flags: u8) -> (r: Result<
        Tensor,
        AiRuntimeErr,
    >)
        requires
            shape@.len() <= MAX_DIM && crate::uabi::desc::quant_size(dtype, extents(shape@)) is Some
                ==> crate::uabi::desc::prefixes_fit(
                extents(shape@),
                1,
                crate::uabi::desc::quant_row_size(dtype, extents(shape@)[0]),
                u64::MAX as int,
            ),
        ensures
            match r {
                Ok(tensor) => {
                    &&& shape@.len() <= MAX_DIM
                    &&& tensor.wf()
                    &&& tensor.description().user_va.0 != 0
                    &&& crate::uabi::desc::quant_size(dtype, extents(shape@)) == Some(
                        tensor.bytes().len(),
                    )
                    &&& forall|i: int|
                        0 <= i < tensor.bytes().len() ==> #[trigger] tensor.bytes()[i] == 0
                    &&& tensor.description().describes(
                        tensor.description().user_va,
                        tensor.description().size_bytes,
                        dtype,
                        AiTensorFormat(AiTensorFormat::ANY),
                        AiTensorLayout(AiTensorLayout::GGML_QUANT),
                        dims_from(shape@),
                        TensorFlags(flags),
                    )
                    &&& forall|i: int|
                        0 <= i < 8 ==> (#[trigger] tensor.description().stride_bytes[i]).0
                            == crate::uabi::desc::quant_stride(dtype, extents(shape@), i)
                },
                Err(err) => if shape@.len() > MAX_DIM {
                    err == AiRuntimeErr::InvalidShape
                } else {
                    match crate::uabi::desc::quant_size(dtype, extents(shape@)) {
                        None => err == AiRuntimeErr::InvalidShape,
                        Some(size) => if size > usize::MAX {
                            err == AiRuntimeErr::InvalidShape
                        } else {
                            size == 0 && err == AiRuntimeErr::AllocFailed
                        },
                    }
                },
            },
    {
        if shape.len() > MAX_DIM {
            return Err(AiRuntimeErr::InvalidShape);
        }
        let dims: Vec<DimSize> = wrap_dims(shape);
        let size_bytes: ByteSize = match ggml_quant_tensor_size_bytes(dtype, &dims) {
            Some(size) => size,
            None => {
                return Err(AiRuntimeErr::InvalidShape);
            },
        };
        let size: usize = match size_bytes.try_as_usize() {
            Ok(size) => size,
            Err(_) => {
                return Err(AiRuntimeErr::InvalidShape);
            },
        };
        if size == 0 {
            return Err(AiRuntimeErr::AllocFailed);
        }
        let storage: Vec<u8> = vec![0u8; size];
        let desc = AiTensorDesc::from_user_quant_buffer(
            UserVa(buffer_address(&storage)),
            ByteSize(size as u64),
            dtype,
            AiTensorFormat(AiTensorFormat::ANY),
            &dims,
            TensorFlags(flags),
        );
        Ok(Tensor { desc, storage })
    }
}

/// How allocating a dense tensor turns out.
pub open spec fn allocated(
    r: Result<Tensor, AiRuntimeErr>,
    dtype: AiDtype,
    format: AiTensorFormat,
    layout: AiTensorLayout,
    shape: Seq<u32>,
    flags: u8,
) -> bool {
    match r {
        Ok(tensor) => {
            &&& dense_fault(dtype, shape) is None
            &&& tensor.wf()
            &&& tensor.bytes().len() == dense_bytes(dtype, shape)
            &&& tensor.bytes().len() > 0
            &&& tensor.description().user_va.0 != 0
            &&& forall|i: int| 0 <= i < tensor.bytes().len() ==> #[trigger] tensor.bytes()[i] == 0
            &&& describes_dense(
                tensor.description(),
                dense_bytes(dtype, shape),
                dtype,
                format,
                layout,
                shape,
                flags,
            )
        },
        Err(err) => match dense_fault(dtype, shape) {
            Some(fault) => err == fault,
            None => dense_bytes(dtype, shape) == 0 && err == AiRuntimeErr::AllocFailed,
        },
    }
}

impl Default for TensorManager {
    fn default() -> (r: Self)
        ensures
            r == TensorManager,
    {
        TensorManager
    }
}


/// The strides of a dense tensor: neighbours along the last axis are one element apart, and
/// along any other axis as far apart as all of the next axis. The size is all of the first.
pub proof fn dense_strides_nest(
    desc: AiTensorDesc,
    size_bytes: nat,
    dtype: AiDtype,
    format: AiTensorFormat,
    layout: AiTensorLayout,
    shape: Seq<u32>,
    flags: u8,
    axis: int,
)
    requires
        describes_dense(desc, size_bytes, dtype, format, layout, shape, flags),
        0 <= axis < shape.len() <= 8,
        dtype.element_size() is Some,
    ensures
        axis == shape.len() - 1 ==> desc.stride_bytes[axis].0 == dtype.element_size()->0,
        axis < shape.len() - 1 ==> desc.stride_bytes[axis].0 == desc.stride_bytes[axis + 1].0
            * shape[axis + 1],
        axis == 0 ==> dense_bytes(dtype, shape) == desc.stride_bytes[0].0 * shape[0],
{
    let dims = extents(shape);
    let rank = shape.len() as int;
    let unit = dtype.element_size()->0 as nat;
    assert(desc.stride_bytes[axis].0 == crate::uabi::desc::dense_stride(dims, unit, axis));
    if axis < rank - 1 {
        crate::shape::product_front(dims, axis + 1, rank);
        let (extent, rest) = (dims[axis + 1], crate::shape::product(dims, axis + 2, rank));
        assert(desc.stride_bytes[axis + 1].0 == crate::uabi::desc::dense_stride(
            dims,
            unit,
            axis + 1,
        ));
        assert(unit * (extent * rest) == (unit * rest) * extent) by (nonlinear_arith);
    } else {
        assert(crate::shape::product(dims, rank, rank) == 1);
    }
    if axis == 0 {
        crate::shape::product_front(dims, 0, rank);
        let (extent, rest) = (dims[0], crate::shape::product(dims, 1, rank));
        assert((extent * rest) * unit == (unit * rest) * extent) by (nonlinear_arith);
    }
}

} // verus!
