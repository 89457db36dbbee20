//! What a kernel call must look like.

use crate::backend::meta::{BackendTensorView, TensorMeta};
use crate::bytes::read_words;
use crate::uabi::desc::{
    AiDtype, AiTensorDesc, AiTensorFormat, AiTensorLayout, MAX_DIM,
};
use crate::uabi::error::BackendErr;
use crate::uabi::kernel::{AiTargetHint, KernelOp};
use crate::uabi::kernelattr::InlineAttr;
use crate::uabi::types::{
    AttrByteSize, ByteSize, ByteStride, DimCount, DimSize, TensorCount, TensorFlags,
};
use vstd::prelude::*;

verus! {

/// The numbers of a checked view.
pub open spec fn counts_view(view: BackendTensorView, meta: TensorMeta) -> bool {
    &&& meta.rank == view.ndim.0
    &&& view.dtype.element_size() matches Some(size) && size == meta.element_size
    &&& meta.element_count == crate::shape::product(
        crate::backend::meta::view_dims(view),
        0,
        meta.rank as int,
    )
    &&& forall|i: int|
        0 <= i < 8 ==> #[trigger] meta.shape[i] == (if i < meta.rank {
            view.shape[i].0 as usize
        } else {
            0
        })
    &&& forall|i: int|
        0 <= i < 8 ==> (#[trigger] meta.strides[i]) as nat == (if i < meta.rank {
            crate::backend::meta::view_step(view, meta.element_size as nat, i)
        } else {
            0
        })
}

/// The numbers of a view that passed every check.
pub open spec fn checked(view: BackendTensorView, meta: TensorMeta) -> bool {
    &&& crate::backend::meta::view_fault(view) is None
    &&& counts_view(view, meta)
    &&& meta.wf()
    &&& meta.lies_in(view.byte_len.0 as int / meta.element_size as int)
    &&& view.layout.0 == AiTensorLayout::DENSE ==> meta.contiguous()
    &&& view.byte_len.0 <= usize::MAX
    &&& crate::backend::logical::movable(meta.element_size as int)
    &&& meta.dims() == crate::backend::meta::view_dims(view)
}

proof fn span_grows(view: BackendTensorView, n: int, m: int)
    requires
        0 <= n <= m <= 8,
    ensures
        crate::backend::meta::view_span(view, n) <= crate::backend::meta::view_span(view, m),
    decreases m,
{
    if n < m {
        span_grows(view, n, m - 1);
        axis_span_nonneg(view, m - 1);
    }
}

proof fn axis_span_nonneg(view: BackendTensorView, i: int)
    ensures
        crate::backend::meta::axis_span(view, i) >= 0,
{
    let d = view.shape[i].0;
    let s = view.stride_bytes[i].0;
    if d > 0 {
        assert((d - 1) * s >= 0) by (nonlinear_arith)
            requires
                d > 0,
                s >= 0,
        ;
    }
}

/// The reach of a checked view, in elements, is its span in bytes.
proof fn reach_is_span(view: BackendTensorView, meta: TensorMeta, n: int)
    requires
        counts_view(view, meta),
        meta.rank <= 8,
        meta.element_size > 0,
        0 <= n <= meta.rank,
        forall|i: int|
            0 <= i < meta.rank ==> #[trigger] crate::backend::meta::axis_ok(
                view,
                meta.element_size as nat,
                i,
            ),
    ensures
        meta.reach(n) * meta.element_size == crate::backend::meta::view_span(view, n),
        meta.reach(n) >= 0,
    decreases n,
{
    let es = meta.element_size as int;
    if n > 0 {
        reach_is_span(view, meta, n - 1);
        assert(crate::backend::meta::axis_ok(view, es as nat, n - 1));
        let d = meta.shape[n - 1] as int;
        let s = meta.strides[n - 1] as int;
        let b = view.stride_bytes[n - 1].0 as int;
        vstd::arithmetic::div_mod::lemma_fundamental_div_mod(b, es);
        assert(b == es * s);
        let r = meta.reach(n - 1);
        if d > 0 {
            assert((r + (d - 1) * s) * es == r * es + (d - 1) * (es * s)) by (nonlinear_arith);
            assert((d - 1) * s >= 0) by (nonlinear_arith)
                requires
                    d > 0,
                    s >= 0,
            ;
        } else {
            assert((r + 0) * es == r * es);
        }
    } else {
        assert(0 * es == 0) by (nonlinear_arith);
    }
}

/// What checking a view guarantees: the numbers add up, every element lies within the
/// buffer, and a dense view is contiguous.
proof fn checked_view_holds(view: BackendTensorView, meta: TensorMeta)
    requires
        crate::backend::meta::view_fault(view) is None,
        counts_view(view, meta),
    ensures
        meta.wf(),
        meta.lies_in(view.byte_len.0 as int / meta.element_size as int),
        view.layout.0 == AiTensorLayout::DENSE ==> meta.contiguous(),
{
    let es = meta.element_size as int;
    let dims = crate::backend::meta::view_dims(view);
    assert(meta.dims() =~= dims);
    reach_is_span(view, meta, meta.rank as int);
    let reach = meta.reach(meta.rank as int);
    let span = crate::backend::meta::view_span(view, meta.rank as int);
    assert(reach <= reach * es) by (nonlinear_arith)
        requires
            reach >= 0,
            es >= 1,
    ;
    if meta.element_count > 0 {
        let len = view.byte_len.0 as int;
        assert((reach + 1) * es <= len) by (nonlinear_arith)
            requires
                reach * es == span,
                span + es <= len,
        ;
        assert(reach < len / es) by (nonlinear_arith)
            requires
                (reach + 1) * es <= len,
                es > 0,
        ;
    }
    if view.layout.0 == AiTensorLayout::DENSE {
        assert forall|i: int| 0 <= i < meta.rank && meta.shape[i] > 1 implies #[trigger] meta.strides[i]
            == crate::shape::product(dims, i + 1, meta.rank as int) by {
            assert(view.shape[i].0 > 1);
            assert(crate::backend::meta::view_step(view, es as nat, i) == crate::shape::product(
                dims,
                i + 1,
                meta.rank as int,
            ));
        }
    }
}

impl BackendTensorView {
    /// Whether this is a view of the described tensor, at its kernel address.
    pub open spec fn describes(self, desc: AiTensorDesc) -> bool {
        &&& self.data == desc.kernel_va.0
        &&& self.byte_len == desc.size_bytes
        &&& self.shape == desc.shape
        &&& self.stride_bytes == desc.stride_bytes
        &&& self.ndim == desc.ndim
        &&& self.dtype == desc.dtype
        &&& self.format == desc.format
        &&& self.layout == desc.layout
        &&& self.flags == desc.flags
    }

    /// The view of a described tensor, at its kernel address.
    pub fn from_desc(desc: &AiTensorDesc) -> (r: Self)
        ensures
            r.describes(*desc),
    {
        BackendTensorView {
            data: desc.kernel_va.0,
            byte_len: desc.size_bytes,
            shape: desc.shape,
            stride_bytes: desc.stride_bytes,
            ndim: desc.ndim,
            dtype: desc.dtype,
            format: desc.format,
            layout: desc.layout,
            flags: desc.flags,
        }
    }

    /// Number of elements of the given size and alignment in the buffer, where the
    /// buffer can be read as such.
    pub fn typed_len(&self, element_size: usize, align: usize) -> (r: Result<usize, BackendErr>)
        ensures
            r == (match crate::backend::meta::typed_count(
                *self,
                element_size as int,
                align as int,
            ) {
                Some(len) => Ok::<usize, BackendErr>(len),
                None => Err(BackendErr::InvalidTensor),
            }),
    {
        if self.data == 0 {
            return Err(BackendErr::InvalidTensor);
        }
        let byte_len: usize = match self.byte_len.try_as_usize() {
            Ok(len) => len,
            Err(_) => {
                return Err(BackendErr::InvalidTensor);
            },
        };
        if element_size == 0 || byte_len % element_size != 0 {
            return Err(BackendErr::InvalidTensor);
        }
        if align > 1 && self.data % (align as u64) != 0 {
            return Err(BackendErr::InvalidTensor);
        }
        Ok(byte_len / element_size)
    }

    /// Checks element type, axes, strides and bounds, and counts in elements.
    pub fn checked_meta(&self) -> (r: Result<TensorMeta, BackendErr>)
        ensures
            match r {
                Ok(meta) => checked(*self, meta),
                Err(err) => crate::backend::meta::view_fault(*self) == Some(err),
            },
    {
        let rank: usize = match self.ndim.try_under_max(MAX_DIM) {
            Ok(rank) => rank,
            Err(_) => {
                return Err(BackendErr::InvalidTensor);
            },
        };
        let element_size: usize = match self.dtype.element_size_bytes() {
            Some(size) => size as usize,
            None => {
                return Err(BackendErr::UnsupportedDtype);
            },
        };
        let byte_len: usize = match self.byte_len.try_as_usize() {
            Ok(len) => len,
            Err(_) => {
                return Err(BackendErr::InvalidTensor);
            },
        };
        if self.data == 0 {
            return Err(BackendErr::InvalidTensor);
        }
        if self.layout.0 != AiTensorLayout::DENSE && self.layout.0 != AiTensorLayout::STRIDED {
            return Err(BackendErr::InvalidTensor);
        }
        let ghost view = *self;
        let ghost dims = crate::backend::meta::view_dims(view);
        let ghost es = element_size as nat;
        let mut shape: [usize; 8] = [0; 8];
        let mut strides: [usize; 8] = [0; 8];
        let mut element_count: usize = 1;
        let mut max_offset: usize = 0;
        let mut axis: usize = 0;
        while axis < rank
            invariant
                axis <= rank <= 8,
                view == *self,
                rank == view.ndim.0,
                dims == crate::backend::meta::view_dims(view),
                es == element_size,
                view.dtype.element_size() matches Some(size) && size == element_size,
                element_size > 0,
                forall|i: int|
                    0 <= i < axis ==> #[trigger] crate::backend::meta::axis_ok(view, es, i),
                forall|n: int|
                    0 <= n <= axis ==> #[trigger] crate::shape::product(dims, 0, n) <= usize::MAX,
                element_count == crate::shape::product(dims, 0, axis as int),
                max_offset == crate::backend::meta::view_span(view, axis as int),
                forall|i: int|
                    0 <= i < 8 ==> #[trigger] shape[i] == (if i < axis {
                        view.shape[i].0 as usize
                    } else {
                        0
                    }),
                forall|i: int|
                    0 <= i < 8 ==> (#[trigger] strides[i]) as nat == (if i < axis {
                        crate::backend::meta::view_step(view, es, i)
                    } else {
                        0
                    }),
            decreases rank - axis,
        {
            let extent: usize = self.shape[axis].0 as usize;
            let stride_bytes: usize = match self.stride_bytes[axis].try_as_usize() {
                Ok(stride) => stride,
                Err(_) => {
                    assert(!crate::backend::meta::axis_ok(view, es, axis as int));
                    return Err(BackendErr::InvalidTensor);
                },
            };
            if stride_bytes % element_size != 0 {
                assert(!crate::backend::meta::axis_ok(view, es, axis as int));
                return Err(BackendErr::InvalidTensor);
            }
            let step: usize = stride_bytes / element_size;
            shape[axis] = extent;
            strides[axis] = step;
            match element_count.checked_mul(extent) {
                Some(count) => {
                    element_count = count;
                },
                None => {
                    assert(crate::shape::product(dims, 0, axis + 1) > usize::MAX);
                    return Err(BackendErr::InvalidTensor);
                },
            }
            if extent > 1 && step == 0 {
                assert(!crate::backend::meta::axis_ok(view, es, axis as int));
                return Err(BackendErr::InvalidTensor);
            }
            let last: usize = if extent == 0 {
                0
            } else {
                extent - 1
            };
            assert(extent == 0 ==> last * stride_bytes == 0);
            let ghost part = crate::backend::meta::axis_span(view, axis as int);
            assert(part == last * stride_bytes);
            proof {
                span_grows(view, axis + 1, rank as int);
                span_grows(view, 0, axis as int);
            }
            match last.checked_mul(stride_bytes) {
                Some(span) => match max_offset.checked_add(span) {
                    Some(offset) => {
                        max_offset = offset;
                    },
                    None => {
                        return Err(BackendErr::InvalidTensor);
                    },
                },
                None => {
                    return Err(BackendErr::InvalidTensor);
                },
            }
            assert(crate::backend::meta::axis_ok(view, es, axis as int));
            axis = axis + 1;
        }
        if element_count != 0 {
            match max_offset.checked_add(element_size) {
                Some(required) => if required > byte_len {
                    return Err(BackendErr::InvalidTensor);
                },
                None => {
                    return Err(BackendErr::InvalidTensor);
                },
            }
        }
        if self.layout.0 == AiTensorLayout::DENSE {
            let mut expected: usize = 1;
            let mut axis: usize = rank;
            while axis > 0
                invariant
                    axis <= rank <= 8,
                    view == *self,
                    rank == view.ndim.0,
                    dims == crate::backend::meta::view_dims(view),
                    es == element_size,
                    view.dtype.element_size() matches Some(size) && size == element_size,
                    view.layout.0 == AiTensorLayout::DENSE,
                    forall|i: int|
                        0 <= i < 8 ==> #[trigger] shape[i] == (if i < rank {
                            view.shape[i].0 as usize
                        } else {
                            0
                        }),
                    forall|i: int|
                        0 <= i < 8 ==> (#[trigger] strides[i]) as nat == (if i < rank {
                            crate::backend::meta::view_step(view, es, i)
                        } else {
                            0
                        }),
                    expected == crate::shape::product(dims, axis as int, rank as int),
                    forall|i: int|
                        axis <= i < rank && view.shape[i].0 > 1
                            ==> #[trigger] crate::backend::meta::view_step(view, es, i)
                            == crate::shape::product(dims, i + 1, rank as int),
                    forall|i: int|
                        axis <= i <= rank ==> #[trigger] crate::shape::product(
                            dims,
                            i,
                            rank as int,
                        ) <= usize::MAX,
                decreases axis,
            {
                axis = axis - 1;
                if shape[axis] > 1 && strides[axis] != expected {
                    assert(crate::backend::meta::view_step(view, es, axis as int)
                        != crate::shape::product(dims, axis + 1, rank as int));
                    return Err(BackendErr::InvalidTensor);
                }
                proof {
                    crate::shape::product_front(dims, axis as int, rank as int);
                    let e = expected as nat;
                    let d = dims[axis as int];
                    assert(e * d == d * e) by (nonlinear_arith);
                }
                match expected.checked_mul(shape[axis]) {
                    Some(next) => {
                        expected = next;
                    },
                    None => {
                        assert(crate::shape::product(dims, axis as int, rank as int)
                            > usize::MAX);
                        return Err(BackendErr::InvalidTensor);
                    },
                }
            }
        }
        let meta = TensorMeta { rank, shape, strides, element_size, element_count };
        proof {
            checked_view_holds(view, meta);
            assert(meta.dims() =~= dims);
        }
        Ok(meta)
    }
}

impl Default for BackendTensorView {
    fn default() -> (r: Self)
        ensures
            r.data == 0,
            r.byte_len.0 == 0,
            r.ndim.0 == 0,
            r.dtype.0 == 0,
            r.format.0 == 0,
            r.layout.0 == 0,
            r.flags.0 == 0,
            forall|i: int| 0 <= i < 8 ==> (#[trigger] r.shape[i]).0 == 0,
            forall|i: int| 0 <= i < 8 ==> (#[trigger] r.stride_bytes[i]).0 == 0,
    {
        let dim = DimSize(0);
        let step = ByteStride(0);
        BackendTensorView {
            data: 0,
            byte_len: ByteSize(0),
            shape: [dim, dim, dim, dim, dim, dim, dim, dim],
            stride_bytes: [step, step, step, step, step, step, step, step],
            ndim: DimCount(0),
            dtype: AiDtype(0),
            format: AiTensorFormat(0),
            layout: AiTensorLayout(0),
            flags: TensorFlags(0),
        }
    }
}

/// A kernel call as it comes in. A list that is missing stands for a null address.
pub struct BackendCall {
    /// What to run.
    pub op: KernelOp,
    /// Where to run it.
    pub target: u8,
    /// The inputs.
    pub inputs: Option<Vec<BackendTensorView>>,
    /// Number of inputs.
    pub input_count: TensorCount,
    /// The outputs.
    pub outputs: Option<Vec<BackendTensorView>>,
    /// Number of outputs.
    pub output_count: TensorCount,
    /// The attribute area.
    pub attr: Option<Vec<u8>>,
    /// Meaningful bytes of the attribute area.
    pub attr_size: AttrByteSize,
}

/// A kernel call that can be worked with.
pub struct CallContext {
    /// Where to run.
    pub target: AiTargetHint,
    /// The inputs.
    pub inputs: Vec<BackendTensorView>,
    /// The outputs.
    pub outputs: Vec<BackendTensorView>,
    /// The attribute area.
    pub attr: Option<Vec<u8>>,
    /// Meaningful bytes of the attribute area.
    pub attr_size: usize,
}

/// The target that a call is run on: where none is asked for, the matrix unit.
pub open spec fn settled_target(target: u8) -> AiTargetHint {
    if target == AiTargetHint::AUTO {
        AiTargetHint(AiTargetHint::PREFER_A100)
    } else {
        AiTargetHint(target)
    }
}

impl BackendCall {
    /// Lists that are there are as long as the counts say.
    pub open spec fn lists_match(self) -> bool {
        &&& self.inputs matches Some(list) ==> list@.len() == self.input_count.0
        &&& self.outputs matches Some(list) ==> list@.len() == self.output_count.0
    }

    /// What is wrong with a call, where anything is.
    pub open spec fn fault(self) -> Option<BackendErr> {
        if !AiTargetHint(self.target).known() {
            Some(BackendErr::UnsupportedOp)
        } else if self.input_count.0 > 0 && self.inputs is None {
            Some(BackendErr::NullPointer)
        } else if self.output_count.0 > 0 && self.outputs is None {
            Some(BackendErr::NullPointer)
        } else {
            None
        }
    }
}

impl CallContext {
    /// Makes a call ready to be worked with.
    pub fn from_call(call: Option<BackendCall>) -> (r: Result<Self, BackendErr>)
        requires
            call matches Some(call) ==> call.lists_match(),
        ensures
            match call {
                None => r matches Err(err) && err == BackendErr::NullPointer,
                Some(call) => match r {
                    Ok(ctx) => {
                        &&& call.fault() is None
                        &&& ctx.target == settled_target(call.target)
                        &&& ctx.inputs@ == (match call.inputs {
                            Some(list) => list@,
                            None => Seq::empty(),
                        })
                        &&& ctx.outputs@ == (match call.outputs {
                            Some(list) => list@,
                            None => Seq::empty(),
                        })
                        &&& ctx.attr == call.attr
                        &&& ctx.attr_size == call.attr_size.0
                    },
                    Err(err) => call.fault() == Some(err),
                },
            },
    {
        let call: BackendCall = match call {
            Some(call) => call,
            None => {
                return Err(BackendErr::NullPointer);
            },
        };
        if !AiTargetHint(call.target).is_known() {
            return Err(BackendErr::UnsupportedOp);
        }
        let target = if call.target == AiTargetHint::AUTO {
            AiTargetHint(AiTargetHint::PREFER_A100)
        } else {
            AiTargetHint(call.target)
        };
        if call.input_count.0 > 0 && call.inputs.is_none() {
            return Err(BackendErr::NullPointer);
        }
        if call.output_count.0 > 0 && call.outputs.is_none() {
            return Err(BackendErr::NullPointer);
        }
        let inputs: Vec<BackendTensorView> = match call.inputs {
            Some(list) => list,
            None => Vec::new(),
        };
        let outputs: Vec<BackendTensorView> = match call.outputs {
            Some(list) => list,
            None => Vec::new(),
        };
        Ok(
            CallContext {
                target,
                inputs,
                outputs,
                attr: call.attr,
                attr_size: call.attr_size.0 as usize,
            },
        )
    }

    /// Checks the numbers of inputs and outputs.
    pub fn expect_io(&self, input_count: usize, output_count: usize) -> (r: Result<(), BackendErr>)
        ensures
            r == (if self.inputs@.len() == input_count && self.outputs@.len() == output_count {
                Ok::<(), BackendErr>(())
            } else {
                Err(BackendErr::InvalidInput)
            }),
    {
        if self.inputs.len() != input_count || self.outputs.len() != output_count {
            return Err(BackendErr::InvalidInput);
        }
        Ok(())
    }

    /// Checks the numbers of inputs and outputs against what is allowed.
    pub fn expect_io_range(
        &self,
        input_min: usize,
        input_max: usize,
        output_min: usize,
        output_max: usize,
    ) -> (r: Result<(), BackendErr>)
        ensures
            r == (if input_min <= self.inputs@.len() <= input_max && output_min
                <= self.outputs@.len() <= output_max {
                Ok::<(), BackendErr>(())
            } else {
                Err(BackendErr::InvalidInput)
            }),
    {
        if self.inputs.len() < input_min || self.inputs.len() > input_max || self.outputs.len()
            < output_min || self.outputs.len() > output_max {
            return Err(BackendErr::InvalidInput);
        }
        Ok(())
    }

    /// Refuses a call in which an input and an output share memory.
    pub fn reject_input_output_alias(&self) -> (r: Result<(), BackendErr>)
        ensures
            r == (if no_overlap(self.inputs@, self.outputs@) {
                Ok::<(), BackendErr>(())
            } else {
                Err(BackendErr::InvalidTensor)
            }),
    {
        let mut i: usize = 0;
        while i < self.inputs.len()
            invariant
                i <= self.inputs@.len(),
                forall|a: int| 0 <= a < i ==> range_ok(#[trigger] self.inputs@[a]),
                forall|a: int, b: int|
                    0 <= a < i && 0 <= b < self.outputs@.len() ==> apart(
                        #[trigger] self.inputs@[a],
                        #[trigger] self.outputs@[b],
                    ),
            decreases self.inputs@.len() - i,
        {
            let (input_start, input_end) = match buffer_range(&self.inputs[i]) {
                Some(range) => range,
                None => {
                    assert(!range_ok(self.inputs@[i as int]));
                    return Err(BackendErr::InvalidTensor);
                },
            };
            let mut j: usize = 0;
            while j < self.outputs.len()
                invariant
                    i < self.inputs@.len(),
                    j <= self.outputs@.len(),
                    range_ok(self.inputs@[i as int]),
                    input_start == self.inputs@[i as int].data,
                    input_end == input_start + self.inputs@[i as int].byte_len.0,
                    forall|b: int|
                        0 <= b < j ==> apart(self.inputs@[i as int], #[trigger] self.outputs@[b]),
                decreases self.outputs@.len() - j,
            {
                let (output_start, output_end) = match buffer_range(&self.outputs[j]) {
                    Some(range) => range,
                    None => {
                        assert(!apart(self.inputs@[i as int], self.outputs@[j as int]));
                        return Err(BackendErr::InvalidTensor);
                    },
                };
                if input_start < output_end && output_start < input_end {
                    assert(!apart(self.inputs@[i as int], self.outputs@[j as int]));
                    return Err(BackendErr::InvalidTensor);
                }
                j = j + 1;
            }
            i = i + 1;
        }
        Ok(())
    }

    /// The attribute area holds what its size says, or at least a whole inline area.
    pub open spec fn wf(self) -> bool {
        self.attr matches Some(bytes) ==> bytes@.len() >= self.attr_size || bytes@.len() >= 128
    }

    /// The attribute in the attribute area, where there is enough of it.
    pub open spec fn attr_as<T: InlineAttr>(self) -> Option<T> {
        if self.attr is Some && self.attr_size >= 4 * T::word_count() {
            Some(T::of_words(crate::bytes::words_at(self.attr->0@, 0, T::word_count())))
        } else {
            None
        }
    }

    /// Reads an attribute from the attribute area.
    pub fn read_attr<T: InlineAttr>(&self) -> (r: Result<T, BackendErr>)
        requires
            self.wf(),
        ensures
            r == (match self.attr_as::<T>() {
                Some(attr) => Ok::<T, BackendErr>(attr),
                None => Err(BackendErr::InvalidAttr),
            }),
    {
        let count: usize = T::word_len();
        match &self.attr {
            Some(bytes) => {
                if self.attr_size < 4 * count {
                    return Err(BackendErr::InvalidAttr);
                }
                let words: Vec<u32> = read_words(bytes, 0, count);
                Ok(T::from_words(&words))
            },
            None => Err(BackendErr::InvalidAttr),
        }
    }
}

/// The buffer of a view lies within the address space.
pub open spec fn range_ok(view: BackendTensorView) -> bool {
    &&& view.byte_len.0 <= usize::MAX
    &&& view.data + view.byte_len.0 <= usize::MAX
}

/// The buffers of two views lie within the address space and share no byte.
pub open spec fn apart(input: BackendTensorView, output: BackendTensorView) -> bool {
    &&& range_ok(output)
    &&& !(input.data < output.data + output.byte_len.0 && output.data < input.data
        + input.byte_len.0)
}

/// No input shares memory with an output.
pub open spec fn no_overlap(
    inputs: Seq<BackendTensorView>,
    outputs: Seq<BackendTensorView>,
) -> bool {
    &&& forall|a: int| 0 <= a < inputs.len() ==> range_ok(#[trigger] inputs[a])
    &&& forall|a: int, b: int|
        0 <= a < inputs.len() && 0 <= b < outputs.len() ==> apart(
            #[trigger] inputs[a],
            #[trigger] outputs[b],
        )
}

/// Where the buffer of a view starts and ends.
fn buffer_range(view: &BackendTensorView) -> (r: Option<(usize, usize)>)
    ensures
        match r {
            Some((start, end)) => {
                &&& range_ok(*view)
                &&& start == view.data
                &&& end == view.data + view.byte_len.0
            },
            None => !range_ok(*view),
        },
{
    if view.data > usize::MAX as u64 {
        return None;
    }
    let start: usize = view.data as usize;
    match view.byte_len.try_as_usize() {
        Ok(len) => match start.checked_add(len) {
            Some(end) => Some((start, end)),
            None => None,
        },
        Err(_) => None,
    }
}

/// An attribute that was stored in a descriptor is read back as stored.
pub proof fn stored_attr_is_read<T: InlineAttr>(attr: T)
    ensures
        T::of_words(
            crate::bytes::words_at(
                crate::uabi::desc::inline_bytes(attr.words()),
                0,
                T::word_count(),
            ),
        ) == attr,
{
    attr.words_hold_fields();
    let words = attr.words();
    let area = crate::uabi::desc::inline_bytes(words);
    let back = crate::bytes::words_at(area, 0, words.len());
    assert forall|k: int| 0 <= k < words.len() implies #[trigger] back[k] == words[k] by {
        stored_word_is_read(words, k);
    }
    assert(back =~= words);
}

/// A word of a stored attribute is read back as stored.
proof fn stored_word_is_read(words: Seq<u32>, k: int)
    requires
        0 <= k < words.len() <= 32,
    ensures
        crate::bytes::word_at(crate::uabi::desc::inline_bytes(words), 0 + 4 * k) == words[k],
{
    let area = crate::uabi::desc::inline_bytes(words);
    crate::bytes::word_of_bytes(words[k]);
    assert((4 * k) / 4 == k && (4 * k + 1) / 4 == k && (4 * k + 2) / 4 == k && (4 * k + 3) / 4
        == k);
    assert((4 * k) % 4 == 0 && (4 * k + 1) % 4 == 1 && (4 * k + 2) % 4 == 2 && (4 * k + 3) % 4
        == 3);
    assert(area[4 * k] == crate::bytes::byte_of(words[k], 0));
    assert(area[4 * k + 1] == crate::bytes::byte_of(words[k], 1));
    assert(area[4 * k + 2] == crate::bytes::byte_of(words[k], 2));
    assert(area[4 * k + 3] == crate::bytes::byte_of(words[k], 3));
}


/// The address is that of one of the bytes of a view.
pub open spec fn holds_address(view: BackendTensorView, address: int) -> bool {
    view.data <= address < view.data + view.byte_len.0
}

/// Tensors that have bytes are apart where no address belongs to both.
pub proof fn overlap_is_a_shared_address(input: BackendTensorView, output: BackendTensorView)
    requires
        range_ok(input),
        range_ok(output),
        input.byte_len.0 > 0,
        output.byte_len.0 > 0,
    ensures
        !apart(input, output) <==> exists|address: int| #[trigger]
            holds_address(input, address) && holds_address(output, address),
{
    let address = if input.data < output.data {
        output.data as int
    } else {
        input.data as int
    };
    if !apart(input, output) {
        assert(holds_address(input, address) && holds_address(output, address));
    }
}

/// A call without a target of its own goes to the matrix unit, and any other to the target
/// that it asks for.
pub proof fn calls_keep_their_target(target: u8)
    ensures
        target != AiTargetHint::AUTO ==> settled_target(target).0 == target,
        target == AiTargetHint::AUTO ==> settled_target(target).0 == AiTargetHint::PREFER_A100,
{
}


/// A view says of a tensor what its description says: where the kernel sees it, its size and
/// element type, and along each axis its extent and stride.
pub proof fn views_follow_descriptions(view: BackendTensorView, desc: AiTensorDesc, i: int)
    requires
        view.describes(desc),
        0 <= i < 8,
    ensures
        view.data == desc.kernel_va.0,
        view.byte_len.0 == desc.size_bytes.0,
        view.ndim.0 == desc.ndim.0,
        view.dtype.0 == desc.dtype.0,
        view.layout.0 == desc.layout.0,
        view.shape[i].0 == desc.shape[i].0,
        view.stride_bytes[i].0 == desc.stride_bytes[i].0,
{
}

} // verus!
