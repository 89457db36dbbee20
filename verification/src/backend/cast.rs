//! Conversion between element types.

use crate::backend::call::CallContext;
use crate::backend::gather::same_shape;
use crate::backend::logical::{read_logical_bytes, write_logical_bytes};
use crate::backend::meta::TensorMeta;
use crate::bytes::{
    high_half, join_halves, low_half, read_word, word_to_signed,
};
use crate::uabi::desc::AiDtype;
use crate::uabi::error::BackendErr;
use crate::uabi::kernelattr::CastAttr;
use vstd::prelude::*;

verus! {

/// One element, whatever its type was.
#[derive(Clone, Copy, PartialEq, Eq, Structural, Debug)]
pub enum ScalarValue {
    /// A single-precision number, as bits.
    Float(u32),
    /// A signed number.
    Signed(i64),
    /// An unsigned number.
    Unsigned(u64),
    /// A truth value.
    Bool(bool),
}

/// Elements of this type can be converted.
pub open spec fn convertible(dtype: AiDtype) -> bool {
    dtype.0 == AiDtype::F32 || dtype.0 == AiDtype::F16 || dtype.0 == AiDtype::I8 || dtype.0
        == AiDtype::U8 || dtype.0 == AiDtype::I32 || dtype.0 == AiDtype::I64 || dtype.0
        == AiDtype::BOOL
}

/// What conversions need: widening and narrowing of half precision, whole numbers to
/// single precision and back.
pub struct Conversions<W, N, F, L, I> {
    /// Half precision to single precision.
    pub widen: W,
    /// Single precision to half precision.
    pub narrow: N,
    /// A whole number to single precision.
    pub to_float: F,
    /// Single precision to a 64-bit whole number.
    pub to_long: L,
    /// Single precision to a 32-bit whole number.
    pub to_int: I,
}

impl<
    W: Fn(u16) -> u32,
    N: Fn(u32) -> u16,
    F: Fn(i64) -> u32,
    L: Fn(u32) -> i64,
    I: Fn(u32) -> i32,
> Conversions<W, N, F, L, I> {
    /// The conversions can be called on everything.
    pub open spec fn total(self) -> bool {
        &&& forall|h: u16| #[trigger] self.widen.requires((h,))
        &&& forall|v: u32| #[trigger] self.narrow.requires((v,))
        &&& forall|n: i64| #[trigger] self.to_float.requires((n,))
        &&& forall|v: u32| #[trigger] self.to_long.requires((v,))
        &&& forall|v: u32| #[trigger] self.to_int.requires((v,))
    }

    /// `value` is element `i` of a row of bytes.
    pub open spec fn reads(self, bytes: Seq<u8>, dtype: AiDtype, i: int, value: ScalarValue) -> bool {
        if dtype.0 == AiDtype::F32 {
            value == ScalarValue::Float(crate::bytes::word_at(bytes, 4 * i))
        } else if dtype.0 == AiDtype::F16 {
            value is Float && self.widen.ensures(
                (crate::backend::float::half_at(bytes, i),),
                value->Float_0,
            )
        } else if dtype.0 == AiDtype::I8 {
            value == ScalarValue::Signed((bytes[i] as i8) as i64)
        } else if dtype.0 == AiDtype::U8 {
            value == ScalarValue::Unsigned(bytes[i] as u64)
        } else if dtype.0 == AiDtype::I32 || dtype.0 == AiDtype::I64 {
            value == ScalarValue::Signed(
                crate::backend::gather::index_value(bytes, dtype, i),
            )
        } else {
            value == ScalarValue::Bool(bytes[i] != 0)
        }
    }

    /// `bits` is an element in single precision.
    pub open spec fn as_float(self, value: ScalarValue, bits: u32) -> bool {
        match value {
            ScalarValue::Float(v) => bits == v,
            ScalarValue::Signed(v) => self.to_float.ensures((v,), bits),
            ScalarValue::Unsigned(v) => self.to_float.ensures((v as i64,), bits),
            ScalarValue::Bool(v) => self.to_float.ensures(
                (if v {
                    1i64
                } else {
                    0i64
                },),
                bits,
            ),
        }
    }

    /// `number` is an element as a whole number.
    pub open spec fn as_long(self, value: ScalarValue, number: i64) -> bool {
        match value {
            ScalarValue::Float(v) => self.to_long.ensures((v,), number),
            ScalarValue::Signed(v) => number == v,
            ScalarValue::Unsigned(v) => number == v as i64,
            ScalarValue::Bool(v) => number == (if v {
                1i64
            } else {
                0i64
            }),
        }
    }

    /// `bytes` is an element of the given type with the given value.
    pub open spec fn writes(self, dtype: AiDtype, value: ScalarValue, bytes: Seq<u8>) -> bool {
        if dtype.0 == AiDtype::F32 {
            exists|bits: u32| #[trigger] self.as_float(value, bits) && bytes == word_bytes(bits)
        } else if dtype.0 == AiDtype::F16 {
            exists|bits: u32, half: u16| #[trigger]
                self.as_float(value, bits) && #[trigger] self.narrow.ensures((bits,), half)
                    && bytes == half_bytes(half)
        } else if dtype.0 == AiDtype::I8 || dtype.0 == AiDtype::U8 {
            exists|n: i64| #[trigger] self.as_long(value, n) && bytes == seq![n as u8]
        } else if dtype.0 == AiDtype::I32 {
            exists|n: i64| #[trigger] self.as_long(value, n) && bytes == word_bytes(n as u32)
        } else if dtype.0 == AiDtype::I64 {
            exists|n: i64| #[trigger] self.as_long(value, n) && bytes == long_bytes(n)
        } else {
            exists|bits: u32| #[trigger]
                self.as_float(value, bits) && bytes == seq![
                    if crate::backend::float::is_zero(bits) {
                        0u8
                    } else {
                        1u8
                    },
                ]
        }
    }

    /// What converting element `i` gives. Single precision to 32-bit whole numbers is a
    /// conversion of its own; all others go through the common representation.
    pub open spec fn converts(
        self,
        input: Seq<u8>,
        from: AiDtype,
        to: AiDtype,
        i: int,
        output: Seq<u8>,
    ) -> bool {
        if from.0 == AiDtype::F32 && to.0 == AiDtype::I32 {
            exists|n: i32| #[trigger]
                self.to_int.ensures((crate::bytes::word_at(input, 4 * i),), n) && output
                    == word_bytes(crate::bytes::word_of_signed(n))
        } else {
            exists|value: ScalarValue| #[trigger]
                self.reads(input, from, i, value) && self.writes(to, value, output)
        }
    }
}

/// Bytes of a word, low byte first.
pub open spec fn word_bytes(word: u32) -> Seq<u8> {
    seq![
        crate::bytes::byte_of(word, 0),
        crate::bytes::byte_of(word, 1),
        crate::bytes::byte_of(word, 2),
        crate::bytes::byte_of(word, 3),
    ]
}

/// Bytes of a half-precision number, low byte first.
pub open spec fn half_bytes(half: u16) -> Seq<u8> {
    seq![crate::backend::float::half_low(half), crate::backend::float::half_high(half)]
}

/// Bytes of a 64-bit number, low byte first.
pub open spec fn long_bytes(n: i64) -> Seq<u8> {
    word_bytes(crate::bytes::low_word(n as u64)) + word_bytes(crate::bytes::high_word(n as u64))
}

fn push_word(output: &mut Vec<u8>, word: u32)
    ensures
        final(output)@ == old(output)@ + word_bytes(word),
{
    let ghost before = output@;
    output.push(word as u8);
    output.push((word >> 8) as u8);
    output.push((word >> 16) as u8);
    output.push((word >> 24) as u8);
    assert(output@ =~= before + word_bytes(word));
}

/// Bytes of one element; types without a fixed width have none.
pub open spec fn width(dtype: AiDtype) -> Option<int> {
    match dtype.element_size() {
        Some(size) => Some(size as int),
        None => None,
    }
}

/// An element ends where the next one starts.
proof fn element_end(index: int, size: int)
    requires
        size == 1 || size == 2 || size == 4 || size == 8,
    ensures
        (index + 1) * size == (if size == 1 {
            index + 1
        } else if size == 2 {
            2 * index + 2
        } else if size == 4 {
            4 * index + 4
        } else {
            8 * index + 8
        }),
{
}

/// Reads one element.
fn read_scalar<
    W: Fn(u16) -> u32,
    N: Fn(u32) -> u16,
    F: Fn(i64) -> u32,
    L: Fn(u32) -> i64,
    I: Fn(u32) -> i32,
>(
    bytes: &[u8],
    dtype: AiDtype,
    index: usize,
    with: &Conversions<W, N, F, L, I>,
) -> (r: Result<ScalarValue, BackendErr>)
    requires
        with.total(),
        convertible(dtype) ==> (index + 1) * width(dtype)->0 <= bytes@.len(),
    ensures
        match r {
            Ok(value) => convertible(dtype) && with.reads(bytes@, dtype, index as int, value),
            Err(err) => err == BackendErr::UnsupportedDtype && !convertible(dtype),
        },
{
    let total: usize = bytes.len();
    proof {
        if convertible(dtype) {
            element_end(index as int, width(dtype)->0);
        }
    }
    if dtype.0 == AiDtype::F32 {
        Ok(ScalarValue::Float(read_word(bytes, 4 * index)))
    } else if dtype.0 == AiDtype::F16 {
        let half: u16 = (bytes[2 * index] as u16) | ((bytes[2 * index + 1] as u16) << 8);
        let wide: u32 = (with.widen)(half);
        Ok(ScalarValue::Float(wide))
    } else if dtype.0 == AiDtype::I8 {
        Ok(ScalarValue::Signed((bytes[index] as i8) as i64))
    } else if dtype.0 == AiDtype::U8 {
        Ok(ScalarValue::Unsigned(bytes[index] as u64))
    } else if dtype.0 == AiDtype::I32 {
        Ok(ScalarValue::Signed(word_to_signed(read_word(bytes, 4 * index)) as i64))
    } else if dtype.0 == AiDtype::I64 {
        let low: u32 = read_word(bytes, 8 * index);
        let high: u32 = read_word(bytes, 8 * index + 4);
        Ok(ScalarValue::Signed(join_halves(low, high) as i64))
    } else if dtype.0 == AiDtype::BOOL {
        Ok(ScalarValue::Bool(bytes[index] != 0))
    } else {
        Err(BackendErr::UnsupportedDtype)
    }
}

/// An element in single precision.
fn float_of<
    W: Fn(u16) -> u32,
    N: Fn(u32) -> u16,
    F: Fn(i64) -> u32,
    L: Fn(u32) -> i64,
    I: Fn(u32) -> i32,
>(value: ScalarValue, with: &Conversions<W, N, F, L, I>) -> (r: u32)
    requires
        with.total(),
    ensures
        with.as_float(value, r),
{
    match value {
        ScalarValue::Float(v) => v,
        ScalarValue::Signed(v) => (with.to_float)(v),
        ScalarValue::Unsigned(v) => (with.to_float)(v as i64),
        ScalarValue::Bool(v) => {
            let number: i64 = if v {
                1
            } else {
                0
            };
            (with.to_float)(number)
        },
    }
}

/// An element as a whole number.
fn long_of<
    W: Fn(u16) -> u32,
    N: Fn(u32) -> u16,
    F: Fn(i64) -> u32,
    L: Fn(u32) -> i64,
    I: Fn(u32) -> i32,
>(value: ScalarValue, with: &Conversions<W, N, F, L, I>) -> (r: i64)
    requires
        with.total(),
    ensures
        with.as_long(value, r),
{
    match value {
        ScalarValue::Float(v) => (with.to_long)(v),
        ScalarValue::Signed(v) => v,
        ScalarValue::Unsigned(v) => v as i64,
        ScalarValue::Bool(v) => if v {
            1
        } else {
            0
        },
    }
}

/// Writes one element to the end of `output`.
fn write_scalar<
    W: Fn(u16) -> u32,
    N: Fn(u32) -> u16,
    F: Fn(i64) -> u32,
    L: Fn(u32) -> i64,
    I: Fn(u32) -> i32,
>(
    output: &mut Vec<u8>,
    dtype: AiDtype,
    value: ScalarValue,
    with: &Conversions<W, N, F, L, I>,
) -> (r: Result<(), BackendErr>)
    requires
        with.total(),
    ensures
        match r {
            Ok(_) => {
                &&& convertible(dtype)
                &&& final(output)@.len() == old(output)@.len() + width(dtype)->0
                &&& final(output)@.subrange(0, old(output)@.len() as int) == old(output)@
                &&& with.writes(
                    dtype,
                    value,
                    final(output)@.subrange(
                        old(output)@.len() as int,
                        final(output)@.len() as int,
                    ),
                )
            },
            Err(err) => err == BackendErr::UnsupportedDtype && !convertible(dtype)
                && final(output)@ == old(output)@,
        },
{
    let ghost before = output@;
    let ghost n = before.len() as int;
    if dtype.0 == AiDtype::F32 {
        let bits: u32 = float_of(value, with);
        push_word(output, bits);
        proof {
            assert(output@.subrange(n, output@.len() as int) =~= word_bytes(bits));
        }
    } else if dtype.0 == AiDtype::F16 {
        let bits: u32 = float_of(value, with);
        let half: u16 = (with.narrow)(bits);
        output.push(half as u8);
        output.push((half >> 8) as u8);
        proof {
            assert(with.as_float(value, bits) && with.narrow.ensures((bits,), half));
            assert(output@.subrange(n, output@.len() as int) =~= half_bytes(half));
        }
    } else if dtype.0 == AiDtype::I8 || dtype.0 == AiDtype::U8 {
        let number: i64 = long_of(value, with);
        output.push(number as u8);
        proof {
            assert(output@.subrange(n, output@.len() as int) =~= seq![number as u8]);
        }
    } else if dtype.0 == AiDtype::I32 {
        let number: i64 = long_of(value, with);
        push_word(output, number as u32);
        proof {
            assert(output@.subrange(n, output@.len() as int) =~= word_bytes(number as u32));
        }
    } else if dtype.0 == AiDtype::I64 {
        let number: i64 = long_of(value, with);
        push_word(output, low_half(number as u64));
        push_word(output, high_half(number as u64));
        proof {
            assert(output@.subrange(n, output@.len() as int) =~= long_bytes(number));
        }
    } else if dtype.0 == AiDtype::BOOL {
        let bits: u32 = float_of(value, with);
        let flag: u8 = if bits & 0x7fff_ffff == 0 {
            0
        } else {
            1
        };
        output.push(flag);
        proof {
            assert(output@.subrange(n, output@.len() as int) =~= seq![flag]);
        }
    } else {
        return Err(BackendErr::UnsupportedDtype);
    }
    assert(output@.subrange(0, n) =~= before);
    Ok(())
}

/// The conversion is refused: the output has no fixed width, or there are elements and one
/// of the types cannot be converted.
pub open spec fn cast_refused(from: AiDtype, to: AiDtype, count: int) -> bool {
    from != to && (width(to) is None || (count > 0 && (!convertible(from) || !convertible(to))))
}

/// Converts a row of elements.
pub fn cast_logical<
    W: Fn(u16) -> u32,
    N: Fn(u32) -> u16,
    F: Fn(i64) -> u32,
    L: Fn(u32) -> i64,
    I: Fn(u32) -> i32,
>(
    input: &[u8],
    from: AiDtype,
    to: AiDtype,
    count: usize,
    with: &Conversions<W, N, F, L, I>,
) -> (r: Result<Vec<u8>, BackendErr>)
    requires
        with.total(),
        width(from) matches Some(size) ==> input@.len() == count * size,
    ensures
        match r {
            Ok(output) => {
                &&& !cast_refused(from, to, count as int)
                &&& if from == to {
                    output@ == input@
                } else {
                    &&& output@.len() == count * width(to)->0
                    &&& forall|i: int|
                        0 <= i < count ==> with.converts(
                            input@,
                            from,
                            to,
                            i,
                            #[trigger] crate::backend::logical::elem(output@, width(to)->0, i),
                        )
                }
            },
            Err(err) => err == BackendErr::UnsupportedDtype && cast_refused(
                from,
                to,
                count as int,
            ),
        },
{
    if from.0 == to.0 {
        return Ok(copy_bytes(input));
    }
    let size: usize = match to.element_size_bytes() {
        Some(size) => size as usize,
        None => {
            return Err(BackendErr::UnsupportedDtype);
        },
    };
    let mut output: Vec<u8> = Vec::new();
    let mut i: usize = 0;
    assert(0 * size == 0);
    while i < count
        invariant
            i <= count,
            from != to,
            with.total(),
            width(to) == Some(size as int),
            size > 0,
            width(from) matches Some(size) ==> input@.len() == count * size,
            i > 0 ==> convertible(from) && convertible(to),
            output@.len() == i * size,
            forall|j: int|
                0 <= j < i ==> with.converts(
                    input@,
                    from,
                    to,
                    j,
                    #[trigger] crate::backend::logical::elem(output@, size as int, j),
                ),
        decreases count - i,
    {
        proof {
            if convertible(from) {
                let w = width(from)->0;
                assert((i + 1) * w <= count * w) by (nonlinear_arith)
                    requires
                        i + 1 <= count,
                        w >= 0,
                ;
            }
        }
        let ghost before = output@;
        if from.0 == AiDtype::F32 && to.0 == AiDtype::I32 {
            let total: usize = input.len();
            let number: i32 = (with.to_int)(read_word(input, 4 * i));
            push_word(&mut output, number as u32);
            proof {
                let last = word_bytes(crate::bytes::word_of_signed(number));
                crate::backend::logical::elements_stay(before, last, size as int, i as int);
                assert(with.converts(input@, from, to, i as int, last));
            }
        } else {
            let value: ScalarValue = read_scalar(input, from, i, with)?;
            write_scalar(&mut output, to, value, with)?;
            proof {
                let last = output@.subrange(before.len() as int, output@.len() as int);
                assert(output@ =~= before + last);
                crate::backend::logical::elements_stay(before, last, size as int, i as int);
                assert(with.reads(input@, from, i as int, value));
                assert(with.converts(input@, from, to, i as int, last));
            }
        }
        i = i + 1;
    }
    Ok(output)
}

/// Copies bytes.
fn copy_bytes(bytes: &[u8]) -> (r: Vec<u8>)
    ensures
        r@ == bytes@,
{
    let mut copy: Vec<u8> = Vec::new();
    let mut i: usize = 0;
    while i < bytes.len()
        invariant
            i <= bytes@.len(),
            copy@ == bytes@.subrange(0, i as int),
        decreases bytes@.len() - i,
    {
        copy.push(bytes[i]);
        assert(copy@ =~= bytes@.subrange(0, i + 1));
        i = i + 1;
    }
    assert(copy@ =~= bytes@);
    copy
}

/// Types that a call may convert between.
pub open spec fn castable(dtype: AiDtype) -> bool {
    dtype.0 == AiDtype::F16 || dtype.0 == AiDtype::I32 || dtype.0 == AiDtype::I64
}

/// A checked conversion.
#[derive(Clone, Copy, Debug)]
pub struct CastPlan {
    /// The input.
    pub input: TensorMeta,
    /// The output.
    pub output: TensorMeta,
    /// Element type of the input.
    pub from: AiDtype,
    /// Element type of the output.
    pub to: AiDtype,
}

impl CastPlan {
    /// The tensors have the same shape and types that can be converted.
    pub open spec fn wf(self) -> bool {
        &&& self.input.wf()
        &&& self.output.wf()
        &&& castable(self.from)
        &&& castable(self.to)
        &&& width(self.from) == Some(self.input.element_size as int)
        &&& width(self.to) == Some(self.output.element_size as int)
        &&& self.input.dims() == self.output.dims()
    }

    /// The bytes of both tensors can be counted.
    pub open spec fn countable(self) -> bool {
        crate::backend::logical::countable(self.input) && crate::backend::logical::countable(
            self.output,
        )
    }
}

/// What is wrong with a call of the conversion, where anything is.
pub open spec fn cast_fault(ctx: CallContext) -> Option<BackendErr> {
    let input = ctx.inputs[0];
    let output = ctx.outputs[0];
    if crate::backend::transform::io_fault(ctx, 1, 1) is Some {
        crate::backend::transform::io_fault(ctx, 1, 1)
    } else {
        match ctx.attr_as::<CastAttr>() {
            None => Some(BackendErr::InvalidAttr),
            Some(attr) => if crate::backend::meta::view_fault(input) is Some {
                crate::backend::meta::view_fault(input)
            } else if crate::backend::meta::view_fault(output) is Some {
                crate::backend::meta::view_fault(output)
            } else if attr.to != output.dtype || crate::backend::meta::view_dims(input)
                != crate::backend::meta::view_dims(output) {
                Some(BackendErr::InvalidTensor)
            } else if !castable(input.dtype) || !castable(output.dtype) {
                Some(BackendErr::UnsupportedDtype)
            } else {
                None
            },
        }
    }
}

/// Checks a call of the conversion.
pub fn check_cast(ctx: &CallContext) -> (r: Result<CastPlan, BackendErr>)
    requires
        ctx.wf(),
    ensures
        match r {
            Ok(plan) => {
                &&& cast_fault(*ctx) is None
                &&& plan.wf()
                &&& crate::backend::call::checked(ctx.inputs[0], plan.input)
                &&& crate::backend::call::checked(ctx.outputs[0], plan.output)
                &&& plan.from == ctx.inputs[0].dtype
                &&& plan.to == ctx.outputs[0].dtype
            },
            Err(err) => cast_fault(*ctx) == Some(err),
        },
{
    ctx.expect_io(1, 1)?;
    ctx.reject_input_output_alias()?;
    let attr: CastAttr = ctx.read_attr::<CastAttr>()?;
    let input: TensorMeta = ctx.inputs[0].checked_meta()?;
    let output: TensorMeta = ctx.outputs[0].checked_meta()?;
    let from: AiDtype = ctx.inputs[0].dtype;
    let to: AiDtype = ctx.outputs[0].dtype;
    if attr.to.0 != to.0 || !same_shape(&input, &output) {
        return Err(BackendErr::InvalidTensor);
    }
    if (from.0 != AiDtype::F16 && from.0 != AiDtype::I32 && from.0 != AiDtype::I64) || (to.0
        != AiDtype::F16 && to.0 != AiDtype::I32 && to.0 != AiDtype::I64) {
        return Err(BackendErr::UnsupportedDtype);
    }
    Ok(CastPlan { input, output, from, to })
}

/// The converted elements in row-major order.
pub open spec fn cast_rows<
    W: Fn(u16) -> u32,
    N: Fn(u32) -> u16,
    F: Fn(i64) -> u32,
    L: Fn(u32) -> i64,
    I: Fn(u32) -> i32,
>(
    with: Conversions<W, N, F, L, I>,
    plan: CastPlan,
    raw: Seq<u8>,
    logical: Seq<u8>,
    converted: Seq<u8>,
) -> bool {
    let size = plan.input.element_size as int;
    &&& logical.len() == plan.input.element_count * size
    &&& forall|i: int|
        0 <= i < plan.input.element_count ==> #[trigger] crate::backend::logical::elem(
            logical,
            size,
            i,
        ) == crate::backend::logical::elem(raw, size, plan.input.place(i as nat) as int)
    &&& if plan.from == plan.to {
        converted == logical
    } else {
        forall|i: int|
            0 <= i < plan.input.element_count ==> with.converts(
                logical,
                plan.from,
                plan.to,
                i,
                #[trigger] crate::backend::logical::elem(
                    converted,
                    plan.output.element_size as int,
                    i,
                ),
            )
    }
}

/// Converts every element of a tensor. Tensors whose bytes cannot be counted are refused.
pub fn run_cast<
    W: Fn(u16) -> u32,
    N: Fn(u32) -> u16,
    F: Fn(i64) -> u32,
    L: Fn(u32) -> i64,
    I: Fn(u32) -> i32,
>(plan: &CastPlan, raw: &[u8], output: &mut [u8], with: &Conversions<W, N, F, L, I>) -> (r: Result<
    (),
    BackendErr,
>)
    requires
        plan.wf(),
        plan.input.lies_in(raw@.len() as int / (plan.input.element_size as int)),
        plan.output.lies_in(old(output)@.len() as int / (plan.output.element_size as int)),
        with.total(),
    ensures
        match r {
            Ok(_) => plan.countable() && exists|logical: Seq<u8>, converted: Seq<u8>|
                {
                    &&& #[trigger] cast_rows(*with, *plan, raw@, logical, converted)
                    &&& crate::backend::logical::scattered(
                        plan.output,
                        crate::backend::logical::rows_of(
                            converted,
                            plan.output.element_size as int,
                        ),
                        plan.output.element_count as int,
                        old(output)@,
                        final(output)@,
                    )
                },
            Err(err) => {
                &&& !plan.countable()
                &&& err == BackendErr::InvalidTensor
                &&& final(output)@ == old(output)@
            },
        },
{
    if plan.output.element_count.checked_mul(plan.output.element_size).is_none() {
        return Err(BackendErr::InvalidTensor);
    }
    assert(plan.input.dims().len() == plan.output.dims().len());
    assert(plan.input.element_count == plan.output.element_count);
    let logical: Vec<u8> = read_logical_bytes(raw, &plan.input)?;
    let held: usize = logical.len();
    let converted: Vec<u8> = cast_logical(
        &logical,
        plan.from,
        plan.to,
        plan.input.element_count,
        with,
    )?;
    assert(cast_rows(*with, *plan, raw@, logical@, converted@));
    write_logical_bytes(&converted, output, &plan.output)
}


/// Whole numbers keep their value where they are made longer, and the low half of it where
/// they are made shorter.
pub proof fn whole_numbers_convert<
    W: Fn(u16) -> u32,
    N: Fn(u32) -> u16,
    F: Fn(i64) -> u32,
    L: Fn(u32) -> i64,
    I: Fn(u32) -> i32,
>(
    with: Conversions<W, N, F, L, I>,
    input: Seq<u8>,
    i: int,
    longer: Seq<u8>,
    shorter: Seq<u8>,
)
    requires
        with.converts(input, AiDtype(AiDtype::I32), AiDtype(AiDtype::I64), i, longer),
        with.converts(input, AiDtype(AiDtype::I64), AiDtype(AiDtype::I32), i, shorter),
    ensures
        longer.len() == 8,
        crate::backend::gather::index_value(longer, AiDtype(AiDtype::I64), 0)
            == crate::backend::gather::index_value(input, AiDtype(AiDtype::I32), i),
        shorter.len() == 4,
        crate::bytes::word_at(shorter, 0) == crate::backend::gather::index_value(
            input,
            AiDtype(AiDtype::I64),
            i,
        ) as u32,
{
    let v = crate::backend::gather::index_value(input, AiDtype(AiDtype::I32), i);
    assert(longer == long_bytes(v)) by {
        let value = choose|value: ScalarValue| #[trigger]
            with.reads(input, AiDtype(AiDtype::I32), i, value) && with.writes(
                AiDtype(AiDtype::I64),
                value,
                longer,
            );
        assert(value == ScalarValue::Signed(v));
    }
    broadcast use crate::bytes::word_of_bytes;

    crate::backend::gather::long_survives_words(v);
    let (lo, hi) = (crate::bytes::low_word(v as u64), crate::bytes::high_word(v as u64));
    assert(longer[0] == crate::bytes::byte_of(lo, 0) && longer[1] == crate::bytes::byte_of(lo, 1)
        && longer[2] == crate::bytes::byte_of(lo, 2) && longer[3] == crate::bytes::byte_of(lo, 3));
    assert(longer[4] == crate::bytes::byte_of(hi, 0) && longer[5] == crate::bytes::byte_of(hi, 1)
        && longer[6] == crate::bytes::byte_of(hi, 2) && longer[7] == crate::bytes::byte_of(hi, 3));
    assert(crate::bytes::word_at(longer, 0) == lo);
    assert(crate::bytes::word_at(longer, 4) == hi);
    let w = crate::backend::gather::index_value(input, AiDtype(AiDtype::I64), i);
    assert(shorter == word_bytes(w as u32)) by {
        let value = choose|value: ScalarValue| #[trigger]
            with.reads(input, AiDtype(AiDtype::I64), i, value) && with.writes(
                AiDtype(AiDtype::I32),
                value,
                shorter,
            );
        assert(value == ScalarValue::Signed(w));
    }
}


/// A conversion keeps elements at their coordinates: each is converted where it stands, and
/// between equal types it is copied.
pub proof fn converted_elements_keep_their_coordinates<
    W: Fn(u16) -> u32,
    N: Fn(u32) -> u16,
    F: Fn(i64) -> u32,
    L: Fn(u32) -> i64,
    I: Fn(u32) -> i32,
>(
    with: Conversions<W, N, F, L, I>,
    plan: CastPlan,
    raw: Seq<u8>,
    logical: Seq<u8>,
    converted: Seq<u8>,
    before: Seq<u8>,
    after: Seq<u8>,
    coords: Seq<nat>,
)
    requires
        plan.wf(),
        crate::backend::logical::spread(plan.output),
        cast_rows(with, plan, raw, logical, converted),
        crate::backend::logical::scattered(
            plan.output,
            crate::backend::logical::rows_of(converted, plan.output.element_size as int),
            plan.output.element_count as int,
            before,
            after,
        ),
        crate::backend::meta::coords_within(plan.input.dims(), coords),
    ensures
        ({
            let i = crate::backend::meta::linear_of(
                plan.input.dims(),
                coords,
                plan.input.rank as int,
            ) as int;
            let size = plan.input.element_size;
            &&& logical.subrange(i * size, i * size + size) == crate::backend::logical::at_coords(
                raw,
                plan.input,
                coords,
            )
            &&& plan.from == plan.to ==> crate::backend::logical::at_coords(
                after,
                plan.output,
                coords,
            ) == crate::backend::logical::at_coords(raw, plan.input, coords)
            &&& plan.from != plan.to ==> with.converts(
                logical,
                plan.from,
                plan.to,
                i,
                crate::backend::logical::at_coords(after, plan.output, coords),
            )
        }),
{
    let i = crate::backend::meta::linear_of(plan.input.dims(), coords, plan.input.rank as int);
    assert(plan.input.rank == plan.input.dims().len());
    assert(plan.output.rank == plan.output.dims().len());
    crate::backend::meta::linear_is_within(plan.input.dims(), coords, plan.input.rank as int);
    crate::backend::meta::coords_survive_linear(plan.input.dims(), coords);
    crate::backend::logical::written_element_is_found(
        plan.output,
        crate::backend::logical::rows_of(converted, plan.output.element_size as int),
        before,
        after,
        coords,
    );
    let size = plan.input.element_size as int;
    assert(crate::backend::logical::elem(logical, size, i as int) == crate::backend::logical::elem(
        raw,
        size,
        plan.input.place(i) as int,
    ));
    if plan.from != plan.to {
        assert(with.converts(
            logical,
            plan.from,
            plan.to,
            i as int,
            crate::backend::logical::elem(converted, plan.output.element_size as int, i as int),
        ));
    }
}

} // verus!
