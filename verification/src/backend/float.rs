//! Half-precision tensors as rows of single-precision bit patterns, and back.

use crate::backend::logical::write_logical_bytes;
use crate::backend::meta::TensorMeta;
use crate::uabi::error::BackendErr;
use vstd::prelude::*;

verus! {

/// Bits of positive one in single precision.
pub const ONE_BITS: u32 = 0x3f80_0000;

/// Bits of negative infinity in single precision.
pub const NEG_INFINITY_BITS: u32 = 0xff80_0000;

/// The half-precision number at place `p` of a buffer, low byte first.
pub open spec fn half_at(raw: Seq<u8>, p: int) -> u16 {
    (raw[2 * p] as u16) | ((raw[2 * p + 1] as u16) << 8)
}

/// Low byte of a half-precision number.
pub open spec fn half_low(h: u16) -> u8 {
    h as u8
}

/// High byte of a half-precision number.
pub open spec fn half_high(h: u16) -> u8 {
    (h >> 8) as u8
}

/// A half-precision number is made of its bytes.
proof fn half_of_bytes(h: u16)
    ensures
        (half_low(h) as u16) | ((half_high(h) as u16) << 8) == h,
{
    assert(((h as u8) as u16) | ((((h >> 8) as u8) as u16) << 8) == h) by (bit_vector);
}

/// Zero of either sign.
pub open spec fn is_zero(bits: u32) -> bool {
    bits & 0x7fff_ffff == 0
}

/// A number that is zero or below. What is not a number is not.
pub open spec fn at_most_zero(bits: u32) -> bool {
    is_zero(bits) || (bits & 0x8000_0000 != 0 && bits & 0x7fff_ffff <= 0x7f80_0000)
}

/// A parameter, or what stands for it where it is zero.
pub open spec fn unless_zero(bits: u32, default: u32) -> u32 {
    if is_zero(bits) {
        default
    } else {
        bits
    }
}

/// A parameter, or what stands for it where it is zero.
pub fn or_default(bits: u32, default: u32) -> (r: u32)
    ensures
        r == unless_zero(bits, default),
{
    if bits & 0x7fff_ffff == 0 {
        default
    } else {
        bits
    }
}

/// Whether a number is zero or below.
pub fn not_positive(bits: u32) -> (r: bool)
    ensures
        r == at_most_zero(bits),
{
    bits & 0x7fff_ffff == 0 || (bits & 0x8000_0000 != 0 && bits & 0x7fff_ffff <= 0x7f80_0000)
}

/// A tensor of half-precision numbers.
pub open spec fn halves(meta: TensorMeta) -> bool {
    meta.wf() && meta.element_size == 2
}

/// The numbers of a tensor in row-major order, widened one by one.
pub open spec fn widened<W: Fn(u16) -> u32>(
    widen: W,
    raw: Seq<u8>,
    meta: TensorMeta,
    values: Seq<u32>,
) -> bool {
    &&& values.len() == meta.element_count
    &&& forall|i: int|
        0 <= i < values.len() ==> widen.ensures(
            (half_at(raw, meta.place(i as nat) as int),),
            #[trigger] values[i],
        )
}

/// Reads the numbers of a tensor in row-major order and widens them. Tensors whose bytes
/// cannot be counted are refused.
pub fn read_float_tensor<W: Fn(u16) -> u32>(raw: &[u8], meta: &TensorMeta, widen: &W) -> (r: Result<
    Vec<u32>,
    BackendErr,
>)
    requires
        halves(*meta),
        meta.lies_in(raw@.len() as int / 2),
        forall|h: u16| #[trigger] widen.requires((h,)),
    ensures
        match r {
            Ok(values) => crate::backend::logical::countable(*meta) && widened(
                *widen,
                raw@,
                *meta,
                values@,
            ),
            Err(err) => err == BackendErr::InvalidTensor && !crate::backend::logical::countable(
                *meta,
            ),
        },
{
    if meta.element_count.checked_mul(meta.element_size).is_none() {
        return Err(BackendErr::InvalidTensor);
    }
    let total: usize = raw.len();
    let mut values: Vec<u32> = Vec::new();
    let mut linear: usize = 0;
    while linear < meta.element_count
        invariant
            linear <= meta.element_count,
            values@.len() == linear,
            halves(*meta),
            meta.lies_in(raw@.len() as int / 2),
            raw@.len() <= usize::MAX,
            forall|h: u16| #[trigger] widen.requires((h,)),
            forall|i: int|
                0 <= i < linear ==> widen.ensures(
                    (half_at(raw@, meta.place(i as nat) as int),),
                    #[trigger] values@[i],
                ),
        decreases meta.element_count - linear,
    {
        let place: usize = match meta.offset_for_linear(linear) {
            Ok(place) => place,
            Err(_) => 0,
        };
        proof {
            crate::backend::logical::place_within(*meta, linear as nat, raw@.len() as int);
        }
        let half: u16 = (raw[2 * place] as u16) | ((raw[2 * place + 1] as u16) << 8);
        values.push(widen(half));
        linear = linear + 1;
    }
    Ok(values)
}

/// The numbers were narrowed one by one and written in row-major order; nothing else
/// changed.
pub open spec fn narrowed<N: Fn(u32) -> u16>(
    narrow: N,
    values: Seq<u32>,
    meta: TensorMeta,
    before: Seq<u8>,
    after: Seq<u8>,
) -> bool {
    &&& after.len() == before.len()
    &&& forall|i: int|
        0 <= i < meta.element_count && #[trigger] crate::backend::logical::lasting(
            meta,
            meta.element_count as int,
            i,
        ) ==> narrow.ensures((values[i],), half_at(after, meta.place(i as nat) as int))
    &&& forall|b: int|
        0 <= b < after.len() && crate::backend::logical::untouched(
            meta,
            meta.element_count as int,
            b,
        ) ==> #[trigger] after[b] == before[b]
}

/// Narrows numbers and writes them to a tensor in row-major order. As many numbers are
/// needed as the tensor has elements.
pub fn write_float_tensor<N: Fn(u32) -> u16>(
    values: &[u32],
    output: &mut [u8],
    meta: &TensorMeta,
    narrow: &N,
) -> (r: Result<(), BackendErr>)
    requires
        halves(*meta),
        meta.lies_in(old(output)@.len() as int / 2),
        forall|v: u32| #[trigger] narrow.requires((v,)),
    ensures
        match r {
            Ok(_) => {
                &&& crate::backend::logical::countable(*meta)
                &&& values@.len() == meta.element_count
                &&& narrowed(*narrow, values@, *meta, old(output)@, final(output)@)
            },
            Err(err) => {
                &&& err == BackendErr::InvalidTensor
                &&& !crate::backend::logical::countable(*meta) || values@.len()
                    != meta.element_count
                &&& final(output)@ == old(output)@
            },
        },
{
    let count: usize = values.len();
    if count != meta.element_count || count.checked_mul(meta.element_size).is_none() {
        return Err(BackendErr::InvalidTensor);
    }
    let mut bytes: Vec<u8> = Vec::new();
    let mut i: usize = 0;
    while i < count
        invariant
            i <= count == values@.len(),
            bytes@.len() == 2 * i,
            forall|v: u32| #[trigger] narrow.requires((v,)),
            forall|j: int|
                0 <= j < i ==> #[trigger] narrow.ensures((values@[j],), half_at(bytes@, j)),
        decreases count - i,
    {
        let half: u16 = narrow(values[i]);
        let ghost so_far = bytes@;
        bytes.push(half as u8);
        bytes.push((half >> 8) as u8);
        proof {
            half_of_bytes(half);
            assert(half_at(bytes@, i as int) == half);
            assert forall|j: int| 0 <= j < i + 1 implies #[trigger] narrow.ensures(
                (values@[j],),
                half_at(bytes@, j),
            ) by {
                if j < i {
                    assert(narrow.ensures((values@[j],), half_at(so_far, j)));
                    assert(half_at(bytes@, j) == half_at(so_far, j));
                }
            }
        }
        i = i + 1;
    }
    let ghost before = output@;
    let written = write_logical_bytes(&bytes, output, meta);
    proof {
        let size = 2int;
        let n = meta.element_count as int;
        assert forall|i: int|
            0 <= i < n && #[trigger] crate::backend::logical::lasting(
                *meta,
                n,
                i,
            ) implies narrow.ensures(
            (values@[i],),
            half_at(output@, meta.place(i as nat) as int),
        ) by {
            let p = meta.place(i as nat) as int;
            crate::backend::logical::place_within(*meta, i as nat, before.len() as int);
            let from = crate::backend::logical::elem(bytes@, size, i);
            let to = crate::backend::logical::elem(output@, size, p);
            assert(crate::backend::logical::rows_of(bytes@, size)(i) == from);
            assert(to == from);
            assert(to[0] == output@[2 * p] && to[1] == output@[2 * p + 1]);
            assert(from[0] == bytes@[2 * i] && from[1] == bytes@[2 * i + 1]);
            assert(narrow.ensures((values@[i],), half_at(bytes@, i)));
        }
    }
    written
}


/// The bytes of a half-precision number stand low byte first.
pub proof fn low_byte_of_half_comes_first(raw: Seq<u8>, p: int)
    ensures
        half_at(raw, p) == raw[2 * p] + 0x100 * raw[2 * p + 1],
{
    let (lo, hi) = (raw[2 * p], raw[2 * p + 1]);
    assert((lo as u16) | ((hi as u16) << 8) == lo + 0x100 * hi) by (bit_vector);
}

/// What counts as zero is zero of either sign, and what counts as zero or below is that or a
/// number with the sign bit up to negative infinity.
pub proof fn zero_has_two_signs(bits: u32)
    ensures
        is_zero(bits) == (bits == 0 || bits == 0x8000_0000),
        at_most_zero(bits) == (bits == 0 || 0x8000_0000 <= bits <= 0xff80_0000),
{
    assert((bits & 0x7fff_ffff == 0) == (bits == 0 || bits == 0x8000_0000)) by (bit_vector);
    assert((bits & 0x8000_0000 != 0 && bits & 0x7fff_ffff <= 0x7f80_0000) == (0x8000_0000 <= bits
        && bits <= 0xff80_0000)) by (bit_vector);
}


/// A tensor is read and written by coordinates: the number at a position is that of the
/// coordinates of the position, wherever the strides put it.
pub proof fn numbers_stand_at_their_coordinates<W: Fn(u16) -> u32, N: Fn(u32) -> u16>(
    widen: W,
    narrow: N,
    input: TensorMeta,
    raw: Seq<u8>,
    wide: Seq<u32>,
    output: TensorMeta,
    values: Seq<u32>,
    before: Seq<u8>,
    after: Seq<u8>,
    from: Seq<nat>,
    to: Seq<nat>,
)
    requires
        input.wf(),
        output.wf(),
        crate::backend::logical::spread(output),
        widened(widen, raw, input, wide),
        narrowed(narrow, values, output, before, after),
        crate::backend::meta::coords_within(input.dims(), from),
        crate::backend::meta::coords_within(output.dims(), to),
    ensures
        widen.ensures(
            (half_at(
                raw,
                crate::backend::meta::place_of(input.steps(), from, input.rank as int) as int,
            ),),
            wide[crate::backend::meta::linear_of(input.dims(), from, input.rank as int) as int],
        ),
        narrow.ensures(
            (values[crate::backend::meta::linear_of(
                output.dims(),
                to,
                output.rank as int,
            ) as int],),
            half_at(
                after,
                crate::backend::meta::place_of(output.steps(), to, output.rank as int) as int,
            ),
        ),
{
    let i = crate::backend::meta::linear_of(input.dims(), from, input.rank as int);
    crate::backend::meta::linear_is_within(input.dims(), from, input.rank as int);
    crate::backend::meta::coords_survive_linear(input.dims(), from);
    assert(widen.ensures((half_at(raw, input.place(i) as int),), wide[i as int]));
    let j = crate::backend::meta::linear_of(output.dims(), to, output.rank as int);
    crate::backend::meta::linear_is_within(output.dims(), to, output.rank as int);
    crate::backend::meta::coords_survive_linear(output.dims(), to);
    assert(crate::backend::logical::lasting(output, output.element_count as int, j as int));
}

} // verus!
