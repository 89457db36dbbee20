//! Elements of a tensor as bytes: reading them in row-major order, moving them and writing
//! them back.

use crate::backend::meta::TensorMeta;
use crate::uabi::error::BackendErr;
use crate::uabi::kernel::AiTargetHint;
use vstd::prelude::*;

verus! {

/// The bytes of element `i`.
pub open spec fn elem(bytes: Seq<u8>, size: int, i: int) -> Seq<u8> {
    bytes.subrange(i * size, i * size + size)
}

/// Among the first `n` elements, none after `i` lies at the place of `i`.
pub open spec fn lasting(meta: TensorMeta, n: int, i: int) -> bool {
    forall|j: int| i < j < n ==> #[trigger] meta.place(j as nat) != meta.place(i as nat)
}

/// Byte `b` belongs to none of the first `n` elements.
pub open spec fn untouched(meta: TensorMeta, n: int, b: int) -> bool {
    forall|j: int|
        0 <= j < n ==> #[trigger] meta.place(j as nat) != b / (meta.element_size as int)
}

/// The first `n` elements were written, in order; nothing else changed.
pub open spec fn scattered(
    meta: TensorMeta,
    source: spec_fn(int) -> Seq<u8>,
    n: int,
    before: Seq<u8>,
    after: Seq<u8>,
) -> bool {
    &&& after.len() == before.len()
    &&& forall|i: int|
        0 <= i < n && #[trigger] lasting(meta, n, i) ==> elem(
            after,
            meta.element_size as int,
            meta.place(i as nat) as int,
        ) == source(i)
    &&& forall|b: int|
        0 <= b < after.len() && untouched(meta, n, b) ==> #[trigger] after[b] == before[b]
}

/// The elements of a row-major byte sequence.
pub open spec fn rows_of(bytes: Seq<u8>, size: int) -> spec_fn(int) -> Seq<u8> {
    |i: int| elem(bytes, size, i)
}

/// Element sizes that a vector unit can move.
pub open spec fn movable(size: int) -> bool {
    size == 1 || size == 2 || size == 4 || size == 8
}

/// The target has a vector unit.
pub open spec fn vectors(target: AiTargetHint) -> bool {
    target.0 == AiTargetHint::PREFER_X100 || target.0 == AiTargetHint::PREFER_A100
}

/// Whether the target has a vector unit.
pub fn vector_target(target: AiTargetHint) -> (r: bool)
    ensures
        r == vectors(target),
{
    target.0 == AiTargetHint::PREFER_X100 || target.0 == AiTargetHint::PREFER_A100
}

/// The bytes of an element within reach lie within the buffer.
pub proof fn element_within(size: int, place: int, len: int)
    requires
        size > 0,
        0 <= place < len / size,
        len >= 0,
    ensures
        0 <= place * size,
        place * size + size <= len,
        place * size <= len,
{
    assert(place * size + size <= len) by (nonlinear_arith)
        requires
            size > 0,
            0 <= place < len / size,
            len >= 0,
    ;
    assert(0 <= place * size) by (nonlinear_arith)
        requires
            size > 0,
            0 <= place,
    ;
}

/// Copies one element to the end of `output`.
pub fn push_element(output: &mut Vec<u8>, source: &[u8], from: usize, size: usize)
    requires
        from + size <= source@.len(),
    ensures
        final(output)@ == old(output)@ + source@.subrange(from as int, from + size),
{
    let total: usize = source.len();
    let ghost before = output@;
    let mut k: usize = 0;
    while k < size
        invariant
            k <= size,
            from + size <= source@.len() <= usize::MAX,
            output@ == before + source@.subrange(from as int, from + k),
        decreases size - k,
    {
        output.push(source[from + k]);
        assert(source@.subrange(from as int, from + k).push(source@[from + k]) =~= source@.subrange(
            from as int,
            from + k + 1,
        ));
        assert(output@ =~= before + source@.subrange(from as int, from + k + 1));
        k = k + 1;
    }
    assert(before + source@.subrange(from as int, from as int) =~= before);
}

/// Copies one element into `output`.
fn put_element(output: &mut [u8], at: usize, source: &[u8], from: usize, size: usize)
    requires
        from + size <= source@.len(),
        at + size <= old(output)@.len(),
    ensures
        final(output)@.len() == old(output)@.len(),
        forall|b: int|
            0 <= b < final(output)@.len() ==> #[trigger] final(output)@[b] == (if at <= b < at
                + size {
                source@[from + b - at]
            } else {
                old(output)@[b]
            }),
{
    let total: usize = source.len();
    let length: usize = output.len();
    let ghost before = output@;
    let mut k: usize = 0;
    while k < size
        invariant
            k <= size,
            from + size <= source@.len() <= usize::MAX,
            at + size <= before.len() <= usize::MAX,
            output@.len() == before.len(),
            forall|b: int|
                0 <= b < output@.len() ==> #[trigger] output@[b] == (if at <= b < at + k {
                    source@[from + b - at]
                } else {
                    before[b]
                }),
        decreases size - k,
    {
        output[at + k] = source[from + k];
        k = k + 1;
    }
}

/// The elements of a growing sequence stay where they are.
pub proof fn elements_stay(bytes: Seq<u8>, next: Seq<u8>, size: int, n: int)
    requires
        size > 0,
        n >= 0,
        bytes.len() == n * size,
        next.len() == size,
    ensures
        (bytes + next).len() == (n + 1) * size,
        elem(bytes + next, size, n) == next,
        forall|i: int|
            0 <= i < n ==> #[trigger] elem(bytes + next, size, i) == elem(bytes, size, i),
{
    assert((n + 1) * size == n * size + size) by (nonlinear_arith);
    assert(elem(bytes + next, size, n) =~= next);
    assert forall|i: int| 0 <= i < n implies #[trigger] elem(bytes + next, size, i) == elem(
        bytes,
        size,
        i,
    ) by {
        assert(0 <= i * size && i * size + size <= n * size) by (nonlinear_arith)
            requires
                0 <= i < n,
                size > 0,
        ;
        assert(elem(bytes + next, size, i) =~= elem(bytes, size, i));
    }
}

/// Picks elements by byte offset.
pub fn gather_logical(
    source: &[u8],
    offsets: &[u64],
    element_size: usize,
    target: AiTargetHint,
) -> (r: Result<Vec<u8>, BackendErr>)
    requires
        element_size > 0,
    ensures
        match r {
            Ok(bytes) => {
                &&& vectors(target) ==> movable(element_size as int)
                &&& bytes@.len() == offsets@.len() * element_size
                &&& forall|i: int|
                    0 <= i < offsets@.len() ==> #[trigger] offsets@[i] + element_size
                        <= source@.len()
                &&& forall|i: int|
                    0 <= i < offsets@.len() ==> #[trigger] elem(bytes@, element_size as int, i)
                        == source@.subrange(offsets@[i] as int, offsets@[i] + element_size)
            },
            Err(err) => {
                &&& err == BackendErr::InvalidTensor
                &&& {
                    ||| vectors(target) && !movable(element_size as int)
                    ||| offsets@.len() * element_size > usize::MAX
                    ||| exists|i: int|
                        0 <= i < offsets@.len() && #[trigger] offsets@[i] + element_size
                            > source@.len()
                }
            },
        },
{
    if vector_target(target) && element_size != 1 && element_size != 2 && element_size != 4
        && element_size != 8 {
        return Err(BackendErr::InvalidTensor);
    }
    let count: usize = offsets.len();
    if count.checked_mul(element_size).is_none() {
        return Err(BackendErr::InvalidTensor);
    }
    let total: usize = source.len();
    let mut output: Vec<u8> = Vec::new();
    let mut i: usize = 0;
    assert(0 * element_size == 0);
    while i < offsets.len()
        invariant
            i <= offsets@.len(),
            total == source@.len(),
            element_size > 0,
            output@.len() == i * element_size,
            vectors(target) ==> movable(element_size as int),
            forall|j: int|
                0 <= j < i ==> #[trigger] offsets@[j] + element_size <= source@.len(),
            forall|j: int|
                0 <= j < i ==> #[trigger] elem(output@, element_size as int, j)
                    == source@.subrange(offsets@[j] as int, offsets@[j] + element_size),
        decreases offsets@.len() - i,
    {
        let offset: u64 = offsets[i];
        if element_size > total || offset > (total - element_size) as u64 {
            assert(offsets@[i as int] + element_size > source@.len());
            return Err(BackendErr::InvalidTensor);
        }
        proof {
            elements_stay(
                output@,
                source@.subrange(offset as int, offset + element_size),
                element_size as int,
                i as int,
            );
        }
        push_element(&mut output, source, offset as usize, element_size);
        i = i + 1;
    }
    Ok(output)
}

/// Every element of a checked tensor has its bytes within the buffer.
pub proof fn place_within(meta: TensorMeta, linear: nat, len: int)
    requires
        meta.wf(),
        meta.lies_in(len / (meta.element_size as int)),
        linear < meta.element_count,
        len >= 0,
    ensures
        meta.place(linear) < len / (meta.element_size as int),
        0 <= meta.place(linear) * meta.element_size,
        meta.place(linear) * meta.element_size + meta.element_size <= len,
{
    crate::backend::meta::coords_are_within(meta.dims(), linear);
    meta.place_within_reach(
        crate::backend::meta::coords_of(meta.dims(), linear),
        meta.rank as int,
    );
    element_within(meta.element_size as int, meta.place(linear) as int, len);
}

/// Reads the elements of a tensor in row-major order.
pub fn read_logical_bytes(raw: &[u8], meta: &TensorMeta) -> (r: Result<Vec<u8>, BackendErr>)
    requires
        meta.wf(),
        meta.lies_in(raw@.len() as int / (meta.element_size as int)),
    ensures
        match r {
            Ok(bytes) => {
                &&& bytes@.len() == meta.element_count * meta.element_size
                &&& forall|i: int|
                    0 <= i < meta.element_count ==> #[trigger] elem(
                        bytes@,
                        meta.element_size as int,
                        i,
                    ) == elem(raw@, meta.element_size as int, meta.place(i as nat) as int)
            },
            Err(err) => err == BackendErr::InvalidTensor && meta.element_count
                * meta.element_size > usize::MAX,
        },
{
    let count: usize = meta.element_count;
    let size: usize = meta.element_size;
    if count.checked_mul(size).is_none() {
        return Err(BackendErr::InvalidTensor);
    }
    let total: usize = raw.len();
    let mut output: Vec<u8> = Vec::new();
    assert(0 * size == 0);
    let mut linear: usize = 0;
    while linear < count
        invariant
            linear <= count,
            count == meta.element_count,
            size == meta.element_size,
            size > 0,
            meta.wf(),
            meta.lies_in(raw@.len() as int / (meta.element_size as int)),
            raw@.len() <= usize::MAX,
            output@.len() == linear * size,
            forall|i: int|
                0 <= i < linear ==> #[trigger] elem(output@, size as int, i) == elem(
                    raw@,
                    size as int,
                    meta.place(i as nat) as int,
                ),
        decreases count - linear,
    {
        match meta.offset_for_linear(linear) {
            Ok(place) => {
                proof {
                    place_within(*meta, linear as nat, raw@.len() as int);
                    elements_stay(
                        output@,
                        elem(raw@, size as int, place as int),
                        size as int,
                        linear as int,
                    );
                }
                push_element(&mut output, raw, place * size, size);
            },
            Err(err) => {
                return Err(err);
            },
        }
        linear = linear + 1;
    }
    Ok(output)
}

/// Two elements of the same size lie apart unless their places are equal.
proof fn elements_apart(size: int, a: int, b: int, byte: int)
    requires
        size > 0,
        a != b,
        a * size <= byte < a * size + size,
    ensures
        !(b * size <= byte < b * size + size),
{
    if a < b {
        assert(a * size + size <= b * size) by (nonlinear_arith)
            requires
                a + 1 <= b,
                size > 0,
        ;
    } else {
        assert(b * size + size <= a * size) by (nonlinear_arith)
            requires
                b + 1 <= a,
                size > 0,
        ;
    }
}

/// Writing one more element.
pub proof fn scatter_one(
    meta: TensorMeta,
    source: spec_fn(int) -> Seq<u8>,
    n: int,
    before: Seq<u8>,
    now: Seq<u8>,
    after: Seq<u8>,
)
    requires
        meta.wf(),
        meta.lies_in(before.len() as int / (meta.element_size as int)),
        0 <= n < meta.element_count,
        scattered(meta, source, n, before, now),
        after.len() == now.len(),
        source(n).len() == meta.element_size,
        forall|b: int|
            0 <= b < now.len() ==> #[trigger] after[b] == (if meta.place(n as nat)
                * meta.element_size <= b < meta.place(n as nat) * meta.element_size
                + meta.element_size {
                source(n)[b - meta.place(n as nat) * meta.element_size]
            } else {
                now[b]
            }),
    ensures
        scattered(meta, source, n + 1, before, after),
{
    let size = meta.element_size as int;
    let at = meta.place(n as nat) as int;
    place_within(meta, n as nat, before.len() as int);
    assert forall|i: int| 0 <= i < n + 1 && #[trigger] lasting(meta, n + 1, i) implies elem(
        after,
        size,
        meta.place(i as nat) as int,
    ) == source(i) by {
        if i == n {
            assert(elem(after, size, at) =~= source(n));
        } else {
            let place = meta.place(i as nat) as int;
            assert(meta.place(n as nat) != meta.place(i as nat));
            assert(lasting(meta, n, i)) by {
                assert forall|j: int| i < j < n implies #[trigger] meta.place(j as nat)
                    != meta.place(i as nat) by {}
            }
            place_within(meta, i as nat, before.len() as int);
            assert(elem(after, size, place) =~= elem(now, size, place)) by {
                assert forall|b: int| place * size <= b < place * size + size implies #[trigger]
                    after[b] == now[b] by {
                    elements_apart(size, place, at, b);
                }
            }
        }
    }
    assert forall|b: int|
        0 <= b < after.len() && untouched(meta, n + 1, b) implies #[trigger] after[b]
        == before[b] by {
        assert(meta.place(n as nat) != b / size);
        vstd::arithmetic::div_mod::lemma_fundamental_div_mod(b, size);
        vstd::arithmetic::div_mod::lemma_mod_bound(b, size);
        let own = b / size;
        assert(own * size == size * own) by (nonlinear_arith);
        elements_apart(size, own, at, b);
        assert(untouched(meta, n, b)) by {
            assert forall|j: int| 0 <= j < n implies #[trigger] meta.place(j as nat) != b
                / size by {}
        }
        assert(now[b] == before[b]);
    }
}

/// Writes elements in row-major order to a tensor.
pub fn write_logical_bytes(logical: &[u8], output: &mut [u8], meta: &TensorMeta) -> (r: Result<
    (),
    BackendErr,
>)
    requires
        meta.wf(),
        meta.lies_in(old(output)@.len() as int / (meta.element_size as int)),
    ensures
        match r {
            Ok(_) => {
                &&& logical@.len() == meta.element_count * meta.element_size
                &&& scattered(
                    *meta,
                    rows_of(logical@, meta.element_size as int),
                    meta.element_count as int,
                    old(output)@,
                    final(output)@,
                )
            },
            Err(err) => {
                &&& err == BackendErr::InvalidTensor
                &&& logical@.len() != meta.element_count * meta.element_size
                &&& final(output)@ == old(output)@
            },
        },
{
    let count: usize = meta.element_count;
    let size: usize = meta.element_size;
    let given: usize = logical.len();
    match count.checked_mul(size) {
        Some(needed) => if given != needed {
            return Err(BackendErr::InvalidTensor);
        },
        None => {
            return Err(BackendErr::InvalidTensor);
        },
    }
    let length: usize = output.len();
    let ghost before = output@;
    let ghost source = rows_of(logical@, size as int);
    let mut linear: usize = 0;
    while linear < count
        invariant
            linear <= count,
            count == meta.element_count,
            size == meta.element_size,
            size > 0,
            meta.wf(),
            meta.lies_in(before.len() as int / (meta.element_size as int)),
            logical@.len() == count * size,
            logical@.len() <= usize::MAX,
            before.len() <= usize::MAX,
            output@.len() == before.len(),
            source == rows_of(logical@, size as int),
            scattered(*meta, source, linear as int, before, output@),
        decreases count - linear,
    {
        match meta.offset_for_linear(linear) {
            Ok(place) => {
                let ghost now = output@;
                proof {
                    place_within(*meta, linear as nat, before.len() as int);
                    assert(0 <= linear * size && linear * size + size <= count * size)
                        by (nonlinear_arith)
                        requires
                            0 <= linear < count,
                            size > 0,
                    ;
                }
                put_element(output, place * size, logical, linear * size, size);
                proof {
                    assert(source(linear as int) == elem(logical@, size as int, linear as int));
                    scatter_one(*meta, source, linear as int, before, now, output@);
                }
            },
            Err(_) => {},
        }
        linear = linear + 1;
    }
    Ok(())
}

/// Position of coordinates in row-major order.
pub fn row_major_linear(meta: &TensorMeta, coordinates: &[usize; 8]) -> (r: Result<
    usize,
    BackendErr,
>)
    requires
        meta.wf(),
    ensures
        match r {
            Ok(linear) => {
                let coords = crate::backend::meta::as_coords(*coordinates, meta.rank as int);
                &&& crate::backend::meta::coords_within(meta.dims(), coords)
                &&& linear == crate::backend::meta::linear_of(
                    meta.dims(),
                    coords,
                    meta.rank as int,
                )
                &&& linear < meta.element_count
                &&& crate::backend::meta::coords_of(meta.dims(), linear as nat) == coords
            },
            Err(err) => {
                &&& err == BackendErr::InvalidTensor
                &&& !crate::backend::meta::coords_within(
                    meta.dims(),
                    crate::backend::meta::as_coords(*coordinates, meta.rank as int),
                )
            },
        },
{
    let ghost dims = meta.dims();
    let ghost coords = crate::backend::meta::as_coords(*coordinates, meta.rank as int);
    let mut axis: usize = 0;
    while axis < meta.rank
        invariant
            axis <= meta.rank <= 8,
            dims == meta.dims(),
            coords == crate::backend::meta::as_coords(*coordinates, meta.rank as int),
            forall|i: int| 0 <= i < axis ==> #[trigger] coords[i] < dims[i],
        decreases meta.rank - axis,
    {
        if coordinates[axis] >= meta.shape[axis] {
            assert(!(coords[axis as int] < dims[axis as int]));
            return Err(BackendErr::InvalidTensor);
        }
        assert(coords[axis as int] < dims[axis as int]);
        axis = axis + 1;
    }
    assert(crate::backend::meta::coords_within(dims, coords));
    let mut linear: usize = 0;
    let mut axis: usize = 0;
    while axis < meta.rank
        invariant
            axis <= meta.rank <= 8,
            meta.wf(),
            dims == meta.dims(),
            coords == crate::backend::meta::as_coords(*coordinates, meta.rank as int),
            crate::backend::meta::coords_within(dims, coords),
            linear == crate::backend::meta::linear_of(dims, coords, axis as int),
        decreases meta.rank - axis,
    {
        proof {
            crate::backend::meta::linear_is_within(dims, coords, axis + 1);
            let d = meta.shape[axis as int];
            assert(crate::shape::product(dims, 0, axis + 1) <= usize::MAX);
            assert(0 <= linear * d) by (nonlinear_arith)
                requires
                    linear >= 0,
                    d >= 0,
            ;
        }
        linear = linear * meta.shape[axis] + coordinates[axis];
        axis = axis + 1;
    }
    proof {
        crate::backend::meta::linear_is_within(dims, coords, meta.rank as int);
        crate::backend::meta::coords_survive_linear(dims, coords);
    }
    Ok(linear)
}

/// The bytes of a tensor can be counted.
pub open spec fn countable(meta: TensorMeta) -> bool {
    meta.element_count * meta.element_size <= usize::MAX
}

/// Where moved elements come from.
pub open spec fn picked(raw: Seq<u8>, meta: TensorMeta, sources: Seq<usize>) -> spec_fn(
    int,
) -> Seq<u8> {
    |i: int| elem(raw, meta.element_size as int, meta.place(sources[i] as nat) as int)
}

/// Moves elements from one tensor to another: the element at position `i` of the output
/// comes from position `sources[i]` of the input.
pub fn move_elements(
    raw: &[u8],
    input: &TensorMeta,
    sources: &[usize],
    output: &mut [u8],
    meta: &TensorMeta,
    target: AiTargetHint,
) -> (r: Result<(), BackendErr>)
    requires
        input.wf(),
        input.lies_in(raw@.len() as int / (input.element_size as int)),
        meta.wf(),
        meta.lies_in(old(output)@.len() as int / (meta.element_size as int)),
        input.element_size == meta.element_size,
        movable(meta.element_size as int),
        sources@.len() == meta.element_count,
        forall|i: int| 0 <= i < sources@.len() ==> #[trigger] sources@[i] < input.element_count,
    ensures
        match r {
            Ok(_) => {
                &&& countable(*input)
                &&& countable(*meta)
                &&& scattered(
                    *meta,
                    picked(raw@, *input, sources@),
                    meta.element_count as int,
                    old(output)@,
                    final(output)@,
                )
            },
            Err(err) => {
                &&& err == BackendErr::InvalidTensor
                &&& !countable(*input) || !countable(*meta)
                &&& final(output)@ == old(output)@
            },
        },
{
    let logical: Vec<u8> = read_logical_bytes(raw, input)?;
    let held: usize = logical.len();
    let size: usize = meta.element_size;
    let mut offsets: Vec<u64> = Vec::new();
    let mut i: usize = 0;
    while i < sources.len()
        invariant
            i <= sources@.len(),
            offsets@.len() == i,
            size == input.element_size,
            size > 0,
            logical@.len() == input.element_count * input.element_size,
            logical@.len() <= usize::MAX,
            forall|j: int|
                0 <= j < sources@.len() ==> #[trigger] sources@[j] < input.element_count,
            forall|j: int| 0 <= j < i ==> #[trigger] offsets@[j] == sources@[j] * size,
            forall|j: int| 0 <= j < i ==> #[trigger] offsets@[j] + size <= logical@.len(),
        decreases sources@.len() - i,
    {
        let source: usize = sources[i];
        proof {
            let count = input.element_count;
            assert(0 <= source * size && source * size + size <= count * size) by (nonlinear_arith)
                requires
                    0 <= source < count,
                    size > 0,
            ;
        }
        offsets.push((source * size) as u64);
        i = i + 1;
    }
    let moved: Vec<u8> = gather_logical(&logical, &offsets, size, target)?;
    let moved_len: usize = moved.len();
    write_logical_bytes(&moved, output, meta)?;
    proof {
        let from = rows_of(moved@, size as int);
        let to = picked(raw@, *input, sources@);
        assert forall|j: int| 0 <= j < meta.element_count implies #[trigger] from(j) == to(j) by {
            assert(offsets@[j] == sources@[j] * size);
            assert(elem(moved@, size as int, j) == logical@.subrange(
                offsets@[j] as int,
                offsets@[j] + size,
            ));
            assert(elem(logical@, size as int, sources@[j] as int) == elem(
                raw@,
                size as int,
                input.place(sources@[j] as nat) as int,
            ));
        }
    }
    Ok(())
}

/// The first `n` elements were written, in order, each with a value that belongs there;
/// nothing else changed.
pub open spec fn stored<T>(
    meta: TensorMeta,
    holds: spec_fn(int, T) -> bool,
    n: int,
    before: Seq<T>,
    after: Seq<T>,
) -> bool {
    &&& after.len() == before.len()
    &&& forall|i: int|
        0 <= i < n && #[trigger] lasting(meta, n, i) ==> holds(i, after[meta.place(i as nat) as int])
    &&& forall|p: int|
        0 <= p < after.len() && (forall|j: int|
            0 <= j < n ==> #[trigger] meta.place(j as nat) != p) ==> #[trigger] after[p]
            == before[p]
}

/// Writing one more value.
pub proof fn store_one<T>(
    meta: TensorMeta,
    holds: spec_fn(int, T) -> bool,
    n: int,
    before: Seq<T>,
    now: Seq<T>,
    value: T,
)
    requires
        meta.wf(),
        meta.lies_in(before.len() as int),
        0 <= n < meta.element_count,
        stored(meta, holds, n, before, now),
        holds(n, value),
    ensures
        meta.place(n as nat) < now.len(),
        stored(meta, holds, n + 1, before, now.update(meta.place(n as nat) as int, value)),
{
    let at = meta.place(n as nat) as int;
    let after = now.update(at, value);
    crate::backend::meta::coords_are_within(meta.dims(), n as nat);
    meta.place_within_reach(
        crate::backend::meta::coords_of(meta.dims(), n as nat),
        meta.rank as int,
    );
    assert forall|i: int| 0 <= i < n + 1 && #[trigger] lasting(meta, n + 1, i) implies holds(
        i,
        after[meta.place(i as nat) as int],
    ) by {
        if i < n {
            crate::backend::meta::coords_are_within(meta.dims(), i as nat);
            meta.place_within_reach(
                crate::backend::meta::coords_of(meta.dims(), i as nat),
                meta.rank as int,
            );
            assert(meta.place(n as nat) != meta.place(i as nat));
            assert(lasting(meta, n, i)) by {
                assert forall|j: int| i < j < n implies #[trigger] meta.place(j as nat)
                    != meta.place(i as nat) by {}
            }
        }
    }
    assert forall|p: int|
        0 <= p < after.len() && (forall|j: int|
            0 <= j < n + 1 ==> #[trigger] meta.place(j as nat) != p) implies #[trigger] after[p]
        == before[p] by {
        assert(meta.place(n as nat) != p);
        assert(forall|j: int| 0 <= j < n ==> #[trigger] meta.place(j as nat) != p);
        assert(now[p] == before[p]);
    }
}


/// No two elements of the tensor lie at the same place.
pub open spec fn spread(meta: TensorMeta) -> bool {
    forall|i: nat, j: nat|
        i < j < meta.element_count ==> #[trigger] meta.place(i) != #[trigger] meta.place(j)
}

/// The elements of a contiguous tensor are spread.
pub proof fn contiguous_is_spread(meta: TensorMeta)
    requires
        meta.wf(),
        meta.contiguous(),
    ensures
        spread(meta),
{
    assert forall|i: nat, j: nat| i < j < meta.element_count implies #[trigger] meta.place(i)
        != #[trigger] meta.place(j) by {
        crate::backend::meta::contiguous_place(meta, i);
        crate::backend::meta::contiguous_place(meta, j);
    }
}

/// The bytes of the element with the given coordinates.
pub open spec fn at_coords(bytes: Seq<u8>, meta: TensorMeta, coords: Seq<nat>) -> Seq<u8> {
    let place = crate::backend::meta::place_of(meta.steps(), coords, meta.rank as int);
    bytes.subrange(
        place * meta.element_size,
        place * meta.element_size + meta.element_size,
    )
}

/// Written elements are found again at their coordinates.
pub proof fn written_element_is_found(
    meta: TensorMeta,
    source: spec_fn(int) -> Seq<u8>,
    before: Seq<u8>,
    after: Seq<u8>,
    coords: Seq<nat>,
)
    requires
        meta.wf(),
        spread(meta),
        scattered(meta, source, meta.element_count as int, before, after),
        crate::backend::meta::coords_within(meta.dims(), coords),
    ensures
        crate::backend::meta::linear_of(meta.dims(), coords, meta.rank as int)
            < meta.element_count,
        at_coords(after, meta, coords) == source(
            crate::backend::meta::linear_of(meta.dims(), coords, meta.rank as int) as int,
        ),
{
    let i = crate::backend::meta::linear_of(meta.dims(), coords, meta.rank as int);
    crate::backend::meta::linear_is_within(meta.dims(), coords, meta.rank as int);
    crate::backend::meta::coords_survive_linear(meta.dims(), coords);
    assert(lasting(meta, meta.element_count as int, i as int));
}

/// What is written in row-major order and read again in that order comes back, and the
/// elements stand at their coordinates.
pub proof fn written_rows_are_read(
    meta: TensorMeta,
    logical: Seq<u8>,
    before: Seq<u8>,
    after: Seq<u8>,
    coords: Seq<nat>,
    at: int,
)
    requires
        meta.wf(),
        spread(meta),
        logical.len() == meta.element_count * meta.element_size,
        scattered(
            meta,
            rows_of(logical, meta.element_size as int),
            meta.element_count as int,
            before,
            after,
        ),
        crate::backend::meta::coords_within(meta.dims(), coords),
        at == crate::backend::meta::linear_of(meta.dims(), coords, meta.rank as int)
            * meta.element_size,
    ensures
        at_coords(after, meta, coords) == logical.subrange(at, at + meta.element_size),
{
    written_element_is_found(
        meta,
        rows_of(logical, meta.element_size as int),
        before,
        after,
        coords,
    );
}

} // verus!
