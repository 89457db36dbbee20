//! Tensor views and the places of their elements.

use crate::uabi::desc::{AiDtype, AiTensorFormat, AiTensorLayout, MAX_DIM};
use crate::uabi::error::BackendErr;
use crate::uabi::types::{ByteSize, ByteStride, DimCount, DimSize, TensorAxis, TensorFlags};
use vstd::prelude::*;

verus! {

/// A tensor as a kernel sees it: where its buffer lies and how it is laid out.
#[derive(Clone, Copy, Debug)]
pub struct BackendTensorView {
    /// Address of the buffer.
    pub data: u64,
    /// Bytes of the buffer.
    pub byte_len: ByteSize,
    /// Extent of each axis.
    pub shape: [DimSize; 8],
    /// Stride of each axis, in bytes.
    pub stride_bytes: [ByteStride; 8],
    /// Number of axes.
    pub ndim: DimCount,
    /// Element type.
    pub dtype: AiDtype,
    /// Meaning of the axes.
    pub format: AiTensorFormat,
    /// Placement of the elements.
    pub layout: AiTensorLayout,
    /// Tensor flags.
    pub flags: TensorFlags,
}

/// The extents of a view.
pub open spec fn view_dims(view: BackendTensorView) -> Seq<nat> {
    Seq::new(view.ndim.0 as nat, |i: int| view.shape[i].0 as nat)
}

/// How far the last element along axis `i` is from the first, in bytes.
pub open spec fn axis_span(view: BackendTensorView, i: int) -> int {
    if view.shape[i].0 == 0 {
        0
    } else {
        (view.shape[i].0 - 1) * view.stride_bytes[i].0
    }
}

/// How far the last element is from the first, over the first `n` axes, in bytes.
pub open spec fn view_span(view: BackendTensorView, n: int) -> int
    decreases n,
{
    if n <= 0 {
        0
    } else {
        view_span(view, n - 1) + axis_span(view, n - 1)
    }
}

/// The strides of an axis are whole elements, and a stride that is used is not zero.
pub open spec fn axis_ok(view: BackendTensorView, element_size: nat, i: int) -> bool {
    &&& view.stride_bytes[i].0 <= usize::MAX
    &&& (view.stride_bytes[i].0 as nat) % element_size == 0
    &&& view.shape[i].0 > 1 ==> view.stride_bytes[i].0 as nat / element_size > 0
}

/// Stride of an axis in elements.
pub open spec fn view_step(view: BackendTensorView, element_size: nat, i: int) -> nat {
    view.stride_bytes[i].0 as nat / element_size
}

/// The strides are those of elements one after the other, last axis fastest. An axis
/// with a single element may have any stride.
pub open spec fn view_is_dense(view: BackendTensorView, element_size: nat) -> bool {
    let dims = view_dims(view);
    let rank = view.ndim.0 as int;
    &&& forall|i: int|
        0 <= i < rank && view.shape[i].0 > 1 ==> #[trigger] view_step(view, element_size, i)
            == crate::shape::product(dims, i + 1, rank)
    &&& forall|i: int|
        0 <= i <= rank ==> #[trigger] crate::shape::product(dims, i, rank) <= usize::MAX
}

/// Every element of the view lies within its buffer, and a dense view is dense.
pub open spec fn view_ok(view: BackendTensorView, element_size: nat) -> bool {
    let dims = view_dims(view);
    let rank = view.ndim.0 as int;
    &&& view.byte_len.0 <= usize::MAX
    &&& view.data != 0
    &&& view.layout.0 == AiTensorLayout::DENSE || view.layout.0 == AiTensorLayout::STRIDED
    &&& forall|i: int| 0 <= i < rank ==> #[trigger] axis_ok(view, element_size, i)
    &&& forall|n: int|
        0 <= n <= rank ==> #[trigger] crate::shape::product(dims, 0, n) <= usize::MAX
    &&& view_span(view, rank) <= usize::MAX
    &&& crate::shape::product(dims, 0, rank) != 0 ==> view_span(view, rank) + element_size
        <= view.byte_len.0
    &&& view.layout.0 == AiTensorLayout::DENSE ==> view_is_dense(view, element_size)
}

/// What is wrong with a view, where anything is.
pub open spec fn view_fault(view: BackendTensorView) -> Option<BackendErr> {
    if view.ndim.0 > 8 {
        Some(BackendErr::InvalidTensor)
    } else {
        match view.dtype.element_size() {
            None => Some(BackendErr::UnsupportedDtype),
            Some(element_size) => if view_ok(view, element_size as nat) {
                None
            } else {
                Some(BackendErr::InvalidTensor)
            },
        }
    }
}

/// Number of elements of the given size and alignment in the buffer of a view, where the
/// buffer can be read as such.
pub open spec fn typed_count(view: BackendTensorView, element_size: int, align: int) -> Option<
    usize,
> {
    if view.data == 0 || view.byte_len.0 > usize::MAX || element_size == 0
        || view.byte_len.0 as int % element_size != 0 || (align > 1 && view.data as int % align
        != 0) {
        None
    } else {
        Some((view.byte_len.0 as int / element_size) as usize)
    }
}

/// A checked view, counted in elements.
#[derive(Clone, Copy, Debug)]
pub struct TensorMeta {
    /// Number of axes.
    pub rank: usize,
    /// Extent of each axis.
    pub shape: [usize; 8],
    /// Stride of each axis, in elements.
    pub strides: [usize; 8],
    /// Bytes of an element.
    pub element_size: usize,
    /// Number of elements.
    pub element_count: usize,
}

/// Position of an element in row-major order: coordinates to one number.
pub open spec fn linear_of(dims: Seq<nat>, coords: Seq<nat>, n: int) -> nat
    decreases n,
{
    if n <= 0 {
        0
    } else {
        linear_of(dims, coords, n - 1) * dims[n - 1] + coords[n - 1]
    }
}

/// Coordinate along `axis` of the element at a row-major position.
pub open spec fn coord_of(dims: Seq<nat>, linear: nat, axis: int) -> nat {
    (linear / crate::shape::product(dims, axis + 1, dims.len() as int)) % dims[axis]
}

/// All coordinates of the element at a row-major position.
pub open spec fn coords_of(dims: Seq<nat>, linear: nat) -> Seq<nat> {
    Seq::new(dims.len(), |axis: int| coord_of(dims, linear, axis))
}

/// Place of an element, counted in elements: coordinates times strides, summed up.
pub open spec fn place_of(steps: Seq<nat>, coords: Seq<nat>, n: int) -> nat
    decreases n,
{
    if n <= 0 {
        0
    } else {
        place_of(steps, coords, n - 1) + coords[n - 1] * steps[n - 1]
    }
}

/// Coordinates as numbers.
pub open spec fn as_coords(coordinates: [usize; 8], rank: int) -> Seq<nat> {
    Seq::new(rank as nat, |i: int| coordinates[i] as nat)
}

/// Every coordinate is below its extent.
pub open spec fn coords_within(dims: Seq<nat>, coords: Seq<nat>) -> bool {
    &&& coords.len() == dims.len()
    &&& forall|i: int| 0 <= i < dims.len() ==> #[trigger] coords[i] < dims[i]
}

/// Row-major coordinates of a position are below their extents.
pub proof fn coords_are_within(dims: Seq<nat>, linear: nat)
    requires
        linear < crate::shape::product(dims, 0, dims.len() as int),
    ensures
        coords_within(dims, coords_of(dims, linear)),
        forall|i: int| 0 <= i < dims.len() ==> #[trigger] dims[i] > 0,
{
    assert forall|i: int| 0 <= i < dims.len() implies #[trigger] dims[i] > 0 by {
        if dims[i] == 0 {
            crate::shape::product_zero(dims, 0, i, dims.len() as int);
        }
    }
    assert forall|i: int| 0 <= i < dims.len() implies #[trigger] coords_of(dims, linear)[i]
        < dims[i] by {
        assert(dims[i] > 0);
        vstd::arithmetic::div_mod::lemma_mod_bound(
            (linear / crate::shape::product(dims, i + 1, dims.len() as int)) as int,
            dims[i] as int,
        );
    }
}

/// The position up to axis `n` is the position divided by the size of what comes after.
proof fn linear_prefix(dims: Seq<nat>, linear: nat, n: int)
    requires
        0 <= n <= dims.len(),
        linear < crate::shape::product(dims, 0, dims.len() as int),
    ensures
        crate::shape::product(dims, n, dims.len() as int) > 0,
        linear_of(dims, coords_of(dims, linear), n) == linear / crate::shape::product(
            dims,
            n,
            dims.len() as int,
        ),
    decreases n,
{
    let rank = dims.len() as int;
    coords_are_within(dims, linear);
    crate::shape::product_positive(dims, n, rank);
    let tail = crate::shape::product(dims, n, rank);
    if n == 0 {
        vstd::arithmetic::div_mod::lemma_basic_div(linear as int, tail as int);
    } else {
        linear_prefix(dims, linear, n - 1);
        crate::shape::product_front(dims, n - 1, rank);
        let d = dims[n - 1];
        assert(d > 0);
        let q = linear / tail;
        vstd::arithmetic::div_mod::lemma_div_denominator(linear as int, tail as int, d as int);
        assert(tail * d == d * tail) by (nonlinear_arith);
        assert(linear / crate::shape::product(dims, n - 1, rank) == q / d);
        vstd::arithmetic::div_mod::lemma_fundamental_div_mod(q as int, d as int);
        assert((q / d) * d == d * (q / d)) by (nonlinear_arith);
        assert(coords_of(dims, linear)[n - 1] == q % d);
    }
}

/// Splitting a position into coordinates and joining them again gives the position.
pub proof fn linear_survives_coords(dims: Seq<nat>, linear: nat)
    requires
        linear < crate::shape::product(dims, 0, dims.len() as int),
    ensures
        linear_of(dims, coords_of(dims, linear), dims.len() as int) == linear,
{
    linear_prefix(dims, linear, dims.len() as int);
    assert(linear / 1 == linear) by (nonlinear_arith);
}

/// The position of coordinates within their extents is below the number of elements.
pub proof fn linear_is_within(dims: Seq<nat>, coords: Seq<nat>, n: int)
    requires
        coords_within(dims, coords),
        0 <= n <= dims.len(),
    ensures
        linear_of(dims, coords, n) < crate::shape::product(dims, 0, n),
    decreases n,
{
    if n > 0 {
        linear_is_within(dims, coords, n - 1);
        let p = linear_of(dims, coords, n - 1);
        let s = crate::shape::product(dims, 0, n - 1);
        let d = dims[n - 1];
        let c = coords[n - 1];
        assert(c < d);
        assert(p * d + c < s * d) by (nonlinear_arith)
            requires
                p < s,
                c < d,
        ;
    }
}

/// Joining coordinates and splitting the position again gives the coordinates.
pub proof fn coords_survive_linear(dims: Seq<nat>, coords: Seq<nat>)
    requires
        coords_within(dims, coords),
    ensures
        coords_of(dims, linear_of(dims, coords, dims.len() as int)) == coords,
{
    let rank = dims.len() as int;
    let linear = linear_of(dims, coords, rank);
    assert forall|i: int| 0 <= i < rank implies #[trigger] coords_of(dims, linear)[i] == coords[i] by {
        linear_head(dims, coords, i + 1);
        let p = linear_of(dims, coords, i);
        let d = dims[i];
        let c = coords[i];
        assert(c < d);
        assert(linear_of(dims, coords, i + 1) == p * d + c);
        assert((p * d + c) % d == c) by (nonlinear_arith)
            requires
                0 <= c < d,
                0 <= p,
        ;
    }
    assert(coords_of(dims, linear) =~= coords);
}

/// Dividing a position by the size of what comes after axis `n` leaves the position up
/// to axis `n`.
proof fn linear_head(dims: Seq<nat>, coords: Seq<nat>, n: int)
    requires
        coords_within(dims, coords),
        0 <= n <= dims.len(),
    ensures
        linear_of(dims, coords, dims.len() as int) / crate::shape::product(
            dims,
            n,
            dims.len() as int,
        ) == linear_of(dims, coords, n),
    decreases dims.len() - n,
{
    let rank = dims.len() as int;
    let linear = linear_of(dims, coords, rank);
    if n == rank {
        assert(linear / 1 == linear) by (nonlinear_arith);
    } else {
        linear_head(dims, coords, n + 1);
        crate::shape::product_front(dims, n, rank);
        let tail = crate::shape::product(dims, n + 1, rank);
        assert forall|i: int| n + 1 <= i < rank implies dims[i] > 0 by {
            assert(coords[i] < dims[i]);
        }
        crate::shape::product_positive(dims, n + 1, rank);
        let d = dims[n];
        let c = coords[n];
        let p = linear_of(dims, coords, n);
        assert(c < d);
        vstd::arithmetic::div_mod::lemma_div_denominator(linear as int, tail as int, d as int);
        assert(tail * d == d * tail) by (nonlinear_arith);
        assert((p * d + c) / d == p) by (nonlinear_arith)
            requires
                0 <= c < d,
                0 <= p,
        ;
    }
}

/// Dense strides put the element of each position at that place.
pub proof fn dense_place_is_linear(dims: Seq<nat>, steps: Seq<nat>, coords: Seq<nat>, n: int)
    requires
        coords_within(dims, coords),
        steps.len() == dims.len(),
        0 <= n <= dims.len(),
        forall|i: int|
            0 <= i < dims.len() && dims[i] > 1 ==> #[trigger] steps[i] == crate::shape::product(
                dims,
                i + 1,
                dims.len() as int,
            ),
    ensures
        place_of(steps, coords, n) == linear_of(dims, coords, n) * crate::shape::product(
            dims,
            n,
            dims.len() as int,
        ),
    decreases n,
{
    let rank = dims.len() as int;
    if n == 0 {
        let t = crate::shape::product(dims, 0, rank);
        assert(0 * t == 0) by (nonlinear_arith);
    } else {
        dense_place_is_linear(dims, steps, coords, n - 1);
        crate::shape::product_front(dims, n - 1, rank);
        let p = linear_of(dims, coords, n - 1);
        let d = dims[n - 1];
        let c = coords[n - 1];
        let t = crate::shape::product(dims, n, rank);
        let s = steps[n - 1];
        assert(c < d);
        if d > 1 {
            assert(s == t);
            assert(p * (d * t) + c * t == (p * d + c) * t) by (nonlinear_arith);
        } else {
            assert(c == 0 && d == 1);
            assert(p * (d * t) + c * s == (p * d + c) * t) by (nonlinear_arith)
                requires
                    c == 0,
            ;
        }
    }
}

impl TensorMeta {
    /// The extents.
    pub open spec fn dims(self) -> Seq<nat> {
        Seq::new(self.rank as nat, |i: int| self.shape[i] as nat)
    }

    /// The strides, in elements.
    pub open spec fn steps(self) -> Seq<nat> {
        Seq::new(self.rank as nat, |i: int| self.strides[i] as nat)
    }

    /// How far the last element is from the first, over the first `n` axes.
    pub open spec fn reach(self, n: int) -> int
        decreases n,
    {
        if n <= 0 {
            0
        } else {
            self.reach(n - 1) + if self.shape[n - 1] == 0 {
                0
            } else {
                (self.shape[n - 1] - 1) * self.strides[n - 1]
            }
        }
    }

    /// What a checked view guarantees.
    pub open spec fn wf(self) -> bool {
        &&& self.rank <= 8
        &&& self.element_size > 0
        &&& self.element_count == crate::shape::product(self.dims(), 0, self.rank as int)
        &&& forall|n: int|
            0 <= n <= self.rank ==> #[trigger] crate::shape::product(self.dims(), 0, n)
                <= usize::MAX
        &&& self.element_count > 0 ==> self.reach(self.rank as int) <= usize::MAX
    }

    /// The first `count` elements of a buffer hold every element of the tensor.
    pub open spec fn lies_in(self, count: int) -> bool {
        self.element_count > 0 ==> self.reach(self.rank as int) < count
    }

    /// The elements lie one after the other, last axis fastest.
    pub open spec fn contiguous(self) -> bool {
        let dims = self.dims();
        let rank = self.rank as int;
        &&& forall|i: int|
            0 <= i < rank && self.shape[i] > 1 ==> #[trigger] self.strides[i]
                == crate::shape::product(dims, i + 1, rank)
        &&& forall|i: int|
            0 <= i <= rank ==> #[trigger] crate::shape::product(dims, i, rank) <= usize::MAX
    }

    /// Place of the element at a row-major position.
    pub open spec fn place(self, linear: nat) -> nat {
        place_of(self.steps(), coords_of(self.dims(), linear), self.rank as int)
    }

    /// The place of coordinates within their extents is within reach.
    pub proof fn place_within_reach(self, coords: Seq<nat>, n: int)
        requires
            self.rank <= 8,
            coords_within(self.dims(), coords),
            0 <= n <= self.rank,
        ensures
            place_of(self.steps(), coords, n) <= self.reach(n) <= self.reach(self.rank as int),
        decreases n,
    {
        if n > 0 {
            self.place_within_reach(coords, n - 1);
            let c = coords[n - 1];
            let d = self.shape[n - 1];
            let s = self.strides[n - 1];
            assert(c < self.dims()[n - 1]);
            assert(c * s <= (d - 1) * s) by (nonlinear_arith)
                requires
                    c < d,
                    0 <= s,
            ;
        }
        self.reach_grows(n, self.rank as int);
    }

    proof fn reach_grows(self, n: int, m: int)
        requires
            0 <= n <= m <= 8,
        ensures
            self.reach(n) <= self.reach(m),
        decreases m,
    {
        if n < m {
            self.reach_grows(n, m - 1);
            let d = self.shape[m - 1];
            let s = self.strides[m - 1];
            if d > 0 {
                assert(0 <= (d - 1) * s) by (nonlinear_arith)
                    requires
                        d > 0,
                        0 <= s,
                ;
            }
        }
    }

    /// Splits a row-major position into coordinates.
    pub fn coordinates(&self, linear: usize) -> (r: Result<[usize; 8], BackendErr>)
        requires
            self.wf(),
        ensures
            match r {
                Ok(coordinates) => {
                    &&& linear < self.element_count
                    &&& as_coords(coordinates, self.rank as int) == coords_of(
                        self.dims(),
                        linear as nat,
                    )
                    &&& forall|i: int| self.rank <= i < 8 ==> #[trigger] coordinates[i] == 0
                },
                Err(err) => linear >= self.element_count && err == BackendErr::InvalidTensor,
            },
    {
        if linear >= self.element_count {
            return Err(BackendErr::InvalidTensor);
        }
        let ghost dims = self.dims();
        let ghost rank = self.rank as int;
        proof {
            coords_are_within(dims, linear as nat);
            assert(linear / 1 == linear) by (nonlinear_arith);
        }
        let mut coordinates: [usize; 8] = [0; 8];
        let mut remaining: usize = linear;
        let mut axis: usize = self.rank;
        while axis > 0
            invariant
                axis <= self.rank <= 8,
                self.wf(),
                dims == self.dims(),
                rank == self.rank,
                linear < self.element_count,
                forall|i: int| 0 <= i < rank ==> #[trigger] dims[i] > 0,
                crate::shape::product(dims, axis as int, rank) > 0,
                remaining == linear as nat / crate::shape::product(dims, axis as int, rank),
                forall|i: int|
                    axis <= i < rank ==> #[trigger] coordinates[i] == coord_of(
                        dims,
                        linear as nat,
                        i,
                    ),
                forall|i: int| rank <= i < 8 ==> #[trigger] coordinates[i] == 0,
            decreases axis,
        {
            axis = axis - 1;
            let dim: usize = self.shape[axis];
            assert(dims[axis as int] == dim);
            coordinates[axis] = remaining % dim;
            proof {
                let tail = crate::shape::product(dims, axis + 1, rank);
                crate::shape::product_front(dims, axis as int, rank);
                crate::shape::product_positive(dims, axis as int, rank);
                vstd::arithmetic::div_mod::lemma_div_denominator(
                    linear as int,
                    tail as int,
                    dim as int,
                );
                assert(tail * dim == dim * tail) by (nonlinear_arith);
            }
            remaining = remaining / dim;
        }
        assert(as_coords(coordinates, rank) =~= coords_of(dims, linear as nat));
        Ok(coordinates)
    }

    /// Place of the element with the given coordinates.
    pub fn offset_for_coordinates(&self, coordinates: &[usize; 8]) -> (r: Result<
        usize,
        BackendErr,
    >)
        requires
            self.wf(),
        ensures
            match r {
                Ok(offset) => {
                    &&& coords_within(self.dims(), as_coords(*coordinates, self.rank as int))
                    &&& offset == place_of(
                        self.steps(),
                        as_coords(*coordinates, self.rank as int),
                        self.rank as int,
                    )
                },
                Err(err) => {
                    &&& err == BackendErr::InvalidTensor
                    &&& !coords_within(self.dims(), as_coords(*coordinates, self.rank as int))
                },
            },
    {
        let ghost dims = self.dims();
        let ghost steps = self.steps();
        let ghost coords = as_coords(*coordinates, self.rank as int);
        let mut axis: usize = 0;
        while axis < self.rank
            invariant
                axis <= self.rank <= 8,
                dims == self.dims(),
                coords == as_coords(*coordinates, self.rank as int),
                forall|i: int| 0 <= i < axis ==> #[trigger] coords[i] < dims[i],
            decreases self.rank - axis,
        {
            if coordinates[axis] >= self.shape[axis] {
                assert(!(coords[axis as int] < dims[axis as int]));
                return Err(BackendErr::InvalidTensor);
            }
            assert(coords[axis as int] < dims[axis as int]);
            axis = axis + 1;
        }
        proof {
            assert(coords_within(dims, coords));
            assert forall|i: int| 0 <= i < dims.len() implies dims[i] > 0 by {
                assert(coords[i] < dims[i]);
            }
            crate::shape::product_positive(dims, 0, dims.len() as int);
        }
        let mut offset: usize = 0;
        let mut axis: usize = 0;
        while axis < self.rank
            invariant
                axis <= self.rank <= 8,
                self.wf(),
                self.element_count > 0,
                dims == self.dims(),
                steps == self.steps(),
                coords == as_coords(*coordinates, self.rank as int),
                coords_within(dims, coords),
                offset == place_of(steps, coords, axis as int),
            decreases self.rank - axis,
        {
            proof {
                self.place_within_reach(coords, axis + 1);
                let c = coordinates[axis as int];
                let s = self.strides[axis as int];
                assert(c * s >= 0) by (nonlinear_arith)
                    requires
                        c >= 0,
                        s >= 0,
                ;
                assert(place_of(steps, coords, axis + 1) == offset + c * s);
            }
            offset = offset + coordinates[axis] * self.strides[axis];
            axis = axis + 1;
        }
        Ok(offset)
    }

    /// Place of the element at a row-major position.
    pub fn offset_for_linear(&self, linear: usize) -> (r: Result<usize, BackendErr>)
        requires
            self.wf(),
        ensures
            match r {
                Ok(offset) => linear < self.element_count && offset == self.place(linear as nat)
                    && offset <= self.reach(self.rank as int),
                Err(err) => linear >= self.element_count && err == BackendErr::InvalidTensor,
            },
    {
        match self.coordinates(linear) {
            Ok(coordinates) => {
                proof {
                    coords_are_within(self.dims(), linear as nat);
                    self.place_within_reach(
                        coords_of(self.dims(), linear as nat),
                        self.rank as int,
                    );
                }
                self.offset_for_coordinates(&coordinates)
            },
            Err(err) => Err(err),
        }
    }

    /// Whether the elements lie one after the other, last axis fastest.
    pub fn is_contiguous(&self) -> (r: bool)
        requires
            self.rank <= 8,
        ensures
            r == self.contiguous(),
    {
        let ghost dims = self.dims();
        let ghost rank = self.rank as int;
        let mut expected: usize = 1;
        let mut axis: usize = self.rank;
        while axis > 0
            invariant
                axis <= self.rank <= 8,
                dims == self.dims(),
                rank == self.rank,
                expected == crate::shape::product(dims, axis as int, rank),
                forall|i: int|
                    axis <= i < rank && self.shape[i] > 1 ==> #[trigger] self.strides[i]
                        == crate::shape::product(dims, i + 1, rank),
                forall|i: int|
                    axis <= i <= rank ==> #[trigger] crate::shape::product(dims, i, rank)
                        <= usize::MAX,
            decreases axis,
        {
            axis = axis - 1;
            if self.shape[axis] > 1 && self.strides[axis] != expected {
                return false;
            }
            proof {
                crate::shape::product_front(dims, axis as int, rank);
                let e = expected as nat;
                let d = dims[axis as int];
                assert(e * d == d * e) by (nonlinear_arith);
            }
            match expected.checked_mul(self.shape[axis]) {
                Some(next) => {
                    expected = next;
                },
                None => {
                    assert(crate::shape::product(dims, axis as int, rank) > usize::MAX);
                    return false;
                },
            }
        }
        true
    }
}

/// In a contiguous tensor the element at a position lies at that place.
pub proof fn contiguous_place(meta: TensorMeta, linear: nat)
    requires
        meta.wf(),
        meta.contiguous(),
        linear < meta.element_count,
    ensures
        meta.place(linear) == linear,
{
    let dims = meta.dims();
    coords_are_within(dims, linear);
    assert forall|i: int| 0 <= i < dims.len() && dims[i] > 1 implies #[trigger] meta.steps()[i]
        == crate::shape::product(dims, i + 1, dims.len() as int) by {
        assert(meta.shape[i] > 1);
        assert(meta.strides[i] == crate::shape::product(dims, i + 1, dims.len() as int));
    }
    dense_place_is_linear(dims, meta.steps(), coords_of(dims, linear), meta.rank as int);
    linear_survives_coords(dims, linear);
    assert(linear * 1 == linear) by (nonlinear_arith);
}

/// The axis that an attribute names, counted from the front.
pub open spec fn axis_of(axis: TensorAxis, rank: int) -> int {
    if axis.0 < 0 {
        axis.0 + rank
    } else {
        axis.0 as int
    }
}

/// Counts an axis from the front; a negative one counts from the back.
pub fn normalize_axis(axis: TensorAxis, rank: usize) -> (r: Result<usize, BackendErr>)
    ensures
        r == (if rank == 0 || rank > 8 {
            Err::<usize, BackendErr>(BackendErr::InvalidTensor)
        } else if 0 <= axis_of(axis, rank as int) < rank {
            Ok(axis_of(axis, rank as int) as usize)
        } else {
            Err(BackendErr::InvalidAttr)
        }),
{
    if rank == 0 || rank > MAX_DIM {
        return Err(BackendErr::InvalidTensor);
    }
    let count: i32 = rank as i32;
    let raw: i32 = axis.0;
    let normalized: i32 = if raw < 0 {
        raw + count
    } else {
        raw
    };
    if normalized < 0 || normalized >= count {
        return Err(BackendErr::InvalidAttr);
    }
    Ok(normalized as usize)
}

/// The extents with index `from` up to but without `to` can be multiplied one by one.
pub open spec fn multiplies(dims: Seq<nat>, from: int, to: int) -> bool {
    forall|n: int| from <= n <= to ==> #[trigger] crate::shape::product(dims, from, n)
        <= usize::MAX
}

/// Product of the extents with index `from` up to but without `to`.
pub fn shape_product(meta: &TensorMeta, from: usize, to: usize) -> (r: Result<usize, BackendErr>)
    requires
        from <= to <= meta.rank <= 8,
    ensures
        match r {
            Ok(product) => {
                &&& multiplies(meta.dims(), from as int, to as int)
                &&& product == crate::shape::product(meta.dims(), from as int, to as int)
            },
            Err(err) => {
                &&& err == BackendErr::InvalidTensor
                &&& !multiplies(meta.dims(), from as int, to as int)
            },
        },
{
    let ghost dims = meta.dims();
    let mut product: usize = 1;
    let mut axis: usize = from;
    while axis < to
        invariant
            from <= axis <= to <= meta.rank <= 8,
            dims == meta.dims(),
            product == crate::shape::product(dims, from as int, axis as int),
            multiplies(dims, from as int, axis as int),
        decreases to - axis,
    {
        assert(dims[axis as int] == meta.shape[axis as int]);
        match product.checked_mul(meta.shape[axis]) {
            Some(next) => {
                product = next;
            },
            None => {
                assert(crate::shape::product(dims, from as int, axis + 1) > usize::MAX);
                return Err(BackendErr::InvalidTensor);
            },
        }
        axis = axis + 1;
    }
    Ok(product)
}

/// The number of elements of a tensor with four axes.
pub proof fn four_axes(meta: TensorMeta)
    requires
        meta.wf(),
        meta.rank == 4,
    ensures
        meta.shape[0] as nat * meta.shape[1] as nat <= usize::MAX,
        meta.element_count == (meta.shape[0] as nat * meta.shape[1] as nat)
            * meta.shape[2] as nat * meta.shape[3] as nat,
{
    let dims = meta.dims();
    assert(crate::shape::product(dims, 0, 1) == crate::shape::product(dims, 0, 0) * dims[0]);
    assert(1 * dims[0] == dims[0]) by (nonlinear_arith);
    assert(crate::shape::product(dims, 0, 2) == crate::shape::product(dims, 0, 1) * dims[1]);
    assert(crate::shape::product(dims, 0, 3) == crate::shape::product(dims, 0, 2) * dims[2]);
    assert(crate::shape::product(dims, 0, 4) == crate::shape::product(dims, 0, 3) * dims[3]);
}


/// Strides set the elements apart: the first element lies at the start, and one step along
/// an axis moves the place by the stride of that axis.
pub proof fn step_moves_by_its_stride(steps: Seq<nat>, coords: Seq<nat>, axis: int, n: int)
    requires
        0 <= axis < n <= coords.len(),
    ensures
        place_of(steps, coords.update(axis, coords[axis] + 1), n) == place_of(steps, coords, n)
            + steps[axis],
        (forall|a: int| 0 <= a < n ==> #[trigger] coords[a] == 0) ==> place_of(steps, coords, n)
            == 0,
    decreases n,
{
    let moved = coords.update(axis, coords[axis] + 1);
    let last = steps[n - 1];
    if axis < n - 1 {
        step_moves_by_its_stride(steps, coords, axis, n - 1);
    } else {
        place_is_local(steps, coords, moved, n - 1);
        assert((coords[axis] + 1) * last == coords[axis] * last + last) by (nonlinear_arith);
    }
    if forall|a: int| 0 <= a < n ==> #[trigger] coords[a] == 0 {
        start_is_zero(steps, coords, n);
    }
}

proof fn place_is_local(steps: Seq<nat>, a: Seq<nat>, b: Seq<nat>, n: int)
    requires
        forall|i: int| 0 <= i < n ==> #[trigger] a[i] == b[i],
    ensures
        place_of(steps, a, n) == place_of(steps, b, n),
    decreases n,
{
    if n > 0 {
        place_is_local(steps, a, b, n - 1);
        assert(a[n - 1] == b[n - 1]);
    }
}

proof fn start_is_zero(steps: Seq<nat>, coords: Seq<nat>, n: int)
    requires
        forall|a: int| 0 <= a < n ==> #[trigger] coords[a] == 0,
    ensures
        place_of(steps, coords, n) == 0,
    decreases n,
{
    if n > 0 {
        start_is_zero(steps, coords, n - 1);
        assert(coords[n - 1] == 0);
    }
}

/// Positions count the last axis fastest: a step along the last axis is the next position,
/// and a step along another axis passes over everything behind it.
pub proof fn last_axis_runs_fastest(dims: Seq<nat>, coords: Seq<nat>, axis: int, n: int)
    requires
        0 <= axis < n <= dims.len(),
        dims.len() == coords.len(),
    ensures
        linear_of(dims, coords.update(axis, coords[axis] + 1), n) == linear_of(dims, coords, n)
            + crate::shape::product(dims, axis + 1, n),
        axis == n - 1 ==> linear_of(dims, coords.update(axis, coords[axis] + 1), n) == linear_of(
            dims,
            coords,
            n,
        ) + 1,
    decreases n,
{
    let moved = coords.update(axis, coords[axis] + 1);
    if axis < n - 1 {
        last_axis_runs_fastest(dims, coords, axis, n - 1);
        let (p, q, d) = (
            linear_of(dims, coords, n - 1),
            crate::shape::product(dims, axis + 1, n - 1),
            dims[n - 1],
        );
        assert((p + q) * d == p * d + q * d) by (nonlinear_arith);
    } else {
        position_is_local(dims, dims, coords, moved, n - 1);
    }
}

/// An axis is named from the front, or from the back by a negative number: the last axis is
/// minus one.
pub proof fn axes_count_from_either_end(front: TensorAxis, back: TensorAxis, rank: int)
    requires
        0 <= front.0 < rank,
        back.0 < 0,
        front.0 - back.0 == rank,
    ensures
        axis_of(front, rank) == front.0,
        axis_of(back, rank) == front.0,
{
}

/// A position is the position of its first `m` coordinates, times what comes after them, plus
/// the position of the rest.
pub proof fn position_splits(dims: Seq<nat>, coords: Seq<nat>, m: int, n: int)
    requires
        0 <= m <= n <= dims.len(),
        coords_within(dims, coords),
    ensures
        ({
            let rest = linear_of(dims.skip(m), coords.skip(m), n - m);
            &&& linear_of(dims, coords, n)
                == linear_of(dims, coords, m) * crate::shape::product(
                dims,
                m,
                n,
            ) + rest
            &&& rest < crate::shape::product(dims, m, n)
        }),
    decreases n,
{
    if m < n {
        position_splits(dims, coords, m, n - 1);
        let front = linear_of(dims, coords, m) as int;
        let span = crate::shape::product(dims, m, n - 1) as int;
        let rest = linear_of(dims.skip(m), coords.skip(m), n - 1 - m) as int;
        let (extent, last) = (dims[n - 1] as int, coords[n - 1] as int);
        assert(dims.skip(m)[n - 1 - m] == dims[n - 1]);
        assert(coords.skip(m)[n - 1 - m] == coords[n - 1]);
        assert((front * span + rest) * extent + last == front * (span * extent) + (rest * extent
            + last)) by (nonlinear_arith);
        assert(rest * extent + last < span * extent) by (nonlinear_arith)
            requires
                rest < span,
                0 <= last < extent,
        ;
    } else {
        assert(crate::shape::product(dims, m, n) == 1);
    }
}

/// Positions depend on the coordinates and extents that are counted.
pub proof fn position_is_local(
    a: Seq<nat>,
    b: Seq<nat>,
    coords: Seq<nat>,
    others: Seq<nat>,
    n: int,
)
    requires
        forall|i: int| 0 <= i < n ==> #[trigger] a[i] == b[i],
        forall|i: int| 0 <= i < n ==> #[trigger] coords[i] == others[i],
    ensures
        linear_of(a, coords, n) == linear_of(
            b,
            others,
            n,
        ),
    decreases n,
{
    if n > 0 {
        position_is_local(a, b, coords, others, n - 1);
        assert(a[n - 1] == b[n - 1]);
        assert(coords[n - 1] == others[n - 1]);
    }
}


/// How far the elements of a dense view reach: to its last byte but for one element.
proof fn dense_span(view: BackendTensorView, size: nat, n: int)
    requires
        0 <= n <= view.ndim.0 <= 8,
        size > 0,
        forall|i: int| 0 <= i < view.ndim.0 ==> (#[trigger] view.shape[i]).0 > 0,
        forall|i: int|
            0 <= i < view.ndim.0 ==> (#[trigger] view.stride_bytes[i]).0 == size
                * crate::shape::product(view_dims(view), i + 1, view.ndim.0 as int),
    ensures
        view_span(view, n) == size * crate::shape::product(view_dims(view), 0, view.ndim.0 as int)
            - size * crate::shape::product(view_dims(view), n, view.ndim.0 as int),
    decreases n,
{
    let dims = view_dims(view);
    let rank = view.ndim.0 as int;
    if n > 0 {
        dense_span(view, size, n - 1);
        crate::shape::product_front(dims, n - 1, rank);
        let (extent, rest) = (dims[n - 1] as int, crate::shape::product(dims, n, rank) as int);
        assert(view.shape[n - 1].0 > 0);
        assert(view.stride_bytes[n - 1].0 == size * rest);
        assert((extent - 1) * (size * rest) == size * (extent * rest) - size * rest)
            by (nonlinear_arith);
    }
}

/// A dense tensor in a buffer that holds it is accepted.
pub proof fn dense_views_are_accepted(view: BackendTensorView, size: u32)
    requires
        view.ndim.0 <= 8,
        view.data != 0,
        view.layout.0 == AiTensorLayout::DENSE,
        view.dtype.element_size() == Some(size),
        forall|i: int| 0 <= i < view.ndim.0 ==> (#[trigger] view.shape[i]).0 > 0,
        forall|i: int|
            0 <= i < view.ndim.0 ==> (#[trigger] view.stride_bytes[i]).0 == size
                * crate::shape::product(view_dims(view), i + 1, view.ndim.0 as int),
        size * crate::shape::product(view_dims(view), 0, view.ndim.0 as int)
            <= view.byte_len.0 <= usize::MAX,
    ensures
        view_fault(view) is None,
{
    let dims = view_dims(view);
    let rank = view.ndim.0 as int;
    let unit = size as nat;
    assert(unit > 0);
    dense_span(view, unit, rank);
    assert forall|i: int| 0 <= i < dims.len() implies dims[i] > 0 by {
        assert(view.shape[i].0 > 0);
    }
    let total = crate::shape::product(dims, 0, rank) as int;
    assert(total <= unit * total) by (nonlinear_arith)
        requires
            unit >= 1,
            total >= 0,
    ;
    assert forall|n: int| 0 <= n <= rank implies #[trigger] crate::shape::product(dims, 0, n)
        <= usize::MAX by {
        crate::shape::product_grows(dims, 0, n, rank);
    }
    assert forall|n: int| 0 <= n <= rank implies #[trigger] crate::shape::product(dims, n, rank)
        <= total by {
        crate::shape::product_split(dims, 0, n, rank);
        crate::shape::product_positive(dims, 0, n);
        let (head, tail) = (
            crate::shape::product(dims, 0, n) as int,
            crate::shape::product(dims, n, rank) as int,
        );
        assert(tail <= head * tail) by (nonlinear_arith)
            requires
                head >= 1,
                tail >= 0,
        ;
    }
    assert forall|i: int| 0 <= i < rank implies #[trigger] axis_ok(view, unit, i) && view_step(
        view,
        unit,
        i,
    ) == crate::shape::product(dims, i + 1, rank) by {
        let step = crate::shape::product(dims, i + 1, rank) as int;
        let u = unit as int;
        assert(view.stride_bytes[i].0 == u * step);
        assert(step <= total);
        crate::shape::product_positive(dims, i + 1, rank);
        assert(u * step <= u * total) by (nonlinear_arith)
            requires
                step <= total,
                u > 0,
        ;
        assert((u * step) % u == 0 && (u * step) / u == step) by (nonlinear_arith)
            requires
                u > 0,
        ;
    }
    assert forall|i: int| 0 <= i < rank implies #[trigger] view_step(view, unit, i)
        == crate::shape::product(dims, i + 1, rank) by {
        assert(axis_ok(view, unit, i));
    }
    assert(crate::shape::product(dims, rank, rank) == 1);
    let one = crate::shape::product(dims, rank, rank);
    assert(unit * one == unit) by (nonlinear_arith)
        requires
            one == 1,
    ;
    assert(view_span(view, rank) == unit * total - unit);
    assert(total > 0) by {
        crate::shape::product_positive(dims, 0, rank);
    }
    assert(view_is_dense(view, unit));
}


/// A buffer is read as elements where it is there, aligned, and a whole number of them; the
/// elements then fill it.
pub proof fn elements_fill_the_buffer(view: BackendTensorView, size: int, align: int)
    requires
        size > 0,
        align > 0,
    ensures
        typed_count(view, size, align) is Some <==> view.data != 0 && view.byte_len.0 <= usize::MAX
            && view.byte_len.0 as int % size == 0 && view.data as int % align == 0,
        typed_count(view, size, align) matches Some(count) ==> count * size == view.byte_len.0,
{
    let len = view.byte_len.0 as int;
    if align == 1 {
        assert(view.data as int % 1 == 0);
    }
    if typed_count(view, size, align) is Some {
        let count = len / size;
        assert(count * size == len && 0 <= count <= len) by (nonlinear_arith)
            requires
                count == len / size,
                len % size == 0,
                size > 0,
                len >= 0,
        ;
    }
}

} // verus!
