//! Two-dimensional maximum pooling.

use crate::backend::call::CallContext;
use crate::backend::conv2d::{one_or_more, source_index};
use crate::backend::float::{read_float_tensor, write_float_tensor, NEG_INFINITY_BITS};
use crate::backend::gather::{same_shape, write_indices};
use crate::backend::meta::TensorMeta;
use crate::uabi::desc::AiDtype;
use crate::uabi::error::BackendErr;
use crate::uabi::kernelattr::Pool2dAttr;
use vstd::prelude::*;

verus! {

/// The extents of a pooling.
#[derive(Clone, Copy, Debug)]
pub struct PoolGeom {
    /// Images times channels.
    pub planes: usize,
    /// Input height.
    pub ih: usize,
    /// Input width.
    pub iw: usize,
    /// Output height.
    pub oh: usize,
    /// Output width.
    pub ow: usize,
    /// Window height.
    pub kh: usize,
    /// Window width.
    pub kw: usize,
    /// Vertical step.
    pub sh: usize,
    /// Horizontal step.
    pub sw: usize,
    /// Vertical dilation.
    pub dh: usize,
    /// Horizontal dilation.
    pub dw: usize,
    /// Rows of padding above.
    pub ph: usize,
    /// Columns of padding to the left.
    pub pw: usize,
}

impl PoolGeom {
    /// Extents of the axes and of the window are 32-bit numbers.
    pub open spec fn wf(self) -> bool {
        &&& self.oh <= u32::MAX
        &&& self.ow <= u32::MAX
        &&& self.kh <= u32::MAX
        &&& self.kw <= u32::MAX
        &&& self.sh <= u32::MAX
        &&& self.sw <= u32::MAX
        &&& self.dh <= u32::MAX
        &&& self.dw <= u32::MAX
    }

    /// Elements of the input.
    pub open spec fn input_count(self) -> nat {
        self.planes as nat * self.ih as nat * self.iw as nat
    }

    /// Elements of the output.
    pub open spec fn output_count(self) -> nat {
        self.planes as nat * self.oh as nat * self.ow as nat
    }

    /// Plane of output position `t`.
    pub open spec fn plane(self, t: nat) -> nat {
        t / self.ow as nat / self.oh as nat
    }

    /// Row of output position `t`.
    pub open spec fn row(self, t: nat) -> nat {
        t / self.ow as nat % self.oh as nat
    }

    /// Column of output position `t`.
    pub open spec fn column(self, t: nat) -> nat {
        t % self.ow as nat
    }

    /// Input position under window element `(ky, kx)`, unless that is padding.
    pub open spec fn under(self, t: nat, ky: int, kx: int) -> Option<int> {
        match (
            crate::backend::conv2d::source(
                self.row(t) as int,
                self.sh as int,
                ky,
                self.dh as int,
                self.ph as int,
                self.ih as int,
            ),
            crate::backend::conv2d::source(
                self.column(t) as int,
                self.sw as int,
                kx,
                self.dw as int,
                self.pw as int,
                self.iw as int,
            ),
        ) {
            (Some(y), Some(x)) => Some((self.plane(t) * self.ih + y) * self.iw + x),
            _ => None,
        }
    }

    /// Input positions under the first `n` elements of row `ky` of the window.
    pub open spec fn window_row(self, t: nat, ky: int, n: int) -> Seq<int>
        decreases n,
    {
        if n <= 0 {
            Seq::empty()
        } else {
            match self.under(t, ky, n - 1) {
                Some(at) => self.window_row(t, ky, n - 1).push(at),
                None => self.window_row(t, ky, n - 1),
            }
        }
    }

    /// Input positions under the first `n` rows of the window.
    pub open spec fn window_rows(self, t: nat, n: int) -> Seq<int>
        decreases n,
    {
        if n <= 0 {
            Seq::empty()
        } else {
            self.window_rows(t, n - 1) + self.window_row(t, n - 1, self.kw as int)
        }
    }

    /// Input positions under the window at output position `t`, row by row.
    pub open spec fn window(self, t: nat) -> Seq<int> {
        self.window_rows(t, self.kh as int)
    }
}

/// The values at positions.
pub open spec fn values_at(values: Seq<u32>, positions: Seq<int>) -> Seq<u32> {
    Seq::new(positions.len(), |k: int| values[positions[k]])
}

/// Element `k` is the first that equals `best`; where none does, it is the first of all.
pub open spec fn first_equal<E: Fn(u32, u32) -> bool>(
    same: E,
    values: Seq<u32>,
    best: u32,
    k: int,
) -> bool {
    &&& 0 <= k < values.len()
    &&& {
        ||| same.ensures((values[k], best), true) && none_equal(same, values, best, k)
        ||| k == 0 && none_equal(same, values, best, values.len() as int)
    }
}

/// None of the first `n` values equals `best`.
pub open spec fn none_equal<E: Fn(u32, u32) -> bool>(
    same: E,
    values: Seq<u32>,
    best: u32,
    n: int,
) -> bool {
    forall|j: int| 0 <= j < n ==> same.ensures((#[trigger] values[j], best), false)
}

/// What belongs in an output position: the largest value under the window and the input
/// position of the first such value; over padding alone, negative infinity and zero.
pub open spec fn pooled<M: Fn(&Vec<u32>) -> u32, E: Fn(u32, u32) -> bool>(
    geom: PoolGeom,
    input: Seq<u32>,
    maximum: M,
    same: E,
    t: nat,
    value: u32,
    index: i64,
) -> bool {
    let window = geom.window(t);
    if window.len() == 0 {
        value == NEG_INFINITY_BITS && index == 0
    } else {
        exists|under: Vec<u32>, k: int|
            {
                &&& under@ == values_at(input, window)
                &&& maximum.ensures((&under,), value)
                &&& #[trigger] first_equal(same, under@, value, k)
                &&& index == window[k]
            }
    }
}

/// An output position exists.
proof fn position_exists(geom: PoolGeom, t: nat)
    requires
        t < geom.output_count(),
    ensures
        geom.ow > 0,
        geom.oh > 0,
        geom.plane(t) < geom.planes,
        geom.row(t) < geom.oh,
        geom.column(t) < geom.ow,
{
    crate::shape::split_below(t, geom.planes as nat * geom.oh as nat, geom.ow as nat);
    crate::shape::split_below(t / geom.ow as nat, geom.planes as nat, geom.oh as nat);
}

/// Position of an input element.
fn input_position(geom: &PoolGeom, plane: usize, y: usize, x: usize) -> (r: usize)
    requires
        geom.input_count() <= usize::MAX,
        plane < geom.planes,
        y < geom.ih,
        x < geom.iw,
    ensures
        r == (plane * geom.ih + y) * geom.iw + x,
        r < geom.input_count(),
{
    proof {
        crate::shape::joined_below(plane as nat, geom.planes as nat, y as nat, geom.ih as nat);
        let line = (plane as nat * geom.ih as nat + y as nat) as nat;
        crate::shape::joined_below(
            line,
            geom.planes as nat * geom.ih as nat,
            x as nat,
            geom.iw as nat,
        );
        assert(0 <= plane * geom.ih) by (nonlinear_arith)
            requires
                plane >= 0,
                geom.ih >= 0,
        ;
        assert(line <= line * geom.iw) by (nonlinear_arith)
            requires
                line >= 0,
                geom.iw >= 1,
        ;
    }
    (plane * geom.ih + y) * geom.iw + x
}

/// Collects the input positions under the window at an output position.
fn collect_window(geom: &PoolGeom, t: usize) -> (r: Vec<usize>)
    requires
        geom.wf(),
        geom.input_count() <= usize::MAX,
        t < geom.output_count(),
    ensures
        r@.len() == geom.window(t as nat).len(),
        forall|k: int|
            0 <= k < r@.len() ==> #[trigger] r@[k] == geom.window(t as nat)[k] && r@[k]
                < geom.input_count(),
{
    proof {
        position_exists(*geom, t as nat);
    }
    let column: usize = t % geom.ow;
    let line: usize = t / geom.ow;
    let row: usize = line % geom.oh;
    let plane: usize = line / geom.oh;
    let mut positions: Vec<usize> = Vec::new();
    let mut ky: usize = 0;
    while ky < geom.kh
        invariant
            ky <= geom.kh,
            geom.wf(),
            geom.input_count() <= usize::MAX,
            plane == geom.plane(t as nat),
            row == geom.row(t as nat),
            column == geom.column(t as nat),
            plane < geom.planes,
            row < geom.oh,
            column < geom.ow,
            positions@.len() == geom.window_rows(t as nat, ky as int).len(),
            forall|k: int|
                0 <= k < positions@.len() ==> #[trigger] positions@[k] == geom.window_rows(
                    t as nat,
                    ky as int,
                )[k] && positions@[k] < geom.input_count(),
        decreases geom.kh - ky,
    {
        let y: Option<usize> = source_index(row, geom.sh, ky, geom.dh, geom.ph, geom.ih);
        let ghost rows = geom.window_rows(t as nat, ky as int);
        let mut kx: usize = 0;
        while kx < geom.kw
            invariant
                kx <= geom.kw,
                ky < geom.kh,
                geom.wf(),
                geom.input_count() <= usize::MAX,
                plane == geom.plane(t as nat),
                row == geom.row(t as nat),
                column == geom.column(t as nat),
                plane < geom.planes,
                column < geom.ow,
                rows == geom.window_rows(t as nat, ky as int),
                match y {
                    Some(y) => crate::backend::conv2d::source(
                        row as int,
                        geom.sh as int,
                        ky as int,
                        geom.dh as int,
                        geom.ph as int,
                        geom.ih as int,
                    ) == Some(y as int) && y < geom.ih,
                    None => crate::backend::conv2d::source(
                        row as int,
                        geom.sh as int,
                        ky as int,
                        geom.dh as int,
                        geom.ph as int,
                        geom.ih as int,
                    ) is None,
                },
                positions@.len() == rows.len() + geom.window_row(
                    t as nat,
                    ky as int,
                    kx as int,
                ).len(),
                forall|k: int|
                    0 <= k < positions@.len() ==> #[trigger] positions@[k] == (rows
                        + geom.window_row(t as nat, ky as int, kx as int))[k] && positions@[k]
                        < geom.input_count(),
            decreases geom.kw - kx,
        {
            let x: Option<usize> = source_index(
                column,
                geom.sw,
                kx,
                geom.dw,
                geom.pw,
                geom.iw,
            );
            match (y, x) {
                (Some(y), Some(x)) => {
                    let at: usize = input_position(geom, plane, y, x);
                    assert(geom.under(t as nat, ky as int, kx as int) == Some(at as int));
                    positions.push(at);
                },
                _ => {
                    assert(geom.under(t as nat, ky as int, kx as int) is None);
                },
            }
            kx = kx + 1;
        }
        ky = ky + 1;
    }
    positions
}

/// Takes the largest value under the window at every output position.
pub fn max_pool<M: Fn(&Vec<u32>) -> u32, E: Fn(u32, u32) -> bool>(
    input: &[u32],
    geom: &PoolGeom,
    maximum: &M,
    same: &E,
) -> (r: (Vec<u32>, Vec<i64>))
    requires
        geom.wf(),
        input@.len() == geom.input_count(),
        input@.len() <= i64::MAX,
        geom.output_count() <= usize::MAX,
        forall|window: &Vec<u32>| #[trigger] maximum.requires((window,)),
        forall|a: u32, b: u32| #[trigger] same.requires((a, b)),
    ensures
        r.0@.len() == geom.output_count(),
        r.1@.len() == geom.output_count(),
        forall|t: int|
            0 <= t < geom.output_count() ==> pooled(
                *geom,
                input@,
                *maximum,
                *same,
                t as nat,
                #[trigger] r.0@[t],
                r.1@[t],
            ),
{
    let total: usize = input.len();
    let count: usize = count_outputs(geom);
    let mut values: Vec<u32> = Vec::new();
    let mut indices: Vec<i64> = Vec::new();
    let mut t: usize = 0;
    while t < count
        invariant
            t <= count,
            count == geom.output_count(),
            geom.wf(),
            total == input@.len(),
            input@.len() == geom.input_count(),
            input@.len() <= i64::MAX,
            values@.len() == t,
            indices@.len() == t,
            forall|window: &Vec<u32>| #[trigger] maximum.requires((window,)),
            forall|a: u32, b: u32| #[trigger] same.requires((a, b)),
            forall|j: int|
                0 <= j < t ==> pooled(
                    *geom,
                    input@,
                    *maximum,
                    *same,
                    j as nat,
                    #[trigger] values@[j],
                    indices@[j],
                ),
        decreases count - t,
    {
        let positions: Vec<usize> = collect_window(geom, t);
        if positions.len() == 0 {
            values.push(NEG_INFINITY_BITS);
            indices.push(0);
        } else {
            let under: Vec<u32> = pick_values(input, &positions);
            let best: u32 = maximum(&under);
            let k: usize = find_equal(&under, best, same);
            let position: usize = positions[k];
            proof {
                assert(under@ =~= values_at(input@, geom.window(t as nat)));
                assert(first_equal(*same, under@, best, k as int));
                assert(pooled(
                    *geom,
                    input@,
                    *maximum,
                    *same,
                    t as nat,
                    best,
                    position as i64,
                ));
            }
            values.push(best);
            indices.push(position as i64);
        }
        t = t + 1;
    }
    (values, indices)
}

/// Number of output elements.
fn count_outputs(geom: &PoolGeom) -> (r: usize)
    requires
        geom.output_count() <= usize::MAX,
    ensures
        r == geom.output_count(),
{
    if geom.ow == 0 {
        assert(geom.planes as nat * geom.oh as nat * 0 == 0) by (nonlinear_arith);
        return 0;
    }
    proof {
        let lines = geom.planes as nat * geom.oh as nat;
        assert(lines <= lines * geom.ow as nat) by (nonlinear_arith)
            requires
                geom.ow >= 1,
        ;
    }
    geom.planes * geom.oh * geom.ow
}

/// Picks values by position.
pub fn pick_values(values: &[u32], positions: &Vec<usize>) -> (r: Vec<u32>)
    requires
        forall|k: int| 0 <= k < positions@.len() ==> #[trigger] positions@[k] < values@.len(),
    ensures
        r@.len() == positions@.len(),
        forall|k: int|
            0 <= k < positions@.len() ==> #[trigger] r@[k] == values@[positions@[k] as int],
{
    let mut picked: Vec<u32> = Vec::new();
    let mut k: usize = 0;
    while k < positions.len()
        invariant
            k <= positions@.len(),
            picked@.len() == k,
            forall|j: int| 0 <= j < positions@.len() ==> #[trigger] positions@[j] < values@.len(),
            forall|j: int| 0 <= j < k ==> #[trigger] picked@[j] == values@[positions@[j] as int],
        decreases positions@.len() - k,
    {
        let position: usize = positions[k];
        picked.push(values[position]);
        k = k + 1;
    }
    picked
}

/// Finds the first value that equals `best`; where none does, the first of all.
fn find_equal<E: Fn(u32, u32) -> bool>(values: &Vec<u32>, best: u32, same: &E) -> (r: usize)
    requires
        values@.len() > 0,
        forall|a: u32, b: u32| #[trigger] same.requires((a, b)),
    ensures
        first_equal(*same, values@, best, r as int),
{
    let mut k: usize = 0;
    while k < values.len()
        invariant
            k <= values@.len(),
            forall|a: u32, b: u32| #[trigger] same.requires((a, b)),
            none_equal(*same, values@, best, k as int),
        decreases values@.len() - k,
    {
        if same(values[k], best) {
            return k;
        }
        k = k + 1;
    }
    0
}

/// Elements that a window of `kernel` taps spans.
pub open spec fn spanned(kernel: int, dilation: int) -> int {
    dilation * (if kernel > 0 {
        kernel - 1
    } else {
        0
    }) + 1
}

/// Extent of a pooled axis: the number of window positions that fit, rounded as asked.
pub open spec fn pooled_extent(
    input: int,
    kernel: int,
    stride: int,
    dilation: int,
    pad_before: int,
    pad_after: int,
    ceil_mode: bool,
) -> int {
    let room = input + pad_before + pad_after - spanned(kernel, dilation);
    if room < 0 {
        0
    } else if ceil_mode {
        (room + stride - 1) / stride + 1
    } else {
        room / stride + 1
    }
}

/// Extent of a pooled axis.
pub fn pool_output_dim(
    input: usize,
    kernel: usize,
    stride: usize,
    dilation: usize,
    pad_before: usize,
    pad_after: usize,
    ceil_mode: bool,
) -> (r: Result<usize, BackendErr>)
    requires
        stride > 0,
    ensures
        match r {
            Ok(extent) => {
                &&& spanned(kernel as int, dilation as int) <= usize::MAX
                &&& input + pad_before + pad_after <= usize::MAX
                &&& extent == pooled_extent(
                    input as int,
                    kernel as int,
                    stride as int,
                    dilation as int,
                    pad_before as int,
                    pad_after as int,
                    ceil_mode,
                )
            },
            Err(err) => {
                &&& err == BackendErr::InvalidAttr
                &&& spanned(kernel as int, dilation as int) > usize::MAX || input + pad_before
                    + pad_after > usize::MAX
            },
        },
{
    let taps: usize = if kernel > 0 {
        kernel - 1
    } else {
        0
    };
    let span: usize = match dilation.checked_mul(taps) {
        Some(value) => match value.checked_add(1) {
            Some(span) => span,
            None => {
                return Err(BackendErr::InvalidAttr);
            },
        },
        None => {
            return Err(BackendErr::InvalidAttr);
        },
    };
    let padded: usize = match input.checked_add(pad_before) {
        Some(value) => match value.checked_add(pad_after) {
            Some(padded) => padded,
            None => {
                return Err(BackendErr::InvalidAttr);
            },
        },
        None => {
            return Err(BackendErr::InvalidAttr);
        },
    };
    assert(0 <= dilation * taps) by (nonlinear_arith)
        requires
            dilation >= 0,
            taps >= 0,
    ;
    if padded < span {
        return Ok(0);
    }
    let room: usize = padded - span;
    let steps: usize = room / stride;
    proof {
        let r = room as int;
        let s = stride as int;
        vstd::arithmetic::div_mod::lemma_fundamental_div_mod(r, s);
        vstd::arithmetic::div_mod::lemma_mod_bound(r, s);
        assert(r / s <= r) by (nonlinear_arith)
            requires
                r >= 0,
                s >= 1,
        ;
        let q = r / s;
        let m = r % s;
        if m == 0 {
            vstd::arithmetic::div_mod::lemma_fundamental_div_mod_converse(
                r + s - 1,
                s,
                q,
                s - 1,
            );
        } else {
            assert((q + 1) * s == q * s + s) by (nonlinear_arith);
            assert(s * q == q * s) by (nonlinear_arith);
            vstd::arithmetic::div_mod::lemma_fundamental_div_mod_converse(
                r + s - 1,
                s,
                q + 1,
                m - 1,
            );
            assert(q + 1 <= r) by (nonlinear_arith)
                requires
                    r == s * q + m,
                    m >= 1,
                    s >= 1,
                    q >= 0,
            ;
        }
    }
    if ceil_mode && room % stride != 0 {
        Ok(steps + 2)
    } else {
        Ok(steps + 1)
    }
}

/// A checked pooling.
#[derive(Clone, Copy, Debug)]
pub struct PoolPlan {
    /// The input.
    pub input: TensorMeta,
    /// The output.
    pub output: TensorMeta,
    /// The tensor of positions, where it is asked for.
    pub indices: Option<TensorMeta>,
    /// The extents.
    pub geom: PoolGeom,
}

impl PoolPlan {
    /// The tensors are half-precision tensors of the extents, and the positions 64-bit
    /// numbers of the shape of the output.
    pub open spec fn wf(self) -> bool {
        &&& crate::backend::float::halves(self.input)
        &&& crate::backend::float::halves(self.output)
        &&& self.geom.wf()
        &&& self.input.element_count == self.geom.input_count()
        &&& self.output.element_count == self.geom.output_count()
        &&& self.indices matches Some(meta) ==> meta.wf() && meta.element_size == 8
            && meta.element_count == self.output.element_count
    }

    /// The bytes of every tensor can be counted.
    pub open spec fn countable(self) -> bool {
        &&& crate::backend::logical::countable(self.input)
        &&& crate::backend::logical::countable(self.output)
        &&& self.indices matches Some(meta) ==> crate::backend::logical::countable(meta)
    }
}

/// An extent in the sense of an attribute, as it comes out of a pooling.
pub open spec fn attr_extent(
    input: nat,
    kernel: u32,
    stride: u32,
    dilation: u32,
    pad_before: u32,
    pad_after: u32,
    flags: u32,
) -> Option<int> {
    let spread = crate::backend::conv2d::at_least_one(dilation);
    if spanned(kernel as int, spread) > usize::MAX || input + pad_before + pad_after
        > usize::MAX {
        None
    } else {
        Some(
            pooled_extent(
                input as int,
                kernel as int,
                crate::backend::conv2d::at_least_one(stride),
                spread,
                pad_before as int,
                pad_after as int,
                flags & Pool2dAttr::CEIL_MODE != 0,
            ),
        )
    }
}

/// Height of the output that an attribute asks for.
pub open spec fn pool_height(attr: Pool2dAttr, input: nat) -> Option<int> {
    attr_extent(
        input,
        attr.kernel_h.0,
        attr.stride_h.0,
        attr.dilation_h.0,
        attr.pad_top.0,
        attr.pad_bottom.0,
        attr.flags.0,
    )
}

/// Width of the output that an attribute asks for.
pub open spec fn pool_width(attr: Pool2dAttr, input: nat) -> Option<int> {
    attr_extent(
        input,
        attr.kernel_w.0,
        attr.stride_w.0,
        attr.dilation_w.0,
        attr.pad_left.0,
        attr.pad_right.0,
        attr.flags.0,
    )
}

/// What is wrong with the tensor of positions, where anything is.
pub open spec fn pool_indices_fault(ctx: CallContext) -> Option<BackendErr> {
    let output = ctx.outputs[0];
    let indices = ctx.outputs[1];
    if ctx.outputs@.len() == 1 {
        None
    } else if crate::backend::meta::view_fault(indices) is Some {
        crate::backend::meta::view_fault(indices)
    } else if indices.dtype.0 != AiDtype::I64 || crate::backend::meta::view_dims(indices)
        != crate::backend::meta::view_dims(output) {
        Some(BackendErr::InvalidTensor)
    } else {
        None
    }
}

/// What is wrong with a call of the pooling, where anything is.
pub open spec fn max_pool_fault(ctx: CallContext) -> Option<BackendErr> {
    let input = ctx.inputs[0];
    let output = ctx.outputs[0];
    if ctx.inputs@.len() != 1 || !(1 <= ctx.outputs@.len() <= 2) {
        Some(BackendErr::InvalidInput)
    } else if !crate::backend::call::no_overlap(ctx.inputs@, ctx.outputs@) {
        Some(BackendErr::InvalidTensor)
    } else {
        match ctx.attr_as::<Pool2dAttr>() {
            None => Some(BackendErr::InvalidAttr),
            Some(attr) => if crate::backend::meta::view_fault(input) is Some {
                crate::backend::meta::view_fault(input)
            } else if crate::backend::meta::view_fault(output) is Some {
                crate::backend::meta::view_fault(output)
            } else if input.dtype.0 != AiDtype::F16 || output.dtype.0 != AiDtype::F16 {
                Some(BackendErr::UnsupportedDtype)
            } else if input.ndim.0 != 4 || output.ndim.0 != 4 || input.shape[0] != output.shape[0]
                || input.shape[1] != output.shape[1] {
                Some(BackendErr::InvalidTensor)
            } else if attr.kernel_h.0 == 0 || attr.kernel_w.0 == 0 {
                Some(BackendErr::InvalidAttr)
            } else if pool_height(attr, input.shape[2].0 as nat) is None || pool_width(
                attr,
                input.shape[3].0 as nat,
            ) is None {
                Some(BackendErr::InvalidAttr)
            } else if pool_height(attr, input.shape[2].0 as nat) != Some(
                output.shape[2].0 as int,
            ) || pool_width(attr, input.shape[3].0 as nat) != Some(output.shape[3].0 as int) {
                Some(BackendErr::InvalidTensor)
            } else {
                pool_indices_fault(ctx)
            },
        }
    }
}

/// The window, steps and padding are those of the attribute.
pub open spec fn pool_geom_of(
    attr: Pool2dAttr,
    input: TensorMeta,
    output: TensorMeta,
    geom: PoolGeom,
) -> bool {
    &&& geom.planes == input.shape[0] as nat * input.shape[1] as nat
    &&& geom.ih == input.shape[2]
    &&& geom.iw == input.shape[3]
    &&& geom.oh == output.shape[2]
    &&& geom.ow == output.shape[3]
    &&& geom.kh == attr.kernel_h.0
    &&& geom.kw == attr.kernel_w.0
    &&& geom.sh == crate::backend::conv2d::at_least_one(attr.stride_h.0)
    &&& geom.sw == crate::backend::conv2d::at_least_one(attr.stride_w.0)
    &&& geom.dh == crate::backend::conv2d::at_least_one(attr.dilation_h.0)
    &&& geom.dw == crate::backend::conv2d::at_least_one(attr.dilation_w.0)
    &&& geom.ph == attr.pad_top.0
    &&& geom.pw == attr.pad_left.0
}

/// Checks a call of the pooling.
pub fn check_max_pool(ctx: &CallContext) -> (r: Result<PoolPlan, BackendErr>)
    requires
        ctx.wf(),
    ensures
        match r {
            Ok(plan) => {
                &&& max_pool_fault(*ctx) is None
                &&& plan.wf()
                &&& crate::backend::call::checked(ctx.inputs[0], plan.input)
                &&& crate::backend::call::checked(ctx.outputs[0], plan.output)
                &&& pool_geom_of(
                    ctx.attr_as::<Pool2dAttr>()->0,
                    plan.input,
                    plan.output,
                    plan.geom,
                )
                &&& match plan.indices {
                    Some(meta) => ctx.outputs@.len() == 2 && crate::backend::call::checked(
                        ctx.outputs[1],
                        meta,
                    ),
                    None => ctx.outputs@.len() == 1,
                }
            },
            Err(err) => max_pool_fault(*ctx) == Some(err),
        },
{
    ctx.expect_io_range(1, 1, 1, 2)?;
    ctx.reject_input_output_alias()?;
    let attr: Pool2dAttr = ctx.read_attr::<Pool2dAttr>()?;
    let input: TensorMeta = ctx.inputs[0].checked_meta()?;
    let output: TensorMeta = ctx.outputs[0].checked_meta()?;
    if ctx.inputs[0].dtype.0 != AiDtype::F16 || ctx.outputs[0].dtype.0 != AiDtype::F16 {
        return Err(BackendErr::UnsupportedDtype);
    }
    if input.rank != 4 || output.rank != 4 {
        return Err(BackendErr::InvalidTensor);
    }
    assert(input.shape[0] == ctx.inputs[0].shape[0].0 && input.shape[1]
        == ctx.inputs[0].shape[1].0);
    assert(input.shape[2] == ctx.inputs[0].shape[2].0 && input.shape[3]
        == ctx.inputs[0].shape[3].0);
    assert(output.shape[0] == ctx.outputs[0].shape[0].0 && output.shape[1]
        == ctx.outputs[0].shape[1].0);
    assert(output.shape[2] == ctx.outputs[0].shape[2].0 && output.shape[3]
        == ctx.outputs[0].shape[3].0);
    if input.shape[0] != output.shape[0] || input.shape[1] != output.shape[1] {
        return Err(BackendErr::InvalidTensor);
    }
    let kh: usize = attr.kernel_h.0 as usize;
    let kw: usize = attr.kernel_w.0 as usize;
    let sh: usize = one_or_more(attr.stride_h.0);
    let sw: usize = one_or_more(attr.stride_w.0);
    let dh: usize = one_or_more(attr.dilation_h.0);
    let dw: usize = one_or_more(attr.dilation_w.0);
    if kh == 0 || kw == 0 {
        return Err(BackendErr::InvalidAttr);
    }
    let ceil: bool = attr.flags.0 & Pool2dAttr::CEIL_MODE != 0;
    let height: usize = pool_output_dim(
        input.shape[2],
        kh,
        sh,
        dh,
        attr.pad_top.0 as usize,
        attr.pad_bottom.0 as usize,
        ceil,
    )?;
    let width: usize = pool_output_dim(
        input.shape[3],
        kw,
        sw,
        dw,
        attr.pad_left.0 as usize,
        attr.pad_right.0 as usize,
        ceil,
    )?;
    if output.shape[2] != height || output.shape[3] != width {
        return Err(BackendErr::InvalidTensor);
    }
    let indices: Option<TensorMeta> = if ctx.outputs.len() == 2 {
        let meta: TensorMeta = ctx.outputs[1].checked_meta()?;
        if ctx.outputs[1].dtype.0 != AiDtype::I64 || !same_shape(&meta, &output) {
            return Err(BackendErr::InvalidTensor);
        }
        assert(meta.dims().len() == output.dims().len());
        Some(meta)
    } else {
        None
    };
    proof {
        crate::backend::meta::four_axes(input);
        crate::backend::meta::four_axes(output);
    }
    let geom = PoolGeom {
        planes: input.shape[0] * input.shape[1],
        ih: input.shape[2],
        iw: input.shape[3],
        oh: output.shape[2],
        ow: output.shape[3],
        kh,
        kw,
        sh,
        sw,
        dh,
        dw,
        ph: attr.pad_top.0 as usize,
        pw: attr.pad_left.0 as usize,
    };
    Ok(PoolPlan { input, output, indices, geom })
}

/// What running a pooling does: the input is widened, the largest values taken, and the
/// output narrowed; the positions come back. Tensors whose bytes cannot be counted are
/// refused.
pub open spec fn max_pool_outcome<
    W: Fn(u16) -> u32,
    M: Fn(&Vec<u32>) -> u32,
    E: Fn(u32, u32) -> bool,
    N: Fn(u32) -> u16,
>(
    plan: PoolPlan,
    widen: W,
    maximum: M,
    same: E,
    narrow: N,
    raw: Seq<u8>,
    before: Seq<u8>,
    after: Seq<u8>,
    r: Result<Vec<i64>, BackendErr>,
) -> bool {
    match r {
        Ok(indices) => plan.countable() && exists|wide: Seq<u32>, best: Seq<u32>|
            {
                &&& #[trigger] crate::backend::float::widened(widen, raw, plan.input, wide)
                &&& best.len() == indices@.len() == plan.geom.output_count()
                &&& forall|t: int|
                    0 <= t < best.len() ==> pooled(
                        plan.geom,
                        wide,
                        maximum,
                        same,
                        t as nat,
                        #[trigger] best[t],
                        indices@[t],
                    )
                &&& #[trigger] crate::backend::float::narrowed(
                    narrow,
                    best,
                    plan.output,
                    before,
                    after,
                )
            },
        Err(err) => !plan.countable() && err == BackendErr::InvalidTensor && after == before,
    }
}

/// Pools: `maximum` takes the largest value under each window. The positions of those
/// values come back.
pub fn run_max_pool<
    W: Fn(u16) -> u32,
    M: Fn(&Vec<u32>) -> u32,
    E: Fn(u32, u32) -> bool,
    N: Fn(u32) -> u16,
>(
    plan: &PoolPlan,
    raw: &[u8],
    output: &mut [u8],
    widen: &W,
    maximum: &M,
    same: &E,
    narrow: &N,
) -> (r: Result<Vec<i64>, BackendErr>)
    requires
        plan.wf(),
        plan.input.lies_in(raw@.len() as int / 2),
        plan.output.lies_in(old(output)@.len() as int / 2),
        forall|h: u16| #[trigger] widen.requires((h,)),
        forall|window: &Vec<u32>| #[trigger] maximum.requires((window,)),
        forall|a: u32, b: u32| #[trigger] same.requires((a, b)),
        forall|v: u32| #[trigger] narrow.requires((v,)),
    ensures
        max_pool_outcome(
            *plan,
            *widen,
            *maximum,
            *same,
            *narrow,
            raw@,
            old(output)@,
            final(output)@,
            r,
        ),
{
    if plan.output.element_count.checked_mul(plan.output.element_size).is_none() {
        return Err(BackendErr::InvalidTensor);
    }
    match &plan.indices {
        Some(meta) => if meta.element_count.checked_mul(meta.element_size).is_none() {
            return Err(BackendErr::InvalidTensor);
        },
        None => {},
    }
    let wide: Vec<u32> = read_float_tensor(raw, &plan.input, widen)?;
    let (best, indices) = max_pool(&wide, &plan.geom, maximum, same);
    write_float_tensor(&best, output, &plan.output, narrow)?;
    Ok(indices)
}

/// What pooling into both outputs does: what pooling does, and the positions written where
/// the plan has a tensor for them.
pub open spec fn max_pool_filled<
    W: Fn(u16) -> u32,
    M: Fn(&Vec<u32>) -> u32,
    E: Fn(u32, u32) -> bool,
    N: Fn(u32) -> u16,
>(
    plan: PoolPlan,
    widen: W,
    maximum: M,
    same: E,
    narrow: N,
    raw: Seq<u8>,
    before: (Seq<u8>, Seq<u8>),
    after: (Seq<u8>, Seq<u8>),
    r: Result<(), BackendErr>,
) -> bool {
    match r {
        Ok(_) => exists|indices: Vec<i64>|
            {
                &&& #[trigger] max_pool_outcome(
                    plan,
                    widen,
                    maximum,
                    same,
                    narrow,
                    raw,
                    before.0,
                    after.0,
                    Ok(indices),
                )
                &&& match plan.indices {
                    Some(meta) => crate::backend::gather::indices_written(
                        indices@,
                        meta,
                        before.1,
                        after.1,
                    ),
                    None => after.1 == before.1,
                }
            },
        Err(err) => !plan.countable() && err == BackendErr::InvalidTensor && after == before,
    }
}

/// Pools, and writes the positions of the largest values to the second output where the
/// plan has a tensor for them.
pub fn run_max_pool_with_indices<
    W: Fn(u16) -> u32,
    M: Fn(&Vec<u32>) -> u32,
    E: Fn(u32, u32) -> bool,
    N: Fn(u32) -> u16,
>(
    plan: &PoolPlan,
    raw: &[u8],
    output: &mut [u8],
    positions: &mut [u8],
    widen: &W,
    maximum: &M,
    same: &E,
    narrow: &N,
) -> (r: Result<(), BackendErr>)
    requires
        plan.wf(),
        plan.input.lies_in(raw@.len() as int / 2),
        plan.output.lies_in(old(output)@.len() as int / 2),
        plan.indices matches Some(meta) ==> meta.lies_in(old(positions)@.len() as int / 8),
        forall|h: u16| #[trigger] widen.requires((h,)),
        forall|window: &Vec<u32>| #[trigger] maximum.requires((window,)),
        forall|a: u32, b: u32| #[trigger] same.requires((a, b)),
        forall|v: u32| #[trigger] narrow.requires((v,)),
    ensures
        max_pool_filled(
            *plan,
            *widen,
            *maximum,
            *same,
            *narrow,
            raw@,
            (old(output)@, old(positions)@),
            (final(output)@, final(positions)@),
            r,
        ),
{
    let indices: Vec<i64> = run_max_pool(plan, raw, output, widen, maximum, same, narrow)?;
    let written: Result<(), BackendErr> = match &plan.indices {
        Some(meta) => write_indices(&indices, positions, meta),
        None => Ok(()),
    };
    proof {
        let before = (old(output)@, old(positions)@);
        let after = (output@, positions@);
        assert(max_pool_outcome(
            *plan,
            *widen,
            *maximum,
            *same,
            *narrow,
            raw@,
            before.0,
            after.0,
            Ok(indices),
        ));
    }
    written
}


/// Output positions count planes, rows and columns.
proof fn output_decodes(geom: PoolGeom, plane: int, oy: int, ox: int)
    requires
        0 <= plane < geom.planes,
        0 <= oy < geom.oh,
        0 <= ox < geom.ow,
    ensures
        ({
            let t = (plane * geom.oh + oy) * geom.ow + ox;
            &&& 0 <= t < geom.output_count()
            &&& geom.plane(t as nat) == plane
            &&& geom.row(t as nat) == oy
            &&& geom.column(t as nat) == ox
        }),
{
    let (oh, ow) = (geom.oh as nat, geom.ow as nat);
    crate::shape::joined_below(plane as nat, geom.planes as nat, oy as nat, oh);
    let rows = (plane * oh + oy) as nat;
    crate::shape::joined_below(rows, geom.planes as nat * oh, ox as nat, ow);
}

/// What lies under an element of a window row is collected with the row.
proof fn row_holds(geom: PoolGeom, t: nat, ky: int, kx: int, n: int) -> (k: int)
    requires
        0 <= kx < n,
        geom.under(t, ky, kx) is Some,
    ensures
        0 <= k < geom.window_row(t, ky, n).len(),
        geom.window_row(t, ky, n)[k] == geom.under(t, ky, kx)->0,
    decreases n,
{
    if kx == n - 1 {
        geom.window_row(t, ky, n - 1).len() as int
    } else {
        row_holds(geom, t, ky, kx, n - 1)
    }
}

/// What lies under an element of the window is collected.
proof fn window_holds(geom: PoolGeom, t: nat, ky: int, kx: int, n: int) -> (k: int)
    requires
        0 <= ky < n,
        0 <= kx < geom.kw,
        geom.under(t, ky, kx) is Some,
    ensures
        0 <= k < geom.window_rows(t, n).len(),
        geom.window_rows(t, n)[k] == geom.under(t, ky, kx)->0,
    decreases n,
{
    if ky == n - 1 {
        let k = row_holds(geom, t, ky, kx, geom.kw as int);
        geom.window_rows(t, n - 1).len() + k
    } else {
        window_holds(geom, t, ky, kx, n - 1)
    }
}

/// What is collected with a window row lies under one of its elements.
proof fn row_came_from(geom: PoolGeom, t: nat, ky: int, n: int, k: int) -> (kx: int)
    requires
        0 <= k < geom.window_row(t, ky, n).len(),
    ensures
        0 <= kx < n,
        geom.under(t, ky, kx) == Some(geom.window_row(t, ky, n)[k]),
    decreases n,
{
    if n <= 0 {
        0
    } else if k < geom.window_row(t, ky, n - 1).len() {
        row_came_from(geom, t, ky, n - 1, k)
    } else {
        n - 1
    }
}

/// What is collected lies under one element of the window.
proof fn window_came_from(geom: PoolGeom, t: nat, n: int, k: int) -> (r: (int, int))
    requires
        0 <= k < geom.window_rows(t, n).len(),
    ensures
        0 <= r.0 < n,
        0 <= r.1 < geom.kw,
        geom.under(t, r.0, r.1) == Some(geom.window_rows(t, n)[k]),
    decreases n,
{
    if n <= 0 {
        (0, 0)
    } else {
        let before = geom.window_rows(t, n - 1).len() as int;
        if k < before {
            window_came_from(geom, t, n - 1, k)
        } else {
            (n - 1, row_came_from(geom, t, n - 1, geom.kw as int, k - before))
        }
    }
}

/// Input row that element `ky` of a window at output row `oy` lies over; negative or past the
/// input where that is padding.
pub open spec fn row_under(geom: PoolGeom, oy: int, ky: int) -> int {
    oy * geom.sh - geom.ph + ky * geom.dh
}

/// Input column that element `kx` of a window at output column `ox` lies over.
pub open spec fn column_under(geom: PoolGeom, ox: int, kx: int) -> int {
    ox * geom.sw - geom.pw + kx * geom.dw
}

/// Pooling takes the largest: nothing in the same plane that the window lies over is above
/// the output element.
pub proof fn nothing_under_the_window_is_above<M: Fn(&Vec<u32>) -> u32, E: Fn(u32, u32) -> bool>(
    geom: PoolGeom,
    input: Seq<u32>,
    maximum: M,
    same: E,
    height: spec_fn(u32) -> int,
    plane: int,
    oy: int,
    ox: int,
    value: u32,
    index: i64,
    ky: int,
    kx: int,
)
    requires
        0 <= plane < geom.planes,
        0 <= oy < geom.oh,
        0 <= ox < geom.ow,
        crate::backend::reduce::takes_largest(maximum, height),
        pooled(
            geom,
            input,
            maximum,
            same,
            ((plane * geom.oh + oy) * geom.ow + ox) as nat,
            value,
            index,
        ),
        0 <= ky < geom.kh,
        0 <= kx < geom.kw,
        0 <= row_under(geom, oy, ky) < geom.ih,
        0 <= column_under(geom, ox, kx) < geom.iw,
    ensures
        height(
            input[(plane * geom.ih + row_under(geom, oy, ky)) * geom.iw + column_under(
                geom,
                ox,
                kx,
            )],
        ) <= height(value),
{
    output_decodes(geom, plane, oy, ox);
    let t = ((plane * geom.oh + oy) * geom.ow + ox) as nat;
    let at = (plane * geom.ih + row_under(geom, oy, ky)) * geom.iw + column_under(geom, ox, kx);
    assert(geom.under(t, ky, kx) == Some(at));
    let p = window_holds(geom, t, ky, kx, geom.kh as int);
    let window = geom.window(t);
    assert(window[p] == at);
    let (under, k) = choose|under: Vec<u32>, k: int|
        {
            &&& under@ == values_at(input, window)
            &&& maximum.ensures((&under,), value)
            &&& #[trigger] first_equal(same, under@, value, k)
            &&& index == window[k]
        };
    assert(under@[p] == input[at]);
}

/// Pooling takes a value from under the window, and the index is where a value that equals it
/// stands in the input. Over padding alone, the output is negative infinity.
pub proof fn the_largest_is_under_the_window<M: Fn(&Vec<u32>) -> u32, E: Fn(u32, u32) -> bool>(
    geom: PoolGeom,
    input: Seq<u32>,
    maximum: M,
    same: E,
    height: spec_fn(u32) -> int,
    plane: int,
    oy: int,
    ox: int,
    value: u32,
    index: i64,
) -> (r: Option<(int, int)>)
    requires
        0 <= plane < geom.planes,
        0 <= oy < geom.oh,
        0 <= ox < geom.ow,
        crate::backend::reduce::takes_largest(maximum, height),
        forall|a: u32, b: u32| #[trigger] same.ensures((a, b), false) ==> a != b,
        forall|a: u32, b: u32| #[trigger] same.ensures((a, b), true) ==> height(a) == height(b),
        pooled(
            geom,
            input,
            maximum,
            same,
            ((plane * geom.oh + oy) * geom.ow + ox) as nat,
            value,
            index,
        ),
    ensures
        match r {
            Some((ky, kx)) => {
                let (y, x) = (row_under(geom, oy, ky), column_under(geom, ox, kx));
                &&& 0 <= ky < geom.kh
                &&& 0 <= kx < geom.kw
                &&& 0 <= y < geom.ih
                &&& 0 <= x < geom.iw
                &&& index == (plane * geom.ih + y) * geom.iw + x
                &&& height(input[index as int]) == height(value)
            },
            None => {
                &&& value == 0xff80_0000
                &&& index == 0
                &&& forall|ky: int, kx: int|
                    0 <= ky < geom.kh && 0 <= kx < geom.kw ==> !(0 <= #[trigger] row_under(
                        geom,
                        oy,
                        ky,
                    ) < geom.ih && 0 <= #[trigger] column_under(geom, ox, kx) < geom.iw)
            },
        },
{
    output_decodes(geom, plane, oy, ox);
    let t = ((plane * geom.oh + oy) * geom.ow + ox) as nat;
    let window = geom.window(t);
    if window.len() == 0 {
        assert forall|ky: int, kx: int| 0 <= ky < geom.kh && 0 <= kx < geom.kw implies !(0
            <= #[trigger] row_under(geom, oy, ky) < geom.ih && 0 <= #[trigger] column_under(
            geom,
            ox,
            kx,
        ) < geom.iw) by {
            if 0 <= row_under(geom, oy, ky) < geom.ih && 0 <= column_under(geom, ox, kx) < geom.iw {
                let p = window_holds(geom, t, ky, kx, geom.kh as int);
            }
        }
        None
    } else {
        let (under, k) = choose|under: Vec<u32>, k: int|
            {
                &&& under@ == values_at(input, window)
                &&& maximum.ensures((&under,), value)
                &&& #[trigger] first_equal(same, under@, value, k)
                &&& index == window[k]
            };
        let (ky, kx) = window_came_from(geom, t, geom.kh as int, k);
        assert(under@.contains(value));
        let p = choose|p: int| 0 <= p < under@.len() && under@[p] == value;
        if none_equal(same, under@, value, under@.len() as int) {
            assert(same.ensures((under@[p], value), false));
        }
        assert(same.ensures((under@[k], value), true));
        Some((ky, kx))
    }
}

/// A checked pooling has the window of its attribute: as high and wide, moved by its strides,
/// its elements apart by its dilations, and starting in its padding above and to the left. A
/// stride or dilation of zero stands for one.
pub proof fn pooling_follows_its_attribute(ctx: CallContext, plan: PoolPlan)
    requires
        call_ensures(check_max_pool, (&ctx,), Ok::<PoolPlan, BackendErr>(plan)),
    ensures
        ({
            let attr = ctx.attr_as::<Pool2dAttr>()->0;
            let geom = plan.geom;
            &&& geom.ih == plan.input.shape[2] && geom.iw == plan.input.shape[3]
            &&& geom.oh == plan.output.shape[2] && geom.ow == plan.output.shape[3]
            &&& geom.planes == plan.input.shape[0] * plan.input.shape[1]
            &&& geom.kh == attr.kernel_h.0 && geom.kw == attr.kernel_w.0
            &&& geom.ph == attr.pad_top.0 && geom.pw == attr.pad_left.0
            &&& attr.stride_h.0 > 0 ==> geom.sh == attr.stride_h.0
            &&& attr.stride_w.0 > 0 ==> geom.sw == attr.stride_w.0
            &&& attr.dilation_h.0 > 0 ==> geom.dh == attr.dilation_h.0
            &&& attr.dilation_w.0 > 0 ==> geom.dw == attr.dilation_w.0
            &&& attr.stride_h.0 == 0 ==> geom.sh == 1
            &&& attr.stride_w.0 == 0 ==> geom.sw == 1
            &&& attr.dilation_h.0 == 0 ==> geom.dh == 1
            &&& attr.dilation_w.0 == 0 ==> geom.dw == 1
        }),
{
}

/// As many window positions are counted as fit: the last window starts within the padded
/// input and ends in it, and one more would not. Rounding up lets the last window end past
/// the input, by less than a stride.
pub proof fn pooled_windows_fit(
    input: int,
    kernel: int,
    stride: int,
    dilation: int,
    pad_before: int,
    pad_after: int,
    ceil_mode: bool,
)
    requires
        kernel > 0,
        stride > 0,
        dilation > 0,
        input >= 0,
        pad_before >= 0,
        pad_after >= 0,
    ensures
        ({
            let count = pooled_extent(
                input,
                kernel,
                stride,
                dilation,
                pad_before,
                pad_after,
                ceil_mode,
            );
            let padded = input + pad_before + pad_after;
            let window = (kernel - 1) * dilation + 1;
            if window > padded {
                count == 0
            } else if ceil_mode {
                count > 0 && (count - 2) * stride + window < padded && padded <= (count - 1)
                    * stride + window || count == 1 && padded == window
            } else {
                count > 0 && (count - 1) * stride + window <= padded && padded < count * stride
                    + window
            }
        }),
{
    let padded = input + pad_before + pad_after;
    let window = (kernel - 1) * dilation + 1;
    assert(dilation * (kernel - 1) == (kernel - 1) * dilation) by (nonlinear_arith);
    let room = padded - window;
    if room >= 0 {
        let down = room / stride;
        let up = (room + stride - 1) / stride;
        assert(down * stride <= room < down * stride + stride && down >= 0) by (nonlinear_arith)
            requires
                down == room / stride,
                stride > 0,
                room >= 0,
        ;
        assert(up * stride - stride < room && room <= up * stride && up >= 0) by (nonlinear_arith)
            requires
                up == (room + stride - 1) / stride,
                stride > 0,
                room >= 0,
        ;
        assert((down + 1) * stride == down * stride + stride) by (nonlinear_arith);
        assert((up - 1) * stride == up * stride - stride) by (nonlinear_arith);
        if room == 0 && up > 0 {
            assert(up * stride >= stride) by (nonlinear_arith)
                requires
                    up > 0,
                    stride > 0,
            ;
        }
    }
}


/// Pooling fills its outputs position by position: each output element and each index come
/// from the window at their own position.
pub proof fn pooling_goes_window_by_window<
    W: Fn(u16) -> u32,
    M: Fn(&Vec<u32>) -> u32,
    E: Fn(u32, u32) -> bool,
    N: Fn(u32) -> u16,
>(
    plan: PoolPlan,
    widen: W,
    maximum: M,
    same: E,
    narrow: N,
    raw: Seq<u8>,
    before: Seq<u8>,
    after: Seq<u8>,
    indices: Vec<i64>,
    t: nat,
) -> (r: (Seq<u32>, Seq<u32>))
    requires
        max_pool_outcome(plan, widen, maximum, same, narrow, raw, before, after, Ok(indices)),
        t < plan.geom.output_count(),
    ensures
        crate::backend::float::widened(widen, raw, plan.input, r.0),
        crate::backend::float::narrowed(narrow, r.1, plan.output, before, after),
        indices@.len() == plan.geom.output_count(),
        pooled(plan.geom, r.0, maximum, same, t, r.1[t as int], indices@[t as int]),
{
    let (wide, best) = choose|wide: Seq<u32>, best: Seq<u32>|
        {
            &&& #[trigger] crate::backend::float::widened(widen, raw, plan.input, wide)
            &&& best.len() == indices@.len() == plan.geom.output_count()
            &&& forall|t: int|
                0 <= t < best.len() ==> pooled(
                    plan.geom,
                    wide,
                    maximum,
                    same,
                    t as nat,
                    #[trigger] best[t],
                    indices@[t],
                )
            &&& #[trigger] crate::backend::float::narrowed(
                narrow,
                best,
                plan.output,
                before,
                after,
            )
        };
    assert(best[t as int] == best[t as int]);
    (wide, best)
}

} // verus!
