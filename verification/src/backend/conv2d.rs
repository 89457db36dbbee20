//! Two-dimensional convolution of half-precision images.

use crate::backend::call::CallContext;
use crate::backend::matmul::{choose_product_path, ProductPath};
use crate::uabi::desc::AiDtype;
use crate::uabi::error::BackendErr;
use crate::uabi::kernelattr::{Conv2dAttr, MatMulAttr};
use crate::uabi::types::{DimSize, ElemStride, OpFlags};
use vstd::prelude::*;

verus! {

/// The extents of a convolution.
#[derive(Clone, Copy, Debug)]
pub struct Conv2dGeom {
    /// Number of images.
    pub batch: usize,
    /// Input channels.
    pub cin: usize,
    /// Output channels.
    pub cout: usize,
    /// Input height.
    pub ih: usize,
    /// Input width.
    pub iw: usize,
    /// Output height.
    pub oh: usize,
    /// Output width.
    pub ow: usize,
    /// Kernel height.
    pub kh: usize,
    /// Kernel width.
    pub kw: usize,
    /// Vertical step.
    pub sh: usize,
    /// Horizontal step.
    pub sw: usize,
    /// Vertical padding.
    pub ph: usize,
    /// Horizontal padding.
    pub pw: usize,
    /// Vertical dilation.
    pub dh: usize,
    /// Horizontal dilation.
    pub dw: usize,
    /// Number of channel groups.
    pub groups: usize,
}

/// A count of zero stands for one.
pub open spec fn at_least_one(value: u32) -> int {
    if value == 0 {
        1
    } else {
        value as int
    }
}

/// A count of zero stands for one.
pub fn one_or_more(value: u32) -> (r: usize)
    ensures
        r == at_least_one(value),
{
    if value == 0 {
        1
    } else {
        value as usize
    }
}

/// The extents that an attribute names.
pub open spec fn geom_of(attr: Conv2dAttr) -> Conv2dGeom {
    Conv2dGeom {
        batch: at_least_one(attr.batch.0) as usize,
        cin: attr.in_channels.0 as usize,
        cout: attr.out_channels.0 as usize,
        ih: attr.input_h.0 as usize,
        iw: attr.input_w.0 as usize,
        oh: attr.output_h.0 as usize,
        ow: attr.output_w.0 as usize,
        kh: attr.kernel_h.0 as usize,
        kw: attr.kernel_w.0 as usize,
        sh: at_least_one(attr.stride_h.0) as usize,
        sw: at_least_one(attr.stride_w.0) as usize,
        ph: attr.pad_h.0 as usize,
        pw: attr.pad_w.0 as usize,
        dh: at_least_one(attr.dilation_h.0) as usize,
        dw: at_least_one(attr.dilation_w.0) as usize,
        groups: at_least_one(attr.groups.0) as usize,
    }
}

impl Conv2dGeom {
    /// No extent is zero, each is a 32-bit number, and the groups share the channels
    /// evenly.
    pub open spec fn wf(self) -> bool {
        &&& 0 < self.batch <= u32::MAX
        &&& 0 < self.cin <= u32::MAX
        &&& 0 < self.cout <= u32::MAX
        &&& 0 < self.ih <= u32::MAX
        &&& 0 < self.iw <= u32::MAX
        &&& 0 < self.oh <= u32::MAX
        &&& 0 < self.ow <= u32::MAX
        &&& 0 < self.kh <= u32::MAX
        &&& 0 < self.kw <= u32::MAX
        &&& 0 < self.sh <= u32::MAX
        &&& 0 < self.sw <= u32::MAX
        &&& self.ph <= u32::MAX
        &&& self.pw <= u32::MAX
        &&& 0 < self.dh <= u32::MAX
        &&& 0 < self.dw <= u32::MAX
        &&& 0 < self.groups <= u32::MAX
        &&& self.cin % self.groups == 0
        &&& self.cout % self.groups == 0
    }

    /// Reads and checks the extents of an attribute.
    pub fn from_attr(attr: &Conv2dAttr) -> (r: Result<Self, BackendErr>)
        ensures
            match r {
                Ok(geom) => geom.wf() && geom == geom_of(*attr),
                Err(err) => err == BackendErr::InvalidAttr && !geom_of(*attr).wf(),
            },
    {
        let geom = Conv2dGeom {
            batch: one_or_more(attr.batch.0),
            cin: attr.in_channels.0 as usize,
            cout: attr.out_channels.0 as usize,
            ih: attr.input_h.0 as usize,
            iw: attr.input_w.0 as usize,
            oh: attr.output_h.0 as usize,
            ow: attr.output_w.0 as usize,
            kh: attr.kernel_h.0 as usize,
            kw: attr.kernel_w.0 as usize,
            sh: one_or_more(attr.stride_h.0),
            sw: one_or_more(attr.stride_w.0),
            ph: attr.pad_h.0 as usize,
            pw: attr.pad_w.0 as usize,
            dh: one_or_more(attr.dilation_h.0),
            dw: one_or_more(attr.dilation_w.0),
            groups: one_or_more(attr.groups.0),
        };
        if geom.cin == 0 || geom.cout == 0 || geom.ih == 0 || geom.iw == 0 || geom.oh == 0
            || geom.ow == 0 || geom.kh == 0 || geom.kw == 0 || geom.cin % geom.groups != 0
            || geom.cout % geom.groups != 0 {
            return Err(BackendErr::InvalidAttr);
        }
        Ok(geom)
    }

    /// Input channels of a group.
    pub open spec fn cin_group(self) -> nat {
        self.cin as nat / self.groups as nat
    }

    /// Output channels of a group.
    pub open spec fn cout_group(self) -> nat {
        self.cout as nat / self.groups as nat
    }

    /// Elements that meet in one output element.
    pub open spec fn patch(self) -> nat {
        self.cin_group() * (self.kh as nat * self.kw as nat)
    }

    /// Elements of one output channel.
    pub open spec fn spatial(self) -> nat {
        self.oh as nat * self.ow as nat
    }

    /// Elements of the input.
    pub open spec fn input_need(self) -> nat {
        self.batch as nat * self.cin as nat * self.ih as nat * self.iw as nat
    }

    /// Elements of the weights.
    pub open spec fn weight_need(self) -> nat {
        self.cout as nat * self.patch()
    }

    /// Elements of the output.
    pub open spec fn output_need(self) -> nat {
        self.batch as nat * self.cout as nat * self.spatial()
    }

    /// Buffers of the given lengths hold everything.
    pub open spec fn lengths_ok(
        self,
        input_len: int,
        weight_len: int,
        output_len: int,
        bias_len: Option<nat>,
    ) -> bool {
        &&& self.input_need() <= input_len
        &&& self.weight_need() <= weight_len
        &&& self.output_need() <= output_len
        &&& bias_len matches Some(len) ==> self.cout <= len
    }
}

impl Conv2dGeom {
    /// Each partial product is no larger than the whole.
    proof fn needs_bound_factors(self)
        requires
            self.wf(),
        ensures
            self.cin_group() > 0,
            self.cin_group() * self.groups as nat == self.cin,
            self.cout_group() > 0,
            self.cout_group() * self.groups as nat == self.cout,
            self.batch as nat * self.cin as nat <= self.input_need(),
            self.batch as nat * self.cin as nat * self.ih as nat <= self.input_need(),
            0 < self.kh as nat * self.kw as nat <= self.patch() <= self.weight_need(),
            0 < self.spatial() <= self.output_need(),
            0 < self.batch as nat * self.cout as nat <= self.output_need(),
            self.patch() == self.kh as nat * self.kw as nat * self.cin_group(),
            self.weight_need() == self.patch() * self.cout as nat,
    {
        let b = self.batch as nat;
        let bc = b * self.cin as nat;
        product_grows(bc, self.ih as nat);
        let bch = bc * self.ih as nat;
        product_grows(bch, self.iw as nat);
        let area = self.kh as nat * self.kw as nat;
        let g = self.cin_group();
        assert(area > 0) by (nonlinear_arith)
            requires
                area == self.kh as nat * self.kw as nat,
                self.kh > 0,
                self.kw > 0,
        ;
        group_positive(self.cin as nat, self.groups as nat);
        group_positive(self.cout as nat, self.groups as nat);
        product_grows(area, g);
        assert(area * g == g * area) by (nonlinear_arith);
        let patch = self.patch();
        product_grows(patch, self.cout as nat);
        assert(patch * self.cout as nat == self.cout as nat * patch) by (nonlinear_arith);
        let spatial = self.spatial();
        assert(spatial > 0) by (nonlinear_arith)
            requires
                spatial == self.oh as nat * self.ow as nat,
                self.oh > 0,
                self.ow > 0,
        ;
        let bo = b * self.cout as nat;
        product_grows(bo, spatial);
        assert(bo > 0) by (nonlinear_arith)
            requires
                bo == b * self.cout as nat,
                b > 0,
                self.cout > 0,
        ;
        product_grows(spatial, bo);
        assert(spatial * bo == bo * spatial) by (nonlinear_arith);
    }
}

/// Product of two counts, where it fits.
fn times(a: Option<usize>, b: usize) -> (r: Option<usize>)
    ensures
        a is None ==> r is None,
        a matches Some(x) ==> (match r {
            Some(y) => y == x as nat * b as nat,
            None => x as nat * b as nat > usize::MAX,
        }),
{
    match a {
        Some(x) => x.checked_mul(b),
        None => None,
    }
}

proof fn product_grows(a: nat, b: nat)
    requires
        b > 0,
    ensures
        a <= a * b,
{
    assert(a <= a * b) by (nonlinear_arith)
        requires
            b > 0,
    ;
}

/// Checks the lengths of the buffers.
pub fn validate_lengths(
    geom: &Conv2dGeom,
    input_len: usize,
    weight_len: usize,
    output_len: usize,
    bias_len: Option<usize>,
) -> (r: Result<(), BackendErr>)
    requires
        geom.wf(),
    ensures
        r == (if geom.lengths_ok(
            input_len as int,
            weight_len as int,
            output_len as int,
            match bias_len {
                Some(len) => Some(len as nat),
                None => None,
            },
        ) {
            Ok::<(), BackendErr>(())
        } else {
            Err(BackendErr::InvalidTensor)
        }),
{
    proof {
        geom.needs_bound_factors();
    }
    let input_need: Option<usize> = times(
        times(times(Some(geom.batch), geom.cin), geom.ih),
        geom.iw,
    );
    let area: Option<usize> = times(Some(geom.kh), geom.kw);
    let patch: Option<usize> = times(area, geom.cin / geom.groups);
    let weight_need: Option<usize> = times(patch, geom.cout);
    let output_need: Option<usize> = match geom.oh.checked_mul(geom.ow) {
        Some(spatial) => times(times(Some(geom.batch), geom.cout), spatial),
        None => None,
    };
    match (input_need, weight_need, output_need) {
        (Some(input_need), Some(weight_need), Some(output_need)) => {
            if input_len < input_need || weight_len < weight_need || output_len < output_need {
                return Err(BackendErr::InvalidTensor);
            }
            match bias_len {
                Some(len) => if len < geom.cout {
                    return Err(BackendErr::InvalidTensor);
                },
                None => {},
            }
            Ok(())
        },
        _ => Err(BackendErr::InvalidTensor),
    }
}

/// A count that is not zero and that the groups share evenly leaves something for each.
proof fn group_positive(count: nat, groups: nat)
    requires
        count > 0,
        groups > 0,
        count % groups == 0,
    ensures
        count / groups > 0,
        (count / groups) * groups == count,
{
    vstd::arithmetic::div_mod::lemma_fundamental_div_mod(count as int, groups as int);
    assert(groups * (count / groups) == (count / groups) * groups) by (nonlinear_arith);
    if count / groups == 0 {
        assert(0 * groups == 0) by (nonlinear_arith);
    }
}

/// Where a window element falls along one axis, unless it falls on the padding.
pub open spec fn source(
    out: int,
    step: int,
    tap: int,
    spread: int,
    pad: int,
    extent: int,
) -> Option<int> {
    let at = out * step + tap * spread - pad;
    if 0 <= at < extent {
        Some(at)
    } else {
        None
    }
}

/// Place of the input element that window element `(ky, kx)` falls on, unless it falls on
/// the padding.
pub open spec fn input_place(
    geom: Conv2dGeom,
    batch: int,
    channel: int,
    oy: int,
    ox: int,
    ky: int,
    kx: int,
) -> Option<int> {
    match (
        source(oy, geom.sh as int, ky, geom.dh as int, geom.ph as int, geom.ih as int),
        source(ox, geom.sw as int, kx, geom.dw as int, geom.pw as int, geom.iw as int),
    ) {
        (Some(y), Some(x)) => Some(
            ((batch * geom.cin + channel) * geom.ih + y) * geom.iw + x,
        ),
        _ => None,
    }
}

/// Where a window element falls along one axis, unless it falls on the padding.
pub fn source_index(
    out: usize,
    step: usize,
    tap: usize,
    spread: usize,
    pad: usize,
    extent: usize,
) -> (r: Option<usize>)
    requires
        out <= u32::MAX,
        step <= u32::MAX,
        tap <= u32::MAX,
        spread <= u32::MAX,
    ensures
        match r {
            Some(at) => source(
                out as int,
                step as int,
                tap as int,
                spread as int,
                pad as int,
                extent as int,
            ) == Some(at as int) && at < extent,
            None => source(
                out as int,
                step as int,
                tap as int,
                spread as int,
                pad as int,
                extent as int,
            ) is None,
        },
{
    assert(0 <= out * step <= 0xffff_ffff * 0xffff_ffff) by (nonlinear_arith)
        requires
            0 <= out <= 0xffff_ffff,
            0 <= step <= 0xffff_ffff,
    ;
    assert(0 <= tap * spread <= 0xffff_ffff * 0xffff_ffff) by (nonlinear_arith)
        requires
            0 <= tap <= 0xffff_ffff,
            0 <= spread <= 0xffff_ffff,
    ;
    let padded: u128 = (out as u128) * (step as u128) + (tap as u128) * (spread as u128);
    if padded < pad as u128 {
        return None;
    }
    let at: u128 = padded - pad as u128;
    if at < extent as u128 {
        Some(at as usize)
    } else {
        None
    }
}

/// Place of the input element that a window element falls on, unless it falls on the
/// padding.
fn input_index(
    geom: &Conv2dGeom,
    batch: usize,
    channel: usize,
    out_y: usize,
    out_x: usize,
    kernel_y: usize,
    kernel_x: usize,
) -> (r: Option<usize>)
    requires
        geom.wf(),
        geom.input_need() <= usize::MAX,
        batch < geom.batch,
        channel < geom.cin,
        out_y < geom.oh,
        out_x < geom.ow,
        kernel_y < geom.kh,
        kernel_x < geom.kw,
    ensures
        match r {
            Some(index) => {
                &&& input_place(
                    *geom,
                    batch as int,
                    channel as int,
                    out_y as int,
                    out_x as int,
                    kernel_y as int,
                    kernel_x as int,
                ) == Some(index as int)
                &&& index < geom.input_need()
            },
            None => input_place(
                *geom,
                batch as int,
                channel as int,
                out_y as int,
                out_x as int,
                kernel_y as int,
                kernel_x as int,
            ) is None,
        },
{
    let y: usize = match source_index(out_y, geom.sh, kernel_y, geom.dh, geom.ph, geom.ih) {
        Some(y) => y,
        None => {
            return None;
        },
    };
    let x: usize = match source_index(out_x, geom.sw, kernel_x, geom.dw, geom.pw, geom.iw) {
        Some(x) => x,
        None => {
            return None;
        },
    };
    proof {
        geom.needs_bound_factors();
        let bc = geom.batch as nat * geom.cin as nat;
        let bch = bc * geom.ih as nat;
        crate::shape::joined_below(
            batch as nat,
            geom.batch as nat,
            channel as nat,
            geom.cin as nat,
        );
        let plane = (batch as nat * geom.cin as nat + channel as nat) as nat;
        crate::shape::joined_below(plane, bc, y as nat, geom.ih as nat);
        let line = (plane * geom.ih as nat + y as nat) as nat;
        crate::shape::joined_below(line, bch, x as nat, geom.iw as nat);
        assert(0 <= batch * geom.cin) by (nonlinear_arith)
            requires
                batch >= 0,
                geom.cin >= 0,
        ;
        assert(0 <= plane * geom.ih) by (nonlinear_arith)
            requires
                plane >= 0,
                geom.ih >= 0,
        ;
        assert(0 <= line * geom.iw) by (nonlinear_arith)
            requires
                line >= 0,
                geom.iw >= 0,
        ;
    }
    Some(((batch * geom.cin + channel) * geom.ih + y) * geom.iw + x)
}

/// Place of the input element that meets patch element `q` of a group in output pixel
/// `s`, unless that is padding.
pub open spec fn patch_place(geom: Conv2dGeom, batch: int, group: int, q: int, s: int) -> Option<
    int,
> {
    input_place(
        geom,
        batch,
        group * geom.cin_group() + q / (geom.kh * geom.kw),
        s / (geom.ow as int),
        s % (geom.ow as int),
        (q / (geom.kw as int)) % (geom.kh as int),
        q % (geom.kw as int),
    )
}

/// Place of the input element that meets a patch element in an output pixel, unless that
/// is padding.
fn patch_index(geom: &Conv2dGeom, batch: usize, group: usize, q: usize, s: usize) -> (r: Option<
    usize,
>)
    requires
        geom.wf(),
        geom.input_need() <= usize::MAX,
        geom.weight_need() <= usize::MAX,
        geom.output_need() <= usize::MAX,
        batch < geom.batch,
        group < geom.groups,
        q < geom.patch(),
        s < geom.spatial(),
    ensures
        match r {
            Some(index) => patch_place(*geom, batch as int, group as int, q as int, s as int)
                == Some(index as int) && index < geom.input_need(),
            None => patch_place(*geom, batch as int, group as int, q as int, s as int) is None,
        },
{
    proof {
        geom.needs_bound_factors();
        let area = geom.kh as nat * geom.kw as nat;
        let g = geom.cin_group();
        assert(g * area == area * g) by (nonlinear_arith);
        crate::shape::split_below(q as nat, g, area);
        crate::shape::split_below(s as nat, geom.oh as nat, geom.ow as nat);
        crate::shape::joined_below(
            group as nat,
            geom.groups as nat,
            (q as nat / area) as nat,
            g,
        );
        assert(geom.groups as nat * g == g * geom.groups as nat) by (nonlinear_arith);
        assert(0 <= group * g) by (nonlinear_arith)
            requires
                group >= 0,
                g >= 0,
        ;
        vstd::arithmetic::div_mod::lemma_mod_bound(
            (q as nat / geom.kw as nat) as int,
            geom.kh as int,
        );
        vstd::arithmetic::div_mod::lemma_mod_bound(q as int, geom.kw as int);
    }
    let per_group: usize = geom.cin / geom.groups;
    let area: usize = geom.kh * geom.kw;
    input_index(
        geom,
        batch,
        group * per_group + q / area,
        s / geom.ow,
        s % geom.ow,
        (q / geom.kw) % geom.kh,
        q % geom.kw,
    )
}

/// The pairs that meet in pixel `s` of output channel `channel`, for the first `n` patch
/// elements: weight and input. Padding is left out.
pub open spec fn conv_pairs(
    geom: Conv2dGeom,
    input: Seq<u16>,
    weight: Seq<u16>,
    batch: int,
    channel: int,
    s: int,
    n: int,
) -> Seq<(u16, u16)>
    decreases n,
{
    if n <= 0 {
        Seq::empty()
    } else {
        let so_far = conv_pairs(geom, input, weight, batch, channel, s, n - 1);
        match patch_place(geom, batch, channel / (geom.cout_group() as int), n - 1, s) {
            Some(at) => so_far.push((weight[channel * geom.patch() + (n - 1)], input[at])),
            None => so_far,
        }
    }
}

/// Image that output element `t` belongs to.
pub open spec fn image_of(geom: Conv2dGeom, t: int) -> int {
    t / (geom.spatial() as int) / (geom.cout as int)
}

/// Channel that output element `t` belongs to.
pub open spec fn channel_of(geom: Conv2dGeom, t: int) -> int {
    t / (geom.spatial() as int) % (geom.cout as int)
}

/// Pixel that output element `t` is.
pub open spec fn pixel_of(geom: Conv2dGeom, t: int) -> int {
    t % (geom.spatial() as int)
}

/// What the element-by-element path puts in output element `t`: the products are added to
/// the bias, or to zero.
pub open spec fn cpu_value<
    W: Fn(u16) -> u32,
    F: Fn(u32, u16, u16) -> u32,
    N: Fn(u32) -> u16,
>(
    geom: Conv2dGeom,
    input: Seq<u16>,
    weight: Seq<u16>,
    bias: Option<Seq<u16>>,
    widen: W,
    mul_add: F,
    narrow: N,
    t: int,
    value: u16,
) -> bool {
    exists|start: u32, sum: u32|
        {
            &&& match bias {
                Some(bias) => widen.ensures((bias[channel_of(geom, t)],), start),
                None => start == 0,
            }
            &&& #[trigger] crate::backend::matmul::summed(
                mul_add,
                start,
                conv_pairs(
                    geom,
                    input,
                    weight,
                    image_of(geom, t),
                    channel_of(geom, t),
                    pixel_of(geom, t),
                    geom.patch() as int,
                ),
                sum,
            )
            &&& narrow.ensures((sum,), value)
        }
}

/// The bias values, where there are any.
pub open spec fn bias_values(bias: Option<&[u16]>) -> Option<Seq<u16>> {
    match bias {
        Some(bias) => Some(bias@),
        None => None,
    }
}

/// The number of bias values, where there are any.
pub open spec fn bias_count(bias: Option<&[u16]>) -> Option<nat> {
    match bias {
        Some(bias) => Some(bias@.len()),
        None => None,
    }
}

/// Sums up one output element.
fn conv_sum<F: Fn(u32, u16, u16) -> u32>(
    geom: &Conv2dGeom,
    input: &[u16],
    weight: &[u16],
    batch: usize,
    channel: usize,
    s: usize,
    start: u32,
    mul_add: &F,
) -> (sum: u32)
    requires
        geom.wf(),
        geom.input_need() <= input@.len(),
        geom.weight_need() <= weight@.len(),
        geom.output_need() <= usize::MAX,
        batch < geom.batch,
        channel < geom.cout,
        s < geom.spatial(),
        forall|acc: u32, a: u16, b: u16| #[trigger] mul_add.requires((acc, a, b)),
    ensures
        crate::backend::matmul::summed(
            *mul_add,
            start,
            conv_pairs(
                *geom,
                input@,
                weight@,
                batch as int,
                channel as int,
                s as int,
                geom.patch() as int,
            ),
            sum,
        ),
{
    let input_len: usize = input.len();
    let weight_len: usize = weight.len();
    proof {
        geom.needs_bound_factors();
        let og = geom.cout_group();
        let groups = geom.groups as nat;
        assert(og * groups == groups * og) by (nonlinear_arith);
        crate::shape::split_below(channel as nat, groups, og);
        let cg = geom.cin_group();
        let kh = geom.kh as nat;
        let kw = geom.kw as nat;
        product_grows(cg, kh);
        product_grows(cg * kh, kw);
        assert(cg * kh * kw == cg * (kh * kw)) by (nonlinear_arith);
    }
    let patch: usize = (geom.cin / geom.groups) * geom.kh * geom.kw;
    let group: usize = channel / (geom.cout / geom.groups);
    let mut sum: u32 = start;
    let mut q: usize = 0;
    while q < patch
        invariant
            q <= patch,
            patch == geom.patch(),
            group == channel as int / (geom.cout_group() as int),
            group < geom.groups,
            geom.wf(),
            geom.input_need() <= input@.len(),
            input@.len() <= usize::MAX,
            geom.weight_need() <= weight@.len(),
            weight@.len() <= usize::MAX,
            geom.output_need() <= usize::MAX,
            batch < geom.batch,
            channel < geom.cout,
            s < geom.spatial(),
            forall|acc: u32, a: u16, b: u16| #[trigger] mul_add.requires((acc, a, b)),
            crate::backend::matmul::summed(
                *mul_add,
                start,
                conv_pairs(
                    *geom,
                    input@,
                    weight@,
                    batch as int,
                    channel as int,
                    s as int,
                    q as int,
                ),
                sum,
            ),
        decreases patch - q,
    {
        match patch_index(geom, batch, group, q, s) {
            Some(index) => {
                proof {
                    crate::shape::joined_below(
                        channel as nat,
                        geom.cout as nat,
                        q as nat,
                        geom.patch(),
                    );
                    assert(0 <= channel * patch) by (nonlinear_arith)
                        requires
                            channel >= 0,
                            patch >= 0,
                    ;
                }
                let w: u16 = weight[channel * patch + q];
                let x: u16 = input[index];
                let ghost part = sum;
                sum = mul_add(sum, w, x);
                proof {
                    crate::backend::matmul::summed_push(
                        *mul_add,
                        start,
                        conv_pairs(
                            *geom,
                            input@,
                            weight@,
                            batch as int,
                            channel as int,
                            s as int,
                            q as int,
                        ),
                        part,
                        (w, x),
                        sum,
                    );
                }
            },
            None => {},
        }
        q = q + 1;
    }
    sum
}

/// An output element belongs to an existing image, channel and pixel.
proof fn element_exists(geom: Conv2dGeom, t: nat)
    requires
        geom.wf(),
        t < geom.output_need(),
    ensures
        0 <= image_of(geom, t as int) < geom.batch,
        0 <= channel_of(geom, t as int) < geom.cout,
        0 <= pixel_of(geom, t as int) < geom.spatial(),
{
    let planes = geom.batch as nat * geom.cout as nat;
    crate::shape::split_below(t, planes, geom.spatial());
    crate::shape::split_below(t / geom.spatial(), geom.batch as nat, geom.cout as nat);
}

/// Convolves element by element: the sum of each element is kept in 32 bits and narrowed
/// once.
pub fn compute_f16_cpu<W: Fn(u16) -> u32, F: Fn(u32, u16, u16) -> u32, N: Fn(u32) -> u16>(
    geom: &Conv2dGeom,
    input: &[u16],
    weight: &[u16],
    bias: Option<&[u16]>,
    output: &mut [u16],
    widen: &W,
    mul_add: &F,
    narrow: &N,
)
    requires
        geom.wf(),
        geom.lengths_ok(
            input@.len() as int,
            weight@.len() as int,
            old(output)@.len() as int,
            bias_count(bias),
        ),
        forall|a: u16| #[trigger] widen.requires((a,)),
        forall|acc: u32, a: u16, b: u16| #[trigger] mul_add.requires((acc, a, b)),
        forall|value: u32| #[trigger] narrow.requires((value,)),
    ensures
        final(output)@.len() == old(output)@.len(),
        forall|t: int|
            0 <= t < geom.output_need() ==> cpu_value(
                *geom,
                input@,
                weight@,
                bias_values(bias),
                *widen,
                *mul_add,
                *narrow,
                t,
                #[trigger] final(output)@[t],
            ),
        forall|t: int|
            geom.output_need() <= t < old(output)@.len() ==> #[trigger] final(output)@[t]
                == old(output)@[t],
{
    let output_len: usize = output.len();
    proof {
        geom.needs_bound_factors();
        let planes = geom.batch as nat * geom.cout as nat;
        assert(planes * geom.spatial() == geom.output_need());
    }
    let spatial: usize = geom.oh * geom.ow;
    let total: usize = geom.batch * geom.cout * spatial;
    let ghost before = output@;
    let mut t: usize = 0;
    while t < total
        invariant
            t <= total,
            total == geom.output_need(),
            spatial == geom.spatial(),
            spatial > 0,
            geom.wf(),
            geom.lengths_ok(
                input@.len() as int,
                weight@.len() as int,
                before.len() as int,
                bias_count(bias),
            ),
                output@.len() == before.len(),
            forall|a: u16| #[trigger] widen.requires((a,)),
            forall|acc: u32, a: u16, b: u16| #[trigger] mul_add.requires((acc, a, b)),
            forall|value: u32| #[trigger] narrow.requires((value,)),
            forall|i: int|
                0 <= i < t ==> cpu_value(
                    *geom,
                    input@,
                    weight@,
                    bias_values(bias),
                    *widen,
                    *mul_add,
                    *narrow,
                    i,
                    #[trigger] output@[i],
                ),
            forall|i: int| t <= i < before.len() ==> #[trigger] output@[i] == before[i],
        decreases total - t,
    {
        proof {
            element_exists(*geom, t as nat);
        }
        let plane: usize = t / spatial;
        let batch: usize = plane / geom.cout;
        let channel: usize = plane % geom.cout;
        let s: usize = t % spatial;
        let start: u32 = match bias {
            Some(values) => widen(values[channel]),
            None => 0,
        };
        let sum: u32 = conv_sum(geom, input, weight, batch, channel, s, start, mul_add);
        let value: u16 = narrow(sum);
        assert(cpu_value(
            *geom,
            input@,
            weight@,
            bias_values(bias),
            *widen,
            *mul_add,
            *narrow,
            t as int,
            value,
        ));
        output[t] = value;
        t = t + 1;
    }
}

/// The extents of the product that a group comes down to.
pub open spec fn group_product(geom: Conv2dGeom) -> MatMulAttr {
    MatMulAttr {
        m: DimSize(geom.cout_group() as u32),
        n: DimSize(geom.spatial() as u32),
        k: DimSize(geom.patch() as u32),
        batch: DimSize(1),
        lhs_row_stride: ElemStride(geom.patch() as u32),
        lhs_col_stride: ElemStride(1),
        lhs_batch_stride: ElemStride(0),
        rhs_row_stride: ElemStride(geom.spatial() as u32),
        rhs_col_stride: ElemStride(1),
        rhs_batch_stride: ElemStride(0),
        out_row_stride: ElemStride(geom.spatial() as u32),
        out_col_stride: ElemStride(1),
        out_batch_stride: ElemStride(0),
        flags: OpFlags(0),
        accum_dtype: AiDtype(AiDtype::F32),
        reserved: [0, 0, 0],
    }
}

/// The unrolled input of a group: one row for each patch element, one column for each
/// pixel, zero where padding is met.
pub open spec fn unrolled(geom: Conv2dGeom, input: Seq<u16>, batch: int, group: int) -> Seq<u16> {
    Seq::new(
        geom.patch() * geom.spatial(),
        |i: int|
            match patch_place(
                geom,
                batch,
                group,
                i / (geom.spatial() as int),
                i % (geom.spatial() as int),
            ) {
                Some(at) => input[at],
                None => 0u16,
            },
    )
}

/// The weights of a group.
pub open spec fn group_weights(geom: Conv2dGeom, weight: Seq<u16>, group: int) -> Seq<u16> {
    let size = (geom.cout_group() * geom.patch()) as int;
    weight.subrange(group * size, group * size + size)
}

/// What the tile path puts in output element `t`: an element of the product of the
/// weights of its group and the unrolled input, to which the bias is added.
pub open spec fn a100_value<
    T: Fn([u16; 64], [u16; 64]) -> [u32; 64],
    A: Fn(u32, u32) -> u32,
    N: Fn(u32) -> u16,
    B: Fn(u16, u16) -> u16,
>(
    geom: Conv2dGeom,
    input: Seq<u16>,
    weight: Seq<u16>,
    bias: Option<Seq<u16>>,
    tile_product: T,
    add_parts: A,
    narrow: N,
    add_bias: B,
    t: int,
    value: u16,
) -> bool {
    let channel = channel_of(geom, t);
    let group = channel / (geom.cout_group() as int);
    exists|product: u16|
        {
            &&& #[trigger] crate::backend::matmul::a100_holds(
                tile_product,
                add_parts,
                narrow,
                group_product(geom),
                group_weights(geom, weight, group),
                unrolled(geom, input, image_of(geom, t), group),
            )(0, channel % (geom.cout_group() as int), pixel_of(geom, t), product)
            &&& match bias {
                Some(bias) => add_bias.ensures((product, bias[channel]), value),
                None => value == product,
            }
        }
}

/// Unrolls the input of a group.
fn unroll(geom: &Conv2dGeom, input: &[u16], batch: usize, group: usize, spatial: usize) -> (r:
    Vec<u16>)
    requires
        geom.wf(),
        geom.input_need() <= input@.len(),
        geom.weight_need() <= usize::MAX,
        geom.output_need() <= usize::MAX,
        geom.patch() * geom.spatial() <= usize::MAX,
        spatial == geom.spatial(),
        batch < geom.batch,
        group < geom.groups,
    ensures
        r@ == unrolled(*geom, input@, batch as int, group as int),
{
    let input_len: usize = input.len();
    proof {
        geom.needs_bound_factors();
        let cg = geom.cin_group();
        let kh = geom.kh as nat;
        let kw = geom.kw as nat;
        product_grows(cg, kh);
        product_grows(cg * kh, kw);
        assert(cg * kh * kw == cg * (kh * kw)) by (nonlinear_arith);
    }
    let patch: usize = (geom.cin / geom.groups) * geom.kh * geom.kw;
    let total: usize = patch * spatial;
    let mut columns: Vec<u16> = Vec::new();
    let mut i: usize = 0;
    while i < total
        invariant
            i <= total,
            columns@.len() == i,
            total == geom.patch() * geom.spatial(),
            spatial == geom.spatial(),
            spatial > 0,
            geom.wf(),
            geom.input_need() <= input@.len(),
            input@.len() <= usize::MAX,
            geom.weight_need() <= usize::MAX,
            geom.output_need() <= usize::MAX,
            batch < geom.batch,
            group < geom.groups,
            forall|j: int|
                0 <= j < i ==> #[trigger] columns@[j] == unrolled(
                    *geom,
                    input@,
                    batch as int,
                    group as int,
                )[j],
        decreases total - i,
    {
        proof {
            crate::shape::split_below(i as nat, geom.patch(), geom.spatial());
        }
        let value: u16 = match patch_index(geom, batch, group, i / spatial, i % spatial) {
            Some(index) => input[index],
            None => 0,
        };
        columns.push(value);
        i = i + 1;
    }
    assert(columns@ =~= unrolled(*geom, input@, batch as int, group as int));
    columns
}

/// Blocks of output channels: counting blocks of a group over all images is counting
/// images and channels.
proof fn block_channels(geom: Conv2dGeom, block: nat, row: nat)
    requires
        geom.wf(),
        row < geom.cout_group(),
    ensures
        ((block * geom.cout_group() + row) as int) / (geom.cout as int) == block as int / (
        geom.groups as int),
        ((block * geom.cout_group() + row) as int) % (geom.cout as int) == (block as int % (
        geom.groups as int)) * geom.cout_group() + row,
        (((block * geom.cout_group() + row) as int) % (geom.cout as int)) / (
        geom.cout_group() as int) == block as int % (geom.groups as int),
        (((block * geom.cout_group() + row) as int) % (geom.cout as int)) % (
        geom.cout_group() as int) == row,
{
    geom.needs_bound_factors();
    let og = geom.cout_group();
    let groups = geom.groups as nat;
    let image = block / groups;
    let group = block % groups;
    vstd::arithmetic::div_mod::lemma_fundamental_div_mod(block as int, groups as int);
    vstd::arithmetic::div_mod::lemma_mod_bound(block as int, groups as int);
    crate::shape::joined_below(group, groups, row, og);
    let inner = (group * og + row) as nat;
    assert(groups * og == og * groups) by (nonlinear_arith);
    crate::shape::joined_below(image, image + 1, inner, geom.cout as nat);
    assert(block * og + row == image * (og * groups) + (group * og + row)) by (nonlinear_arith)
        requires
            block == groups * image + group,
    ;
}

/// Convolves tile by tile: each group is unrolled and multiplied with its weights, then
/// the bias is added.
pub fn compute_f16_a100<
    T: Fn([u16; 64], [u16; 64]) -> [u32; 64],
    A: Fn(u32, u32) -> u32,
    N: Fn(u32) -> u16,
    B: Fn(u16, u16) -> u16,
>(
    geom: &Conv2dGeom,
    input: &[u16],
    weight: &[u16],
    bias: Option<&[u16]>,
    output: &mut [u16],
    tile_product: &T,
    add_parts: &A,
    narrow: &N,
    add_bias: &B,
)
    requires
        geom.wf(),
        geom.lengths_ok(
            input@.len() as int,
            weight@.len() as int,
            old(output)@.len() as int,
            bias_count(bias),
        ),
        geom.unrolls(),
        forall|l: [u16; 64], r: [u16; 64]| #[trigger] tile_product.requires((l, r)),
        forall|x: u32, y: u32| #[trigger] add_parts.requires((x, y)),
        forall|value: u32| #[trigger] narrow.requires((value,)),
        forall|x: u16, y: u16| #[trigger] add_bias.requires((x, y)),
    ensures
        final(output)@.len() == old(output)@.len(),
        forall|t: int|
            0 <= t < geom.output_need() ==> a100_value(
                *geom,
                input@,
                weight@,
                bias_values(bias),
                *tile_product,
                *add_parts,
                *narrow,
                *add_bias,
                t,
                #[trigger] final(output)@[t],
            ),
        forall|t: int|
            geom.output_need() <= t < old(output)@.len() ==> #[trigger] final(output)@[t]
                == old(output)@[t],
{
    let output_len: usize = output.len();
    let weight_len: usize = weight.len();
    let input_len: usize = input.len();
    proof {
        geom.needs_bound_factors();
        geom.blocks_cover();
    }
    let spatial: usize = geom.oh * geom.ow;
    let rows: usize = geom.cout / geom.groups;
    let block_size: usize = rows * spatial;
    let blocks: usize = geom.batch * geom.groups;
    let ghost before = output@;
    let mut block: usize = 0;
    while block < blocks
        invariant
            block <= blocks,
            blocks == geom.batch as nat * geom.groups as nat,
            rows == geom.cout_group(),
            spatial == geom.spatial(),
            spatial > 0,
            block_size == geom.cout_group() * geom.spatial(),
            blocks * block_size == geom.output_need(),
            geom.wf(),
            geom.lengths_ok(
                input@.len() as int,
                weight@.len() as int,
                before.len() as int,
                bias_count(bias),
            ),
            geom.unrolls(),
            output@.len() == before.len(),
            before.len() <= usize::MAX,
            input@.len() <= usize::MAX,
            weight@.len() <= usize::MAX,
            forall|l: [u16; 64], r: [u16; 64]| #[trigger] tile_product.requires((l, r)),
            forall|x: u32, y: u32| #[trigger] add_parts.requires((x, y)),
            forall|value: u32| #[trigger] narrow.requires((value,)),
            forall|x: u16, y: u16| #[trigger] add_bias.requires((x, y)),
            forall|t: int|
                0 <= t < block * block_size ==> a100_value(
                    *geom,
                    input@,
                    weight@,
                    bias_values(bias),
                    *tile_product,
                    *add_parts,
                    *narrow,
                    *add_bias,
                    t,
                    #[trigger] output@[t],
                ),
            forall|t: int|
                block * block_size <= t < before.len() ==> #[trigger] output@[t] == before[t],
        decreases blocks - block,
    {
        proof {
            crate::shape::split_below(block as nat, geom.batch as nat, geom.groups as nat);
            assert((block + 1) * block_size == block * block_size + block_size)
                by (nonlinear_arith);
            assert((block + 1) * block_size <= blocks * block_size) by (nonlinear_arith)
                requires
                    block + 1 <= blocks,
                    block_size >= 0,
            ;
        }
        let image: usize = block / geom.groups;
        let group: usize = block % geom.groups;
        let product: Vec<u16> = block_product(
            geom,
            input,
            weight,
            image,
            group,
            tile_product,
            add_parts,
            narrow,
        );
        let base: usize = block * block_size;
        let mut i: usize = 0;
        while i < block_size
            invariant
                i <= block_size,
                block < blocks,
                base == block * block_size,
                base + block_size <= before.len(),
                before.len() <= usize::MAX,
                rows == geom.cout_group(),
                spatial == geom.spatial(),
                spatial > 0,
                block_size == geom.cout_group() * geom.spatial(),
                group == block as int % (geom.groups as int),
                group < geom.groups,
                image == block as int / (geom.groups as int),
                geom.wf(),
                geom.lengths_ok(
                    input@.len() as int,
                    weight@.len() as int,
                    before.len() as int,
                    bias_count(bias),
                ),
                output@.len() == before.len(),
                product@.len() == block_size,
                forall|x: u16, y: u16| #[trigger] add_bias.requires((x, y)),
                forall|r: int, s: int|
                    0 <= r < rows && 0 <= s < spatial ==> #[trigger] block_holds(
                        *geom,
                        input@,
                        weight@,
                        *tile_product,
                        *add_parts,
                        *narrow,
                        image as int,
                        group as int,
                        r,
                        s,
                        product@[r * spatial + s],
                    ),
                forall|t: int|
                    0 <= t < base + i ==> a100_value(
                        *geom,
                        input@,
                        weight@,
                        bias_values(bias),
                        *tile_product,
                        *add_parts,
                        *narrow,
                        *add_bias,
                        t,
                        #[trigger] output@[t],
                    ),
                forall|t: int|
                    base + i <= t < before.len() ==> #[trigger] output@[t] == before[t],
            decreases block_size - i,
        {
            let ghost row = (i as nat / geom.spatial()) as nat;
            let ghost s = i as nat % geom.spatial();
            let ghost t = (base + i) as nat;
            proof {
                geom.needs_bound_factors();
                crate::shape::split_below(i as nat, geom.cout_group(), geom.spatial());
                block_channels(*geom, block as nat, row);
                let plane = (block as nat * geom.cout_group() + row) as nat;
                let og = geom.cout_group();
                let sp = geom.spatial();
                assert(t == plane * sp + s) by (nonlinear_arith)
                    requires
                        t == block * (og * sp) + (row * sp + s),
                        plane == block * og + row,
                ;
                crate::shape::joined_below(plane, plane + 1, s, sp);
                crate::shape::joined_below(
                    group as nat,
                    geom.groups as nat,
                    row,
                    geom.cout_group(),
                );
                assert(geom.groups as nat * og == og * geom.groups as nat) by (nonlinear_arith);
                assert(0 <= group * rows) by (nonlinear_arith)
                    requires
                        group >= 0,
                        rows >= 0,
                ;
                assert(block_holds(
                    *geom,
                    input@,
                    weight@,
                    *tile_product,
                    *add_parts,
                    *narrow,
                    image as int,
                    group as int,
                    row as int,
                    s as int,
                    product@[(row * sp + s) as int],
                ));
            }
            let channel: usize = group * rows + i / spatial;
            let value: u16 = match bias {
                Some(values) => add_bias(product[i], values[channel]),
                None => product[i],
            };
            proof {
                assert(channel_of(*geom, t as int) == channel);
                assert(image_of(*geom, t as int) == image);
                assert(pixel_of(*geom, t as int) == s);
                assert(a100_value(
                    *geom,
                    input@,
                    weight@,
                    bias_values(bias),
                    *tile_product,
                    *add_parts,
                    *narrow,
                    *add_bias,
                    t as int,
                    value,
                ));
            }
            output[base + i] = value;
            i = i + 1;
        }
        block = block + 1;
    }
}

/// An element of the product of a group.
pub open spec fn block_holds<
    T: Fn([u16; 64], [u16; 64]) -> [u32; 64],
    A: Fn(u32, u32) -> u32,
    N: Fn(u32) -> u16,
>(
    geom: Conv2dGeom,
    input: Seq<u16>,
    weight: Seq<u16>,
    tile_product: T,
    add_parts: A,
    narrow: N,
    image: int,
    group: int,
    row: int,
    s: int,
    value: u16,
) -> bool {
    crate::backend::matmul::a100_holds(
        tile_product,
        add_parts,
        narrow,
        group_product(geom),
        group_weights(geom, weight, group),
        unrolled(geom, input, image, group),
    )(0, row, s, value)
}

impl Conv2dGeom {
    /// The unrolled input of a group is a matrix with 32-bit extents that fits in memory.
    pub open spec fn unrolls(self) -> bool {
        &&& self.patch() <= u32::MAX
        &&& self.spatial() <= u32::MAX
        &&& self.patch() * self.spatial() <= usize::MAX
    }

    /// The blocks of all groups cover the output.
    proof fn blocks_cover(self)
        requires
            self.wf(),
        ensures
            (self.batch as nat * self.groups as nat) * (self.cout_group() * self.spatial())
                == self.output_need(),
            self.batch as nat * self.groups as nat <= self.output_need(),
            self.cout_group() * self.spatial() <= self.output_need(),
            self.cout_group() <= self.cout,
            self.cout_group() * self.patch() <= self.weight_need(),
    {
        self.needs_bound_factors();
        let b = self.batch as nat;
        let g = self.groups as nat;
        let og = self.cout_group();
        let s = self.spatial();
        assert((b * g) * (og * s) == b * (og * g) * s) by (nonlinear_arith);
        assert(og * s > 0) by (nonlinear_arith)
            requires
                og > 0,
                s > 0,
        ;
        assert(b * g > 0) by (nonlinear_arith)
            requires
                b > 0,
                g > 0,
        ;
        product_grows(b * g, og * s);
        product_grows(og * s, b * g);
        assert((og * s) * (b * g) == (b * g) * (og * s)) by (nonlinear_arith);
        product_grows(og, g);
        let p = self.patch();
        assert(og * p <= (og * g) * p) by (nonlinear_arith)
            requires
                g > 0,
        ;
    }
}

/// Multiplies the weights of a group with its unrolled input.
fn block_product<
    T: Fn([u16; 64], [u16; 64]) -> [u32; 64],
    A: Fn(u32, u32) -> u32,
    N: Fn(u32) -> u16,
>(
    geom: &Conv2dGeom,
    input: &[u16],
    weight: &[u16],
    image: usize,
    group: usize,
    tile_product: &T,
    add_parts: &A,
    narrow: &N,
) -> (r: Vec<u16>)
    requires
        geom.wf(),
        geom.input_need() <= input@.len(),
        geom.weight_need() <= weight@.len(),
        geom.output_need() <= usize::MAX,
        geom.unrolls(),
        image < geom.batch,
        group < geom.groups,
        forall|l: [u16; 64], r: [u16; 64]| #[trigger] tile_product.requires((l, r)),
        forall|x: u32, y: u32| #[trigger] add_parts.requires((x, y)),
        forall|value: u32| #[trigger] narrow.requires((value,)),
    ensures
        r@.len() == geom.cout_group() * geom.spatial(),
        forall|row: int, s: int|
            0 <= row < geom.cout_group() && 0 <= s < geom.spatial() ==> #[trigger] block_holds(
                *geom,
                input@,
                weight@,
                *tile_product,
                *add_parts,
                *narrow,
                image as int,
                group as int,
                row,
                s,
                r@[row * geom.spatial() + s],
            ),
{
    let weight_len: usize = weight.len();
    let input_len: usize = input.len();
    proof {
        geom.needs_bound_factors();
        geom.blocks_cover();
        let cg = geom.cin_group();
        let kh = geom.kh as nat;
        let kw = geom.kw as nat;
        product_grows(cg, kh);
        product_grows(cg * kh, kw);
        assert(cg * kh * kw == cg * (kh * kw)) by (nonlinear_arith);
    }
    let spatial: usize = geom.oh * geom.ow;
    let rows: usize = geom.cout / geom.groups;
    let patch: usize = (geom.cin / geom.groups) * geom.kh * geom.kw;
    let attr: MatMulAttr = compact_matmul_attr(rows, spatial, patch);
    let columns: Vec<u16> = unroll(geom, input, image, group, spatial);
    let size: usize = rows * patch;
    proof {
        let g = group as int;
        let groups = geom.groups as int;
        assert((g + 1) * size <= groups * size) by (nonlinear_arith)
            requires
                g + 1 <= groups,
                size >= 0,
        ;
        assert((g + 1) * size == g * size + size) by (nonlinear_arith);
        let og = geom.cout_group();
        let p = geom.patch();
        assert(groups * (og * p) == (og * groups) * p) by (nonlinear_arith);
        assert(0 <= g * size) by (nonlinear_arith)
            requires
                g >= 0,
                size >= 0,
        ;
    }
    let from: usize = group * size;
    let weights: &[u16] = vstd::slice::slice_subrange(weight, from, from + size);
    let mut product: Vec<u16> = vec![0u16; rows * spatial];
    proof {
        assert(attr.reserved =~= group_product(*geom).reserved);
        assert(attr == group_product(*geom));
        assert(weights@ == group_weights(*geom, weight@, group as int));
        product_extents_fit(*geom, attr);
    }
    let ghost before = product@;
    crate::backend::matmul::compute_f16_a100(
        &attr,
        weights,
        columns.as_slice(),
        product.as_mut_slice(),
        tile_product,
        add_parts,
        narrow,
    );
    proof {
        let holds = crate::backend::matmul::a100_holds(
            *tile_product,
            *add_parts,
            *narrow,
            attr,
            weights@,
            columns@,
        );
        crate::backend::matmul::compact_places_distinct(attr);
        assert forall|row: int, s: int|
            0 <= row < geom.cout_group() && 0 <= s < geom.spatial() implies #[trigger] block_holds(
            *geom,
            input@,
            weight@,
            *tile_product,
            *add_parts,
            *narrow,
            image as int,
            group as int,
            row,
            s,
            product@[row * geom.spatial() + s],
        ) by {
            assert(crate::backend::matmul::in_product(attr, 0, row, s));
            crate::backend::matmul::distinct_product_holds(
                ProductPath::A100,
                attr,
                holds,
                before,
                product@,
                0,
                row,
                s,
            );
        }
    }
    product
}

/// The extents and strides of a single compact product.
fn compact_matmul_attr(m: usize, n: usize, k: usize) -> (r: MatMulAttr)
    requires
        m <= u32::MAX,
        n <= u32::MAX,
        k <= u32::MAX,
    ensures
        r == (MatMulAttr {
            m: DimSize(m as u32),
            n: DimSize(n as u32),
            k: DimSize(k as u32),
            batch: DimSize(1),
            lhs_row_stride: ElemStride(k as u32),
            lhs_col_stride: ElemStride(1),
            lhs_batch_stride: ElemStride(0),
            rhs_row_stride: ElemStride(n as u32),
            rhs_col_stride: ElemStride(1),
            rhs_batch_stride: ElemStride(0),
            out_row_stride: ElemStride(n as u32),
            out_col_stride: ElemStride(1),
            out_batch_stride: ElemStride(0),
            flags: OpFlags(0),
            accum_dtype: AiDtype(AiDtype::F32),
            reserved: r.reserved,
        }),
        r.reserved@ == seq![0u32, 0u32, 0u32],
{
    MatMulAttr {
        m: DimSize(m as u32),
        n: DimSize(n as u32),
        k: DimSize(k as u32),
        batch: DimSize(1),
        lhs_row_stride: ElemStride(k as u32),
        lhs_col_stride: ElemStride(1),
        lhs_batch_stride: ElemStride(0),
        rhs_row_stride: ElemStride(n as u32),
        rhs_col_stride: ElemStride(1),
        rhs_batch_stride: ElemStride(0),
        out_row_stride: ElemStride(n as u32),
        out_col_stride: ElemStride(1),
        out_batch_stride: ElemStride(0),
        flags: OpFlags(0),
        accum_dtype: AiDtype(AiDtype::F32),
        reserved: [0, 0, 0],
    }
}

/// The product of a group fits in its buffers.
proof fn product_extents_fit(geom: Conv2dGeom, attr: MatMulAttr)
    requires
        geom.wf(),
        geom.unrolls(),
        attr.m.0 == geom.cout_group(),
        attr.n.0 == geom.spatial(),
        attr.k.0 == geom.patch(),
        attr.batch.0 == 1,
        attr.lhs_row_stride.0 == attr.k.0,
        attr.lhs_col_stride.0 == 1,
        attr.rhs_row_stride.0 == attr.n.0,
        attr.rhs_col_stride.0 == 1,
        attr.out_row_stride.0 == attr.n.0,
        attr.out_col_stride.0 == 1,
        attr.flags.0 == 0,
    ensures
        crate::backend::matmul::matmul_fits(
            attr,
            geom.cout_group() * geom.patch() as int,
            geom.patch() * geom.spatial() as int,
            geom.cout_group() * geom.spatial() as int,
        ),
{
    geom.needs_bound_factors();
    assert(0u32 & 1 == 0 && 0u32 & 2 == 0) by (bit_vector);
    compact_fits(attr.m.0 as int, attr.k.0 as int, attr.lhs_batch_stride.0 as int);
    compact_fits(attr.k.0 as int, attr.n.0 as int, attr.rhs_batch_stride.0 as int);
    compact_fits(attr.m.0 as int, attr.n.0 as int, attr.out_batch_stride.0 as int);
}

proof fn compact_fits(rows: int, cols: int, batch_stride: int)
    requires
        rows > 0,
        cols > 0,
    ensures
        crate::backend::matmul::fits(rows * cols, 1, rows, cols, cols, 1, batch_stride),
{
    assert(0 * batch_stride + (rows - 1) * cols + (cols - 1) * 1 < rows * cols)
        by (nonlinear_arith)
        requires
            rows > 0,
            cols > 0,
    ;
}

/// A checked call: the extents, the path, and the lengths of the buffers in elements.
#[derive(Clone, Copy, Debug)]
pub struct Conv2dPlan {
    /// The extents.
    pub geom: Conv2dGeom,
    /// Where to compute.
    pub path: ProductPath,
    /// Elements of the input buffer.
    pub input_len: usize,
    /// Elements of the weight buffer.
    pub weight_len: usize,
    /// Elements of the bias buffer, where there is one.
    pub bias_len: Option<usize>,
    /// Elements of the output buffer.
    pub output_len: usize,
}

/// What checking a call gives. On the tile path the unrolled input of a group must be a
/// matrix with 32-bit extents.
pub open spec fn conv2d_plan(ctx: CallContext) -> Result<Conv2dPlan, BackendErr> {
    if !(2 <= ctx.inputs@.len() <= 3) || ctx.outputs@.len() != 1 {
        Err(BackendErr::InvalidInput)
    } else if !crate::backend::call::no_overlap(ctx.inputs@, ctx.outputs@) {
        Err(BackendErr::InvalidTensor)
    } else if ctx.inputs[0].dtype.0 != AiDtype::F16 || ctx.inputs[1].dtype.0 != AiDtype::F16
        || ctx.outputs[0].dtype.0 != AiDtype::F16 || (ctx.inputs@.len() == 3
        && ctx.inputs[2].dtype.0 != AiDtype::F16) {
        Err(BackendErr::UnsupportedDtype)
    } else {
        match ctx.attr_as::<Conv2dAttr>() {
            None => Err(BackendErr::InvalidAttr),
            Some(attr) => if !geom_of(attr).wf() {
                Err(BackendErr::InvalidAttr)
            } else {
                let geom = geom_of(attr);
                let input = crate::backend::meta::typed_count(ctx.inputs[0], 2, 2);
                let weight = crate::backend::meta::typed_count(ctx.inputs[1], 2, 2);
                let bias = crate::backend::meta::typed_count(ctx.inputs[2], 2, 2);
                let output = crate::backend::meta::typed_count(ctx.outputs[0], 2, 2);
                if input is None || weight is None || output is None || (ctx.inputs@.len() == 3
                    && bias is None) {
                    Err(BackendErr::InvalidTensor)
                } else {
                    let bias_len = if ctx.inputs@.len() == 3 {
                        bias
                    } else {
                        None
                    };
                    let bias_count = match bias_len {
                        Some(len) => Some(len as nat),
                        None => None,
                    };
                    if !geom.lengths_ok(
                        input->0 as int,
                        weight->0 as int,
                        output->0 as int,
                        bias_count,
                    ) {
                        Err(BackendErr::InvalidTensor)
                    } else {
                        match crate::backend::matmul::product_path(ctx.target) {
                            None => Err(BackendErr::UnsupportedOp),
                            Some(path) => if path == ProductPath::A100 && !geom.unrolls() {
                                Err(BackendErr::InvalidTensor)
                            } else {
                                Ok(
                                    Conv2dPlan {
                                        geom,
                                        path,
                                        input_len: input->0,
                                        weight_len: weight->0,
                                        bias_len,
                                        output_len: output->0,
                                    },
                                )
                            },
                        }
                    }
                }
            },
        }
    }
}

/// Checks a call of the convolution.
pub fn check_conv2d(ctx: &CallContext) -> (r: Result<Conv2dPlan, BackendErr>)
    requires
        ctx.wf(),
    ensures
        r == conv2d_plan(*ctx),
{
    ctx.expect_io_range(2, 3, 1, 1)?;
    ctx.reject_input_output_alias()?;
    if ctx.inputs[0].dtype.0 != AiDtype::F16 || ctx.inputs[1].dtype.0 != AiDtype::F16
        || ctx.outputs[0].dtype.0 != AiDtype::F16 || (ctx.inputs.len() == 3
        && ctx.inputs[2].dtype.0 != AiDtype::F16) {
        return Err(BackendErr::UnsupportedDtype);
    }
    let attr: Conv2dAttr = ctx.read_attr::<Conv2dAttr>()?;
    let geom: Conv2dGeom = Conv2dGeom::from_attr(&attr)?;
    let input_len: usize = ctx.inputs[0].typed_len(2, 2)?;
    let weight_len: usize = ctx.inputs[1].typed_len(2, 2)?;
    let bias_len: Option<usize> = if ctx.inputs.len() == 3 {
        Some(ctx.inputs[2].typed_len(2, 2)?)
    } else {
        None
    };
    let output_len: usize = ctx.outputs[0].typed_len(2, 2)?;
    validate_lengths(&geom, input_len, weight_len, output_len, bias_len)?;
    let path: ProductPath = choose_product_path(ctx.target)?;
    if path == ProductPath::A100 && !unroll_fits(&geom) {
        return Err(BackendErr::InvalidTensor);
    }
    Ok(Conv2dPlan { geom, path, input_len, weight_len, bias_len, output_len })
}

/// Whether the unrolled input of a group is a matrix with 32-bit extents that fits in
/// memory.
fn unroll_fits(geom: &Conv2dGeom) -> (r: bool)
    requires
        geom.wf(),
        geom.weight_need() <= usize::MAX,
        geom.output_need() <= usize::MAX,
    ensures
        r == geom.unrolls(),
{
    proof {
        geom.needs_bound_factors();
        let cg = geom.cin_group();
        let kh = geom.kh as nat;
        let kw = geom.kw as nat;
        product_grows(cg, kh);
        product_grows(cg * kh, kw);
        assert(cg * kh * kw == cg * (kh * kw)) by (nonlinear_arith);
    }
    let patch: usize = (geom.cin / geom.groups) * geom.kh * geom.kw;
    let spatial: usize = geom.oh * geom.ow;
    if patch > u32::MAX as usize || spatial > u32::MAX as usize {
        return false;
    }
    match patch.checked_mul(spatial) {
        Some(_) => true,
        None => false,
    }
}

/// An extent of an attribute, where zero stands for one.
pub open spec fn counted(value: u32) -> int {
    if value == 0 {
        1
    } else {
        value as int
    }
}

/// The element of an image at a line and a column, and zero beside the image.
pub open spec fn padded_pixel(
    attr: Conv2dAttr,
    input: Seq<u16>,
    half: spec_fn(u16) -> int,
    image: int,
    channel: int,
    y: int,
    x: int,
) -> int {
    if 0 <= y < attr.input_h.0 && 0 <= x < attr.input_w.0 {
        half(
            input[((image * attr.in_channels.0 + channel) * attr.input_h.0 + y) * attr.input_w.0
                + x],
        )
    } else {
        0
    }
}

/// What a window gives in one output element: over the input channels of the group of the
/// output channel, and over the lines and the columns of the window, the weights times the
/// elements met. The window starts a stride further on for each output element, less the
/// padding, and its elements are a dilation apart.
pub open spec fn window_sum(
    attr: Conv2dAttr,
    input: Seq<u16>,
    weight: Seq<u16>,
    half: spec_fn(u16) -> int,
    image: int,
    channel: int,
    oy: int,
    ox: int,
) -> int {
    let groups = counted(attr.groups.0);
    let inputs = attr.in_channels.0 as int / groups;
    let outputs = attr.out_channels.0 as int / groups;
    let group = channel / outputs;
    crate::backend::sums::sum_of(
        |c: int|
            crate::backend::sums::sum_of(
                |ky: int|
                    crate::backend::sums::sum_of(
                        |kx: int|
                            half(
                                weight[((channel * inputs + c) * attr.kernel_h.0 + ky)
                                    * attr.kernel_w.0 + kx],
                            ) * padded_pixel(
                                attr,
                                input,
                                half,
                                image,
                                group * inputs + c,
                                oy * counted(attr.stride_h.0) + ky * counted(attr.dilation_h.0)
                                    - attr.pad_h.0,
                                ox * counted(attr.stride_w.0) + kx * counted(attr.dilation_w.0)
                                    - attr.pad_w.0,
                            ),
                        attr.kernel_w.0 as int,
                    ),
                attr.kernel_h.0 as int,
            ),
        inputs,
    )
}

/// An output element of a convolution exists.
pub open spec fn element_of_output(
    attr: Conv2dAttr,
    image: int,
    channel: int,
    oy: int,
    ox: int,
) -> bool {
    &&& 0 <= image < counted(attr.batch.0)
    &&& 0 <= channel < attr.out_channels.0
    &&& 0 <= oy < attr.output_h.0
    &&& 0 <= ox < attr.output_w.0
}

/// Where an output element lies: images, channels, lines and columns one after the other.
pub open spec fn output_at(attr: Conv2dAttr, image: int, channel: int, oy: int, ox: int) -> int {
    ((image * attr.out_channels.0 + channel) * attr.output_h.0 + oy) * attr.output_w.0 + ox
}

/// What meets in the patch element `q` of an output element, and zero on the padding.
spec fn met(
    geom: Conv2dGeom,
    input: Seq<u16>,
    weight: Seq<u16>,
    half: spec_fn(u16) -> int,
    image: int,
    channel: int,
    s: int,
    q: int,
) -> int {
    match patch_place(geom, image, channel / (geom.cout_group() as int), q, s) {
        Some(at) => half(weight[channel * geom.patch() + q]) * half(input[at]),
        None => 0,
    }
}

/// Patch elements counted one by one are counted channel by channel, line by line and
/// column by column.
proof fn patch_is_window(
    attr: Conv2dAttr,
    geom: Conv2dGeom,
    input: Seq<u16>,
    weight: Seq<u16>,
    half: spec_fn(u16) -> int,
    image: int,
    channel: int,
    oy: int,
    ox: int,
)
    requires
        geom.wf(),
        geom == geom_of(attr),
        element_of_output(attr, image, channel, oy, ox),
    ensures
        crate::backend::sums::sum_of(
            |q: int| met(geom, input, weight, half, image, channel, oy * geom.ow + ox, q),
            geom.patch() as int,
        ) == window_sum(attr, input, weight, half, image, channel, oy, ox),
{
    geom.needs_bound_factors();
    let s = oy * geom.ow + ox;
    let kh = geom.kh as int;
    let kw = geom.kw as int;
    let area = kh * kw;
    let inputs = geom.cin_group() as int;
    let outputs = geom.cout_group() as int;
    let group = channel / outputs;
    let f = |q: int| met(geom, input, weight, half, image, channel, s, q);
    crate::shape::joined_below(oy as nat, geom.oh as nat, ox as nat, geom.ow as nat);
    assert(s / (geom.ow as int) == oy && s % (geom.ow as int) == ox);
    let last = |c: int, ky: int, kx: int|
        half(weight[((channel * inputs + c) * kh + ky) * kw + kx]) * padded_pixel(
            attr,
            input,
            half,
            image,
            group * inputs + c,
            oy * counted(attr.stride_h.0) + ky * counted(attr.dilation_h.0) - attr.pad_h.0,
            ox * counted(attr.stride_w.0) + kx * counted(attr.dilation_w.0) - attr.pad_w.0,
        );
    assert forall|c: int, ky: int, kx: int|
        0 <= c < inputs && 0 <= ky < kh && 0 <= kx < kw implies f(c * area + (ky * kw + kx))
        == #[trigger] last(c, ky, kx) by {
        patch_decodes(geom, channel, c, ky, kx);
        let w = half(weight[((channel * inputs + c) * kh + ky) * kw + kx]);
        assert(w * 0 == 0) by (nonlinear_arith);
    }
    let by_line = |c: int| |ky: int| crate::backend::sums::sum_of(|kx: int| last(c, ky, kx), kw);
    let by_channel = |c: int| crate::backend::sums::sum_of(by_line(c), kh);
    assert(inputs * area == geom.patch());
    crate::backend::sums::sum_by_rows(f, inputs, area);
    let flat = |c: int| crate::backend::sums::sum_of(|j: int| f(c * area + j), area);
    assert forall|c: int| 0 <= c < inputs implies #[trigger] flat(c) == by_channel(c) by {
        let g = |j: int| f(c * area + j);
        crate::backend::sums::sum_by_rows(g, kh, kw);
        let lines = |ky: int| crate::backend::sums::sum_of(|kx: int| g(ky * kw + kx), kw);
        assert forall|ky: int| 0 <= ky < kh implies #[trigger] lines(ky) == by_line(c)(ky) by {
            let one = |kx: int| g(ky * kw + kx);
            let two = |kx: int| last(c, ky, kx);
            assert forall|kx: int| 0 <= kx < kw implies #[trigger] one(kx) == two(kx) by {
                assert(f(c * area + (ky * kw + kx)) == last(c, ky, kx));
            }
            crate::backend::sums::sums_agree(one, two, kw);
        }
        crate::backend::sums::sums_agree(lines, by_line(c), kh);
    }
    crate::backend::sums::sums_agree(flat, by_channel, inputs);
    let stated = |c: int|
        crate::backend::sums::sum_of(
            |ky: int|
                crate::backend::sums::sum_of(
                    |kx: int|
                        half(
                            weight[((channel * inputs + c) * attr.kernel_h.0 + ky)
                                * attr.kernel_w.0 + kx],
                        ) * padded_pixel(
                            attr,
                            input,
                            half,
                            image,
                            group * inputs + c,
                            oy * counted(attr.stride_h.0) + ky * counted(attr.dilation_h.0)
                                - attr.pad_h.0,
                            ox * counted(attr.stride_w.0) + kx * counted(attr.dilation_w.0)
                                - attr.pad_w.0,
                        ),
                    attr.kernel_w.0 as int,
                ),
            attr.kernel_h.0 as int,
        );
    assert forall|c: int| 0 <= c < inputs implies #[trigger] by_channel(c) == stated(c) by {
        let lines = |ky: int|
            crate::backend::sums::sum_of(
                |kx: int|
                    half(
                        weight[((channel * inputs + c) * attr.kernel_h.0 + ky) * attr.kernel_w.0
                            + kx],
                    ) * padded_pixel(
                        attr,
                        input,
                        half,
                        image,
                        group * inputs + c,
                        oy * counted(attr.stride_h.0) + ky * counted(attr.dilation_h.0)
                            - attr.pad_h.0,
                        ox * counted(attr.stride_w.0) + kx * counted(attr.dilation_w.0)
                            - attr.pad_w.0,
                    ),
                attr.kernel_w.0 as int,
            );
        assert forall|ky: int| 0 <= ky < kh implies #[trigger] by_line(c)(ky) == lines(ky) by {
            let two = |kx: int|
                half(
                    weight[((channel * inputs + c) * attr.kernel_h.0 + ky) * attr.kernel_w.0 + kx],
                ) * padded_pixel(
                    attr,
                    input,
                    half,
                    image,
                    group * inputs + c,
                    oy * counted(attr.stride_h.0) + ky * counted(attr.dilation_h.0)
                        - attr.pad_h.0,
                    ox * counted(attr.stride_w.0) + kx * counted(attr.dilation_w.0)
                        - attr.pad_w.0,
                );
            crate::backend::sums::sums_agree(|kx: int| last(c, ky, kx), two, kw);
        }
        crate::backend::sums::sums_agree(by_line(c), lines, kh);
    }
    crate::backend::sums::sums_agree(by_channel, stated, inputs);
}

/// A patch element decodes to its channel, line and column, and its weight lies in that
/// order.
proof fn patch_decodes(geom: Conv2dGeom, channel: int, c: int, ky: int, kx: int)
    requires
        geom.wf(),
        0 <= c < geom.cin_group(),
        0 <= ky < geom.kh,
        0 <= kx < geom.kw,
    ensures
        ({
            let kh = geom.kh as int;
            let kw = geom.kw as int;
            let q = c * (kh * kw) + (ky * kw + kx);
            &&& q / (kh * kw) == c
            &&& (q / kw) % kh == ky
            &&& q % kw == kx
            &&& channel * geom.patch() + q == ((channel * geom.cin_group() + c) * kh + ky) * kw
                + kx
        }),
{
    let kh = geom.kh as nat;
    let kw = geom.kw as nat;
    let q = c * (kh * kw) + (ky * kw + kx);
    crate::shape::joined_below(ky as nat, kh, kx as nat, kw);
    crate::shape::joined_below(c as nat, (c + 1) as nat, (ky * kw + kx) as nat, kh * kw);
    crate::shape::joined_below(c as nat, (c + 1) as nat, ky as nat, kh);
    let line = (c * kh + ky) as nat;
    crate::shape::joined_below(line, line + 1, kx as nat, kw);
    assert(q == line * kw + kx) by (nonlinear_arith)
        requires
            q == c * (kh * kw) + (ky * kw + kx),
            line == c * kh + ky,
    ;
    let g = geom.cin_group() as int;
    assert(channel * (g * (kh * kw)) + q == ((channel * g + c) * kh + ky) * kw + kx)
        by (nonlinear_arith)
        requires
            q == c * (kh * kw) + (ky * kw + kx),
    ;
}

/// Output elements lie image by image, channel by channel, line by line.
proof fn output_decodes(geom: Conv2dGeom, image: int, channel: int, oy: int, ox: int)
    requires
        geom.wf(),
        0 <= image < geom.batch,
        0 <= channel < geom.cout,
        0 <= oy < geom.oh,
        0 <= ox < geom.ow,
    ensures
        ({
            let t = ((image * geom.cout + channel) * geom.oh + oy) * geom.ow + ox;
            &&& 0 <= t < geom.output_need()
            &&& image_of(geom, t) == image
            &&& channel_of(geom, t) == channel
            &&& pixel_of(geom, t) == oy * geom.ow + ox
        }),
{
    let oh = geom.oh as nat;
    let ow = geom.ow as nat;
    let s = (oy * ow + ox) as nat;
    let plane = (image * geom.cout + channel) as nat;
    crate::shape::joined_below(oy as nat, oh, ox as nat, ow);
    crate::shape::joined_below(image as nat, geom.batch as nat, channel as nat, geom.cout as nat);
    crate::shape::joined_below(plane, geom.batch as nat * geom.cout as nat, s, geom.spatial());
    let t = ((image * geom.cout + channel) * geom.oh + oy) * geom.ow + ox;
    assert(t == plane * (oh * ow) + s) by (nonlinear_arith)
        requires
            t == (plane * oh + oy) * ow + ox,
            s == oy * ow + ox,
    ;
}

/// With exact arithmetic, the element-by-element path puts in each output element what its
/// window gives, added to the bias of its channel where there is one.
pub proof fn cpu_convolves<W: Fn(u16) -> u32, F: Fn(u32, u16, u16) -> u32, N: Fn(u32) -> u16>(
    attr: Conv2dAttr,
    geom: Conv2dGeom,
    input: Seq<u16>,
    weight: Seq<u16>,
    bias: Option<Seq<u16>>,
    output: Seq<u16>,
    widen: W,
    mul_add: F,
    narrow: N,
    half: spec_fn(u16) -> int,
    wide: spec_fn(u32) -> int,
    image: int,
    channel: int,
    oy: int,
    ox: int,
) -> (sum: u32)
    requires
        call_ensures(Conv2dGeom::from_attr, (&attr,), Ok(geom)),
        forall|t: int|
            0 <= t < geom.output_need() ==> cpu_value(
                geom,
                input,
                weight,
                bias,
                widen,
                mul_add,
                narrow,
                t,
                #[trigger] output[t],
            ),
        crate::backend::matmul::adds_exactly(mul_add, half, wide),
        forall|h: u16, r: u32| #[trigger] widen.ensures((h,), r) ==> wide(r) == half(h),
        element_of_output(attr, image, channel, oy, ox),
    ensures
        wide(sum) == (match bias {
            Some(values) => half(values[channel]),
            None => 0,
        }) + window_sum(attr, input, weight, half, image, channel, oy, ox),
        narrow.ensures((sum,), output[output_at(attr, image, channel, oy, ox)]),
{
    let t = output_at(attr, image, channel, oy, ox);
    output_decodes(geom, image, channel, oy, ox);
    let s = oy * geom.ow + ox;
    let patch = geom.patch() as int;
    assert(cpu_value(geom, input, weight, bias, widen, mul_add, narrow, t, output[t]));
    let pairs = conv_pairs(geom, input, weight, image, channel, s, patch);
    let (start, sum) = choose|start: u32, sum: u32|
        {
            &&& match bias {
                Some(bias) => widen.ensures((bias[channel_of(geom, t)],), start),
                None => start == 0,
            }
            &&& #[trigger] crate::backend::matmul::summed(mul_add, start, pairs, sum)
            &&& narrow.ensures((sum,), output[t])
        };
    crate::backend::matmul::exact_sum(mul_add, half, wide, start, pairs, sum);
    pairs_sum(geom, input, weight, half, image, channel, s, patch);
    patch_is_window(attr, geom, input, weight, half, image, channel, oy, ox);
    sum
}

/// The pairs that meet give what the patch elements give; padding gives nothing.
proof fn pairs_sum(
    geom: Conv2dGeom,
    input: Seq<u16>,
    weight: Seq<u16>,
    half: spec_fn(u16) -> int,
    image: int,
    channel: int,
    s: int,
    n: int,
)
    requires
        n >= 0,
    ensures
        ({
            let pairs = conv_pairs(geom, input, weight, image, channel, s, n);
            crate::backend::sums::sum_of(
                |d: int| half(pairs[d].0) * half(pairs[d].1),
                pairs.len() as int,
            ) == crate::backend::sums::sum_of(
                |q: int| met(geom, input, weight, half, image, channel, s, q),
                n,
            )
        }),
    decreases n,
{
    if n > 0 {
        pairs_sum(geom, input, weight, half, image, channel, s, n - 1);
        let rest = conv_pairs(geom, input, weight, image, channel, s, n - 1);
        let pairs = conv_pairs(geom, input, weight, image, channel, s, n);
        let f = |d: int| half(pairs[d].0) * half(pairs[d].1);
        let g = |d: int| half(rest[d].0) * half(rest[d].1);
        crate::backend::sums::sums_agree(g, f, rest.len() as int);
    }
}

/// With exact tiles, the tile path puts in each output element what its window gives,
/// narrowed, to which the bias of its channel is then added.
pub proof fn tiles_convolve<
    T: Fn([u16; 64], [u16; 64]) -> [u32; 64],
    A: Fn(u32, u32) -> u32,
    N: Fn(u32) -> u16,
    B: Fn(u16, u16) -> u16,
>(
    attr: Conv2dAttr,
    geom: Conv2dGeom,
    input: Seq<u16>,
    weight: Seq<u16>,
    bias: Option<Seq<u16>>,
    output: Seq<u16>,
    tile_product: T,
    add_parts: A,
    narrow: N,
    add_bias: B,
    half: spec_fn(u16) -> int,
    wide: spec_fn(u32) -> int,
    image: int,
    channel: int,
    oy: int,
    ox: int,
) -> (r: (u32, u16))
    requires
        call_ensures(Conv2dGeom::from_attr, (&attr,), Ok(geom)),
        geom.unrolls(),
        geom.weight_need() <= weight.len(),
        forall|t: int|
            0 <= t < geom.output_need() ==> a100_value(
                geom,
                input,
                weight,
                bias,
                tile_product,
                add_parts,
                narrow,
                add_bias,
                t,
                #[trigger] output[t],
            ),
        crate::backend::matmul::tiles_exactly(tile_product, add_parts, half, wide),
        element_of_output(attr, image, channel, oy, ox),
    ensures
        wide(r.0) == window_sum(attr, input, weight, half, image, channel, oy, ox),
        narrow.ensures((r.0,), r.1),
        match bias {
            Some(values) => add_bias.ensures(
                (r.1, values[channel]),
                output[output_at(attr, image, channel, oy, ox)],
            ),
            None => output[output_at(attr, image, channel, oy, ox)] == r.1,
        },
{
    let t = output_at(attr, image, channel, oy, ox);
    output_decodes(geom, image, channel, oy, ox);
    geom.needs_bound_factors();
    geom.blocks_cover();
    let s = oy * geom.ow + ox;
    let patch = geom.patch() as int;
    let outputs = geom.cout_group() as int;
    let group = channel / outputs;
    let row = channel % outputs;
    let spatial = geom.spatial() as int;
    assert(geom.groups as nat * geom.cout_group() == geom.cout_group() * geom.groups as nat)
        by (nonlinear_arith);
    crate::shape::split_below(channel as nat, geom.groups as nat, geom.cout_group());
    let product_attr = group_product(geom);
    let lhs = group_weights(geom, weight, group);
    let rhs = unrolled(geom, input, image, group);
    assert(a100_value(
        geom,
        input,
        weight,
        bias,
        tile_product,
        add_parts,
        narrow,
        add_bias,
        t,
        output[t],
    ));
    let product = choose|product: u16|
        {
            &&& #[trigger] crate::backend::matmul::a100_holds(
                tile_product,
                add_parts,
                narrow,
                product_attr,
                lhs,
                rhs,
            )(0, row, s, product)
            &&& match bias {
                Some(bias) => add_bias.ensures((product, bias[channel]), output[t]),
                None => output[t] == product,
            }
        };
    let left = |b: int, i: int, d: int| lhs[i * patch + d];
    let right = |b: int, d: int, j: int| rhs[d * spatial + j];
    assert(0u32 & 1 == 0 && 0u32 & 2 == 0) by (bit_vector);
    assert(product_attr.k.0 == patch && product_attr.n.0 == spatial && product_attr.m.0
        == outputs);
    assert forall|b: int, i: int, d: int| 0 <= b < 1 implies #[trigger] left(b, i, d) == lhs[b
        * product_attr.lhs_batch_stride.0 + (i * product_attr.lhs_row_stride.0 + d
        * product_attr.lhs_col_stride.0)] by {
        assert(b * 0 == 0 && d * 1 == d) by (nonlinear_arith);
    }
    assert forall|b: int, d: int, j: int| 0 <= b < 1 implies #[trigger] right(b, d, j) == rhs[b
        * product_attr.rhs_batch_stride.0 + (d * product_attr.rhs_row_stride.0 + j
        * product_attr.rhs_col_stride.0)] by {
        assert(b * 0 == 0 && j * 1 == j) by (nonlinear_arith);
    }
    assert(crate::backend::matmul::holds_left(product_attr, lhs, left));
    assert(crate::backend::matmul::holds_right(product_attr, rhs, right));
    let sum = crate::backend::matmul::tiled_element(
        product_attr,
        lhs,
        rhs,
        tile_product,
        add_parts,
        narrow,
        half,
        wide,
        left,
        right,
        0,
        row,
        s,
        product,
    );
    let f = |d: int| half(left(0, row, d)) * half(right(0, d, s));
    let g = |q: int| met(geom, input, weight, half, image, channel, s, q);
    assert forall|q: int| 0 <= q < patch implies #[trigger] f(q) == g(q) by {
        let size = outputs * patch;
        crate::shape::joined_below(row as nat, outputs as nat, q as nat, patch as nat);
        crate::shape::joined_below(q as nat, patch as nat, s as nat, spatial as nat);
        assert(group * size + (row * patch + q) == channel * patch + q) by (nonlinear_arith)
            requires
                channel == group * outputs + row,
                size == outputs * patch,
        ;
        assert((group + 1) * size <= geom.groups * size) by (nonlinear_arith)
            requires
                group + 1 <= geom.groups,
                size >= 0,
        ;
        assert((group + 1) * size == group * size + size) by (nonlinear_arith);
        assert(geom.groups * size == geom.weight_need()) by (nonlinear_arith)
            requires
                size == outputs * patch,
                outputs * geom.groups == geom.cout,
                geom.weight_need() == patch * geom.cout,
        ;
        assert(0 <= group * size) by (nonlinear_arith)
            requires
                group >= 0,
                size >= 0,
        ;
        assert(lhs[row * patch + q] == weight[channel * patch + q]);
        let w = half(weight[channel * patch + q]);
        assert(w * 0 == 0) by (nonlinear_arith);
    }
    crate::backend::sums::sums_agree(f, g, patch);
    patch_is_window(attr, geom, input, weight, half, image, channel, oy, ox);
    (sum, product)
}

/// The input element that a window element falls on: one output line further down it is a
/// stride further down, one line further in the window a dilation, and the same across. The
/// first element of the first window lies on the padding's width before the image.
pub proof fn windows_move_by_strides(
    attr: Conv2dAttr,
    geom: Conv2dGeom,
    image: int,
    channel: int,
    oy: int,
    ox: int,
    ky: int,
    kx: int,
)
    requires
        call_ensures(Conv2dGeom::from_attr, (&attr,), Ok(geom)),
    ensures
        ({
            let at = |y: int, x: int, a: int, b: int| input_place(geom, image, channel, y, x, a, b);
            let width = attr.input_w.0 as int;
            let here = at(oy, ox, ky, kx);
            &&& here is Some && at(oy + 1, ox, ky, kx) is Some ==> at(oy + 1, ox, ky, kx)->0
                - here->0 == counted(attr.stride_h.0) * width
            &&& here is Some && at(oy, ox + 1, ky, kx) is Some ==> at(oy, ox + 1, ky, kx)->0
                - here->0 == counted(attr.stride_w.0)
            &&& here is Some && at(oy, ox, ky + 1, kx) is Some ==> at(oy, ox, ky + 1, kx)->0
                - here->0 == counted(attr.dilation_h.0) * width
            &&& here is Some && at(oy, ox, ky, kx + 1) is Some ==> at(oy, ox, ky, kx + 1)->0
                - here->0 == counted(attr.dilation_w.0)
            &&& attr.pad_h.0 == 0 && attr.pad_w.0 == 0 && at(oy, ox, 0, 0) is Some ==> at(
                oy,
                ox,
                0,
                0,
            )->0 == ((image * attr.in_channels.0 + channel) * attr.input_h.0 + oy * counted(
                attr.stride_h.0,
            )) * width + ox * counted(attr.stride_w.0)
        }),
{
    let w = geom.iw as int;
    let sh = geom.sh as int;
    let dh = geom.dh as int;
    let sw = geom.sw as int;
    let dw = geom.dw as int;
    let plane = (image * geom.cin + channel) * geom.ih;
    let y = oy * sh + ky * dh - geom.ph;
    assert((oy + 1) * sh == oy * sh + sh) by (nonlinear_arith);
    assert((ox + 1) * sw == ox * sw + sw) by (nonlinear_arith);
    assert((ky + 1) * dh == ky * dh + dh) by (nonlinear_arith);
    assert((kx + 1) * dw == kx * dw + dw) by (nonlinear_arith);
    assert((plane + (y + sh)) * w == (plane + y) * w + sh * w) by (nonlinear_arith);
    assert((plane + (y + dh)) * w == (plane + y) * w + dh * w) by (nonlinear_arith);
    assert(0 * dh == 0 && 0 * dw == 0) by (nonlinear_arith);
}

} // verus!
