//! Two-dimensional resize.

use crate::backend::call::CallContext;
use crate::backend::float::{read_float_tensor, write_float_tensor};
use crate::backend::meta::TensorMeta;
use crate::uabi::desc::AiDtype;
use crate::uabi::error::BackendErr;
use crate::uabi::kernelattr::Resize2dAttr;
use vstd::prelude::*;

verus! {

/// An output coordinate along one axis, with what its source depends on.
#[derive(Clone, Copy, PartialEq, Eq, Structural, Debug)]
pub struct ResizePoint {
    /// Output coordinate.
    pub index: usize,
    /// Input extent.
    pub input: usize,
    /// Output extent.
    pub output: usize,
    /// How output coordinates are laid over the input.
    pub coordinate_mode: u32,
    /// How a source between two elements is rounded.
    pub nearest_mode: u32,
}

/// The four elements around a source, and how far it is from the first along each axis.
#[derive(Clone, Copy, PartialEq, Eq, Structural, Debug)]
pub struct ResizePatch {
    /// Above, to the left.
    pub p00: u32,
    /// Above, to the right.
    pub p01: u32,
    /// Below, to the left.
    pub p10: u32,
    /// Below, to the right.
    pub p11: u32,
    /// Bits of the horizontal distance.
    pub wx: u32,
    /// Bits of the vertical distance.
    pub wy: u32,
}

/// The extents of a resize.
#[derive(Clone, Copy, Debug)]
pub struct ResizeGeom {
    /// Images times channels.
    pub planes: usize,
    /// Input height.
    pub ih: usize,
    /// Input width.
    pub iw: usize,
    /// Output height.
    pub oh: usize,
    /// Output width.
    pub ow: usize,
    /// How output coordinates are laid over the input.
    pub coordinate_mode: u32,
    /// How a source between two elements is rounded.
    pub nearest_mode: u32,
}

/// A coordinate that is kept below the extent.
pub open spec fn clamped(at: int, extent: int) -> int {
    if at < extent {
        at
    } else {
        extent - 1
    }
}

fn clamp(at: usize, extent: usize) -> (r: usize)
    requires
        extent > 0,
    ensures
        r == clamped(at as int, extent as int),
        r < extent,
{
    if at < extent {
        at
    } else {
        extent - 1
    }
}

impl ResizeGeom {
    /// Elements of the input.
    pub open spec fn input_count(self) -> nat {
        self.planes as nat * self.ih as nat * self.iw as nat
    }

    /// Elements of the output.
    pub open spec fn output_count(self) -> nat {
        self.planes as nat * self.oh as nat * self.ow as nat
    }

    /// Plane of output position `t`.
    pub open spec fn plane(self, t: nat) -> nat {
        t / self.ow as nat / self.oh as nat
    }

    /// The vertical coordinate of output position `t`.
    pub open spec fn vertical(self, t: nat) -> ResizePoint {
        ResizePoint {
            index: (t / self.ow as nat % self.oh as nat) as usize,
            input: self.ih,
            output: self.oh,
            coordinate_mode: self.coordinate_mode,
            nearest_mode: self.nearest_mode,
        }
    }

    /// The horizontal coordinate of output position `t`.
    pub open spec fn horizontal(self, t: nat) -> ResizePoint {
        ResizePoint {
            index: (t % self.ow as nat) as usize,
            input: self.iw,
            output: self.ow,
            coordinate_mode: self.coordinate_mode,
            nearest_mode: self.nearest_mode,
        }
    }

    /// Input position in the plane of output position `t`.
    pub open spec fn at(self, t: nat, y: int, x: int) -> int {
        (self.plane(t) * self.ih + clamped(y, self.ih as int)) * self.iw + clamped(
            x,
            self.iw as int,
        )
    }

    /// The plane and the two coordinates of an output position.
    fn split(&self, t: usize) -> (r: (usize, ResizePoint, ResizePoint))
        requires
            t < self.output_count(),
        ensures
            r.0 == self.plane(t as nat),
            r.0 < self.planes,
            r.1 == self.vertical(t as nat),
            r.2 == self.horizontal(t as nat),
    {
        proof {
            crate::shape::split_below(
                t as nat,
                self.planes as nat * self.oh as nat,
                self.ow as nat,
            );
            crate::shape::split_below(t as nat / self.ow as nat, self.planes as nat, self.oh as nat);
        }
        let line: usize = t / self.ow;
        let vertical = ResizePoint {
            index: line % self.oh,
            input: self.ih,
            output: self.oh,
            coordinate_mode: self.coordinate_mode,
            nearest_mode: self.nearest_mode,
        };
        let horizontal = ResizePoint {
            index: t % self.ow,
            input: self.iw,
            output: self.ow,
            coordinate_mode: self.coordinate_mode,
            nearest_mode: self.nearest_mode,
        };
        (line / self.oh, vertical, horizontal)
    }

    /// Input position of a coordinate in a plane.
    fn position(&self, plane: usize, y: usize, x: usize) -> (r: usize)
        requires
            self.input_count() <= usize::MAX,
            plane < self.planes,
            self.ih > 0,
            self.iw > 0,
        ensures
            r == (plane * self.ih + clamped(y as int, self.ih as int)) * self.iw + clamped(
                x as int,
                self.iw as int,
            ),
            r < self.input_count(),
    {
        let y: usize = clamp(y, self.ih);
        let x: usize = clamp(x, self.iw);
        proof {
            crate::shape::joined_below(
                plane as nat,
                self.planes as nat,
                y as nat,
                self.ih as nat,
            );
            let line = (plane as nat * self.ih as nat + y as nat) as nat;
            crate::shape::joined_below(
                line,
                self.planes as nat * self.ih as nat,
                x as nat,
                self.iw as nat,
            );
            assert(0 <= plane * self.ih) by (nonlinear_arith)
                requires
                    plane >= 0,
                    self.ih >= 0,
            ;
            assert(line <= line * self.iw) by (nonlinear_arith)
                requires
                    line >= 0,
                    self.iw >= 1,
            ;
        }
        (plane * self.ih + y) * self.iw + x
    }
}

/// What belongs in an output position of a nearest resize: the element at the rounded
/// source.
pub open spec fn nearest_value<S: Fn(ResizePoint) -> usize>(
    geom: ResizeGeom,
    input: Seq<u32>,
    nearest: S,
    t: nat,
    value: u32,
) -> bool {
    exists|y: usize, x: usize|
        {
            &&& #[trigger] nearest.ensures((geom.vertical(t),), y)
            &&& #[trigger] nearest.ensures((geom.horizontal(t),), x)
            &&& value == input[geom.at(t, y as int, x as int)]
        }
}

/// Takes the nearest element for every output position.
pub fn resize_nearest<S: Fn(ResizePoint) -> usize>(
    input: &[u32],
    geom: &ResizeGeom,
    nearest: &S,
) -> (r: Vec<u32>)
    requires
        input@.len() == geom.input_count(),
        geom.output_count() <= usize::MAX,
        geom.output_count() > 0 ==> geom.input_count() > 0,
        forall|point: ResizePoint| #[trigger] nearest.requires((point,)),
    ensures
        r@.len() == geom.output_count(),
        forall|t: int|
            0 <= t < r@.len() ==> nearest_value(
                *geom,
                input@,
                *nearest,
                t as nat,
                #[trigger] r@[t],
            ),
{
    let total: usize = input.len();
    let count: usize = count_outputs(geom);
    let mut output: Vec<u32> = Vec::new();
    let mut t: usize = 0;
    while t < count
        invariant
            t <= count,
            count == geom.output_count(),
            total == input@.len(),
            input@.len() == geom.input_count(),
            geom.output_count() > 0 ==> geom.input_count() > 0,
            forall|point: ResizePoint| #[trigger] nearest.requires((point,)),
            output@.len() == t,
            forall|j: int|
                0 <= j < t ==> nearest_value(
                    *geom,
                    input@,
                    *nearest,
                    j as nat,
                    #[trigger] output@[j],
                ),
        decreases count - t,
    {
        proof {
            extents_positive(*geom);
        }
        let (plane, vertical, horizontal) = geom.split(t);
        let y: usize = nearest(vertical);
        let x: usize = nearest(horizontal);
        let at: usize = geom.position(plane, y, x);
        let value: u32 = input[at];
        assert(nearest_value(*geom, input@, *nearest, t as nat, value)) by {
            assert(nearest.ensures((geom.vertical(t as nat),), y));
            assert(nearest.ensures((geom.horizontal(t as nat),), x));
        }
        output.push(value);
        t = t + 1;
    }
    output
}

/// What belongs in an output position of a linear resize: a blend of the four elements
/// around the source.
pub open spec fn linear_value<S: Fn(ResizePoint) -> (usize, u32), B: Fn(ResizePatch) -> u32>(
    geom: ResizeGeom,
    input: Seq<u32>,
    locate: S,
    blend: B,
    t: nat,
    value: u32,
) -> bool {
    exists|v: (usize, u32), h: (usize, u32)|
        {
            let y = clamped(v.0 as int, geom.ih as int);
            let x = clamped(h.0 as int, geom.iw as int);
            &&& #[trigger] locate.ensures((geom.vertical(t),), v)
            &&& #[trigger] locate.ensures((geom.horizontal(t),), h)
            &&& blend.ensures(
                (
                    ResizePatch {
                        p00: input[geom.at(t, y, x)],
                        p01: input[geom.at(t, y, x + 1)],
                        p10: input[geom.at(t, y + 1, x)],
                        p11: input[geom.at(t, y + 1, x + 1)],
                        wx: h.1,
                        wy: v.1,
                    },
                ),
                value,
            )
        }
}

/// Blends the elements around the source for every output position.
pub fn resize_linear<S: Fn(ResizePoint) -> (usize, u32), B: Fn(ResizePatch) -> u32>(
    input: &[u32],
    geom: &ResizeGeom,
    locate: &S,
    blend: &B,
) -> (r: Vec<u32>)
    requires
        input@.len() == geom.input_count(),
        geom.output_count() <= usize::MAX,
        geom.output_count() > 0 ==> geom.input_count() > 0,
        forall|point: ResizePoint| #[trigger] locate.requires((point,)),
        forall|patch: ResizePatch| #[trigger] blend.requires((patch,)),
    ensures
        r@.len() == geom.output_count(),
        forall|t: int|
            0 <= t < r@.len() ==> linear_value(
                *geom,
                input@,
                *locate,
                *blend,
                t as nat,
                #[trigger] r@[t],
            ),
{
    let total: usize = input.len();
    let count: usize = count_outputs(geom);
    let mut output: Vec<u32> = Vec::new();
    let mut t: usize = 0;
    while t < count
        invariant
            t <= count,
            count == geom.output_count(),
            total == input@.len(),
            input@.len() == geom.input_count(),
            geom.output_count() > 0 ==> geom.input_count() > 0,
            forall|point: ResizePoint| #[trigger] locate.requires((point,)),
            forall|patch: ResizePatch| #[trigger] blend.requires((patch,)),
            output@.len() == t,
            forall|j: int|
                0 <= j < t ==> linear_value(
                    *geom,
                    input@,
                    *locate,
                    *blend,
                    j as nat,
                    #[trigger] output@[j],
                ),
        decreases count - t,
    {
        proof {
            extents_positive(*geom);
        }
        let (plane, vertical, horizontal) = geom.split(t);
        let v: (usize, u32) = locate(vertical);
        let h: (usize, u32) = locate(horizontal);
        let y: usize = clamp(v.0, geom.ih);
        let x: usize = clamp(h.0, geom.iw);
        let patch = ResizePatch {
            p00: input[geom.position(plane, y, x)],
            p01: input[geom.position(plane, y, x + 1)],
            p10: input[geom.position(plane, y + 1, x)],
            p11: input[geom.position(plane, y + 1, x + 1)],
            wx: h.1,
            wy: v.1,
        };
        let value: u32 = blend(patch);
        assert(linear_value(*geom, input@, *locate, *blend, t as nat, value)) by {
            assert(locate.ensures((geom.vertical(t as nat),), v));
            assert(locate.ensures((geom.horizontal(t as nat),), h));
        }
        output.push(value);
        t = t + 1;
    }
    output
}

/// Where there are input elements, no extent of the input is zero.
proof fn extents_positive(geom: ResizeGeom)
    requires
        geom.input_count() > 0,
    ensures
        geom.ih > 0,
        geom.iw > 0,
{
    let planes = geom.planes as nat;
    if geom.ih == 0 {
        assert(planes * 0 == 0) by (nonlinear_arith);
        assert(0 * geom.iw as nat == 0) by (nonlinear_arith);
    }
    if geom.iw == 0 {
        assert(planes * geom.ih as nat * 0 == 0) by (nonlinear_arith);
    }
}

/// Number of output elements.
fn count_outputs(geom: &ResizeGeom) -> (r: usize)
    requires
        geom.output_count() <= usize::MAX,
    ensures
        r == geom.output_count(),
{
    if geom.ow == 0 {
        assert(geom.planes as nat * geom.oh as nat * 0 == 0) by (nonlinear_arith);
        return 0;
    }
    proof {
        let lines = geom.planes as nat * geom.oh as nat;
        assert(lines <= lines * geom.ow as nat) by (nonlinear_arith)
            requires
                geom.ow >= 1,
        ;
    }
    geom.planes * geom.oh * geom.ow
}

/// A checked resize.
#[derive(Clone, Copy, Debug)]
pub struct ResizePlan {
    /// The input.
    pub input: TensorMeta,
    /// The output.
    pub output: TensorMeta,
    /// The extents.
    pub geom: ResizeGeom,
    /// Whether elements are blended.
    pub linear: bool,
}

impl ResizePlan {
    /// The tensors are half-precision tensors of the extents.
    pub open spec fn wf(self) -> bool {
        &&& crate::backend::float::halves(self.input)
        &&& crate::backend::float::halves(self.output)
        &&& self.input.element_count == self.geom.input_count()
        &&& self.output.element_count == self.geom.output_count()
    }

    /// The bytes of the tensors can be counted, and there is a source for every element.
    pub open spec fn possible(self) -> bool {
        &&& crate::backend::logical::countable(self.input)
        &&& crate::backend::logical::countable(self.output)
        &&& self.output.element_count > 0 ==> self.input.element_count > 0
    }
}

/// What is wrong with a call of the resize, where anything is.
pub open spec fn resize_fault(ctx: CallContext) -> Option<BackendErr> {
    let input = ctx.inputs[0];
    let output = ctx.outputs[0];
    if crate::backend::transform::io_fault(ctx, 1, 1) is Some {
        crate::backend::transform::io_fault(ctx, 1, 1)
    } else {
        match ctx.attr_as::<Resize2dAttr>() {
            None => Some(BackendErr::InvalidAttr),
            Some(attr) => if crate::backend::meta::view_fault(input) is Some {
                crate::backend::meta::view_fault(input)
            } else if crate::backend::meta::view_fault(output) is Some {
                crate::backend::meta::view_fault(output)
            } else if input.ndim.0 != 4 || output.ndim.0 != 4 || input.dtype != output.dtype
                || input.shape[0] != output.shape[0] || input.shape[1] != output.shape[1]
                || input.shape[2] != attr.input_h || input.shape[3] != attr.input_w
                || output.shape[2] != attr.output_h || output.shape[3] != attr.output_w {
                Some(BackendErr::InvalidTensor)
            } else if attr.mode > Resize2dAttr::MODE_LINEAR || attr.coordinate_mode
                > Resize2dAttr::COORD_ALIGN_CORNERS || attr.nearest_mode
                > Resize2dAttr::NEAREST_CEIL {
                Some(BackendErr::InvalidAttr)
            } else if input.dtype.0 != AiDtype::F16 {
                Some(BackendErr::UnsupportedDtype)
            } else {
                None
            },
        }
    }
}

/// Checks a call of the resize.
pub fn check_resize(ctx: &CallContext) -> (r: Result<ResizePlan, BackendErr>)
    requires
        ctx.wf(),
    ensures
        match r {
            Ok(plan) => {
                let attr = ctx.attr_as::<Resize2dAttr>()->0;
                &&& resize_fault(*ctx) is None
                &&& plan.wf()
                &&& crate::backend::call::checked(ctx.inputs[0], plan.input)
                &&& crate::backend::call::checked(ctx.outputs[0], plan.output)
                &&& plan.geom.ih == attr.input_h.0
                &&& plan.geom.iw == attr.input_w.0
                &&& plan.geom.oh == attr.output_h.0
                &&& plan.geom.ow == attr.output_w.0
                &&& plan.geom.coordinate_mode == attr.coordinate_mode
                &&& plan.geom.nearest_mode == attr.nearest_mode
                &&& plan.linear == (attr.mode == Resize2dAttr::MODE_LINEAR)
            },
            Err(err) => resize_fault(*ctx) == Some(err),
        },
{
    ctx.expect_io(1, 1)?;
    ctx.reject_input_output_alias()?;
    let attr: Resize2dAttr = ctx.read_attr::<Resize2dAttr>()?;
    let input: TensorMeta = ctx.inputs[0].checked_meta()?;
    let output: TensorMeta = ctx.outputs[0].checked_meta()?;
    if input.rank != 4 || output.rank != 4 || ctx.inputs[0].dtype.0 != ctx.outputs[0].dtype.0 {
        return Err(BackendErr::InvalidTensor);
    }
    assert(input.shape[0] == ctx.inputs[0].shape[0].0 && input.shape[1]
        == ctx.inputs[0].shape[1].0);
    assert(input.shape[2] == ctx.inputs[0].shape[2].0 && input.shape[3]
        == ctx.inputs[0].shape[3].0);
    assert(output.shape[0] == ctx.outputs[0].shape[0].0 && output.shape[1]
        == ctx.outputs[0].shape[1].0);
    assert(output.shape[2] == ctx.outputs[0].shape[2].0 && output.shape[3]
        == ctx.outputs[0].shape[3].0);
    if input.shape[0] != output.shape[0] || input.shape[1] != output.shape[1] || input.shape[2]
        != attr.input_h.0 as usize || input.shape[3] != attr.input_w.0 as usize || output.shape[2]
        != attr.output_h.0 as usize || output.shape[3] != attr.output_w.0 as usize {
        return Err(BackendErr::InvalidTensor);
    }
    if attr.mode > Resize2dAttr::MODE_LINEAR || attr.coordinate_mode
        > Resize2dAttr::COORD_ALIGN_CORNERS || attr.nearest_mode > Resize2dAttr::NEAREST_CEIL {
        return Err(BackendErr::InvalidAttr);
    }
    if ctx.inputs[0].dtype.0 != AiDtype::F16 {
        return Err(BackendErr::UnsupportedDtype);
    }
    proof {
        crate::backend::meta::four_axes(input);
        crate::backend::meta::four_axes(output);
    }
    let geom = ResizeGeom {
        planes: input.shape[0] * input.shape[1],
        ih: input.shape[2],
        iw: input.shape[3],
        oh: output.shape[2],
        ow: output.shape[3],
        coordinate_mode: attr.coordinate_mode,
        nearest_mode: attr.nearest_mode,
    };
    Ok(ResizePlan { input, output, geom, linear: attr.mode == Resize2dAttr::MODE_LINEAR })
}

/// What running a resize does: the input is widened, every output element computed, and
/// the output narrowed. Tensors that cannot be counted, and an output without a source,
/// are refused.
pub open spec fn resize_outcome<
    W: Fn(u16) -> u32,
    C: Fn(ResizePoint) -> usize,
    S: Fn(ResizePoint) -> (usize, u32),
    B: Fn(ResizePatch) -> u32,
    N: Fn(u32) -> u16,
>(
    plan: ResizePlan,
    widen: W,
    nearest: C,
    locate: S,
    blend: B,
    narrow: N,
    raw: Seq<u8>,
    before: Seq<u8>,
    after: Seq<u8>,
    r: Result<(), BackendErr>,
) -> bool {
    match r {
        Ok(_) => plan.possible() && exists|wide: Seq<u32>, done: Seq<u32>|
            {
                &&& #[trigger] crate::backend::float::widened(widen, raw, plan.input, wide)
                &&& done.len() == plan.geom.output_count()
                &&& forall|t: int|
                    0 <= t < done.len() ==> if plan.linear {
                        linear_value(
                            plan.geom,
                            wide,
                            locate,
                            blend,
                            t as nat,
                            #[trigger] done[t],
                        )
                    } else {
                        nearest_value(plan.geom, wide, nearest, t as nat, done[t])
                    }
                &&& #[trigger] crate::backend::float::narrowed(
                    narrow,
                    done,
                    plan.output,
                    before,
                    after,
                )
            },
        Err(err) => !plan.possible() && err == BackendErr::InvalidTensor && after == before,
    }
}

/// Resizes: `nearest` gives the source of a coordinate, `locate` the element before it and
/// the distance from there, and `blend` mixes the four elements around a source.
pub fn run_resize<
    W: Fn(u16) -> u32,
    C: Fn(ResizePoint) -> usize,
    S: Fn(ResizePoint) -> (usize, u32),
    B: Fn(ResizePatch) -> u32,
    N: Fn(u32) -> u16,
>(
    plan: &ResizePlan,
    raw: &[u8],
    output: &mut [u8],
    widen: &W,
    nearest: &C,
    locate: &S,
    blend: &B,
    narrow: &N,
) -> (r: Result<(), BackendErr>)
    requires
        plan.wf(),
        plan.input.lies_in(raw@.len() as int / 2),
        plan.output.lies_in(old(output)@.len() as int / 2),
        forall|h: u16| #[trigger] widen.requires((h,)),
        forall|point: ResizePoint| #[trigger] nearest.requires((point,)),
        forall|point: ResizePoint| #[trigger] locate.requires((point,)),
        forall|patch: ResizePatch| #[trigger] blend.requires((patch,)),
        forall|v: u32| #[trigger] narrow.requires((v,)),
    ensures
        resize_outcome(
            *plan,
            *widen,
            *nearest,
            *locate,
            *blend,
            *narrow,
            raw@,
            old(output)@,
            final(output)@,
            r,
        ),
{
    if plan.output.element_count > 0 && plan.input.element_count == 0 {
        return Err(BackendErr::InvalidTensor);
    }
    let wide: Vec<u32> = read_float_tensor(raw, &plan.input, widen)?;
    let done: Vec<u32> = if plan.linear {
        resize_linear(&wide, &plan.geom, locate, blend)
    } else {
        resize_nearest(&wide, &plan.geom, nearest)
    };
    write_float_tensor(&done, output, &plan.output, narrow)
}


/// Output positions count planes, rows and columns, and each row or column asks for the
/// source of its own number between the extents of its own direction.
proof fn output_decodes(geom: ResizeGeom, plane: int, oy: int, ox: int)
    requires
        0 <= plane < geom.planes,
        0 <= oy < geom.oh,
        0 <= ox < geom.ow,
    ensures
        ({
            let t = (plane * geom.oh + oy) * geom.ow + ox;
            &&& 0 <= t < geom.output_count()
            &&& geom.plane(t as nat) == plane
            &&& geom.vertical(t as nat).index == oy
            &&& geom.horizontal(t as nat).index == ox
        }),
{
    let (oh, ow) = (geom.oh as nat, geom.ow as nat);
    crate::shape::joined_below(plane as nat, geom.planes as nat, oy as nat, oh);
    let rows = (plane * oh + oy) as nat;
    crate::shape::joined_below(rows, geom.planes as nat * oh, ox as nat, ow);
}

/// The source that is asked for of row `oy`.
pub open spec fn row_point(geom: ResizeGeom, oy: int) -> ResizePoint {
    ResizePoint {
        index: oy as usize,
        input: geom.ih,
        output: geom.oh,
        coordinate_mode: geom.coordinate_mode,
        nearest_mode: geom.nearest_mode,
    }
}

/// The source that is asked for of column `ox`.
pub open spec fn column_point(geom: ResizeGeom, ox: int) -> ResizePoint {
    ResizePoint {
        index: ox as usize,
        input: geom.iw,
        output: geom.ow,
        coordinate_mode: geom.coordinate_mode,
        nearest_mode: geom.nearest_mode,
    }
}

/// The input element of a plane at a row and a column; past the last ones, that at the last.
pub open spec fn pixel(geom: ResizeGeom, input: Seq<u32>, plane: int, y: int, x: int) -> u32 {
    let row = if y >= geom.ih {
        geom.ih - 1
    } else {
        y
    };
    let column = if x >= geom.iw {
        geom.iw - 1
    } else {
        x
    };
    input[(plane * geom.ih + row) * geom.iw + column]
}

/// A nearest resize takes the element of the same plane at the source of its row and of its
/// column.
pub proof fn nearest_takes_the_source<S: Fn(ResizePoint) -> usize>(
    geom: ResizeGeom,
    input: Seq<u32>,
    nearest: S,
    plane: int,
    oy: int,
    ox: int,
    value: u32,
) -> (r: (usize, usize))
    requires
        0 <= plane < geom.planes,
        0 <= oy < geom.oh,
        0 <= ox < geom.ow,
        nearest_value(
            geom,
            input,
            nearest,
            ((plane * geom.oh + oy) * geom.ow + ox) as nat,
            value,
        ),
    ensures
        nearest.ensures((row_point(geom, oy),), r.0),
        nearest.ensures((column_point(geom, ox),), r.1),
        value == pixel(geom, input, plane, r.0 as int, r.1 as int),
{
    output_decodes(geom, plane, oy, ox);
    let t = ((plane * geom.oh + oy) * geom.ow + ox) as nat;
    let (y, x) = choose|y: usize, x: usize|
        {
            &&& #[trigger] nearest.ensures((geom.vertical(t),), y)
            &&& #[trigger] nearest.ensures((geom.horizontal(t),), x)
            &&& value == input[geom.at(t, y as int, x as int)]
        };
    (y, x)
}

/// A linear resize blends the four elements of the same plane around the source: two rows and
/// two columns, with the distances that go with the row and with the column.
pub proof fn linear_blends_its_neighbours<
    S: Fn(ResizePoint) -> (usize, u32),
    B: Fn(ResizePatch) -> u32,
>(
    geom: ResizeGeom,
    input: Seq<u32>,
    locate: S,
    blend: B,
    plane: int,
    oy: int,
    ox: int,
    value: u32,
) -> (r: ((usize, u32), (usize, u32)))
    requires
        0 <= plane < geom.planes,
        0 <= oy < geom.oh,
        0 <= ox < geom.ow,
        linear_value(
            geom,
            input,
            locate,
            blend,
            ((plane * geom.oh + oy) * geom.ow + ox) as nat,
            value,
        ),
    ensures
        locate.ensures((row_point(geom, oy),), r.0),
        locate.ensures((column_point(geom, ox),), r.1),
        ({
            let last = geom.ih - 1;
            let y = if r.0.0 < last {
                r.0.0 as int
            } else {
                last
            };
            let x = if r.1.0 < geom.iw - 1 {
                r.1.0 as int
            } else {
                geom.iw - 1
            };
            blend.ensures(
                (
                    ResizePatch {
                        p00: pixel(geom, input, plane, y, x),
                        p01: pixel(geom, input, plane, y, x + 1),
                        p10: pixel(geom, input, plane, y + 1, x),
                        p11: pixel(geom, input, plane, y + 1, x + 1),
                        wx: r.1.1,
                        wy: r.0.1,
                    },
                ),
                value,
            )
        }),
{
    output_decodes(geom, plane, oy, ox);
    let t = ((plane * geom.oh + oy) * geom.ow + ox) as nat;
    assert(geom.vertical(t) == row_point(geom, oy));
    assert(geom.horizontal(t) == column_point(geom, ox));
    let (v, h) = choose|v: (usize, u32), h: (usize, u32)|
        {
            let y = clamped(v.0 as int, geom.ih as int);
            let x = clamped(h.0 as int, geom.iw as int);
            &&& #[trigger] locate.ensures((geom.vertical(t),), v)
            &&& #[trigger] locate.ensures((geom.horizontal(t),), h)
            &&& blend.ensures(
                (
                    ResizePatch {
                        p00: input[geom.at(t, y, x)],
                        p01: input[geom.at(t, y, x + 1)],
                        p10: input[geom.at(t, y + 1, x)],
                        p11: input[geom.at(t, y + 1, x + 1)],
                        wx: h.1,
                        wy: v.1,
                    },
                ),
                value,
            )
        };
    (v, h)
}

/// A checked resize has the extents and modes of its attribute, which are those of its
/// tensors.
pub proof fn resize_follows_its_attribute(ctx: CallContext, plan: ResizePlan)
    requires
        call_ensures(check_resize, (&ctx,), Ok::<ResizePlan, BackendErr>(plan)),
    ensures
        ({
            let attr = ctx.attr_as::<Resize2dAttr>()->0;
            &&& plan.geom.ih == attr.input_h.0 == plan.input.shape[2]
            &&& plan.geom.iw == attr.input_w.0 == plan.input.shape[3]
            &&& plan.geom.oh == attr.output_h.0 == plan.output.shape[2]
            &&& plan.geom.ow == attr.output_w.0 == plan.output.shape[3]
            &&& plan.linear == (attr.mode == 1)
            &&& plan.geom.coordinate_mode == attr.coordinate_mode
            &&& plan.geom.nearest_mode == attr.nearest_mode
        }),
{
}


/// A resize does what its mode says: with the linear mode every output element is blended,
/// and with the other it is the nearest one.
pub proof fn resize_goes_by_its_mode<
    W: Fn(u16) -> u32,
    C: Fn(ResizePoint) -> usize,
    S: Fn(ResizePoint) -> (usize, u32),
    B: Fn(ResizePatch) -> u32,
    N: Fn(u32) -> u16,
>(
    plan: ResizePlan,
    widen: W,
    nearest: C,
    locate: S,
    blend: B,
    narrow: N,
    raw: Seq<u8>,
    before: Seq<u8>,
    after: Seq<u8>,
    t: nat,
) -> (r: (Seq<u32>, Seq<u32>))
    requires
        resize_outcome(
            plan,
            widen,
            nearest,
            locate,
            blend,
            narrow,
            raw,
            before,
            after,
            Ok(()),
        ),
        t < plan.geom.output_count(),
    ensures
        crate::backend::float::widened(widen, raw, plan.input, r.0),
        crate::backend::float::narrowed(narrow, r.1, plan.output, before, after),
        plan.linear ==> linear_value(plan.geom, r.0, locate, blend, t, r.1[t as int]),
        !plan.linear ==> nearest_value(plan.geom, r.0, nearest, t, r.1[t as int]),
{
    let (wide, done) = choose|wide: Seq<u32>, done: Seq<u32>|
        {
            &&& #[trigger] crate::backend::float::widened(widen, raw, plan.input, wide)
            &&& done.len() == plan.geom.output_count()
            &&& forall|t: int|
                0 <= t < done.len() ==> if plan.linear {
                    linear_value(plan.geom, wide, locate, blend, t as nat, #[trigger] done[t])
                } else {
                    nearest_value(plan.geom, wide, nearest, t as nat, done[t])
                }
            &&& #[trigger] crate::backend::float::narrowed(
                narrow,
                done,
                plan.output,
                before,
                after,
            )
        };
    assert(done[t as int] == done[t as int]);
    (wide, done)
}

} // verus!
