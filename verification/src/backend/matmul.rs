//! Matrix multiplication of half-precision matrices.
//!
//! Elements are bit patterns: 16 bits in memory, 32 bits while they are summed up. The
//! caller hands in the arithmetic; which elements meet, in what order, and where each
//! sum goes is decided here.

use crate::backend::call::CallContext;
use crate::uabi::desc::AiDtype;
use crate::uabi::error::BackendErr;
use crate::uabi::kernel::AiTargetHint;
use crate::uabi::kernelattr::MatMulAttr;
use vstd::prelude::*;

verus! {

/// The left matrix is stored with its axes swapped.
pub const MATMUL_LHS_TRANSPOSED: u32 = 1;

/// The right matrix is stored with its axes swapped.
pub const MATMUL_RHS_TRANSPOSED: u32 = 2;

/// Edge of a tile of the matrix unit.
pub const A100_FP16_TILE: usize = 8;

/// Where a product is computed.
#[derive(Clone, Copy, PartialEq, Eq, Structural, Debug)]
pub enum ProductPath {
    /// Element by element.
    Cpu,
    /// Tile by tile on the matrix unit.
    A100,
}

/// The path that a target asks for. The vector unit alone multiplies no matrices.
pub open spec fn product_path(target: AiTargetHint) -> Option<ProductPath> {
    if target.0 == AiTargetHint::PREFER_CPU {
        Some(ProductPath::Cpu)
    } else if target.0 == AiTargetHint::PREFER_A100 {
        Some(ProductPath::A100)
    } else {
        None
    }
}

/// The path that a target asks for.
pub fn choose_product_path(target: AiTargetHint) -> (r: Result<ProductPath, BackendErr>)
    ensures
        r == (match product_path(target) {
            Some(path) => Ok::<ProductPath, BackendErr>(path),
            None => Err(BackendErr::UnsupportedOp),
        }),
{
    if target.0 == AiTargetHint::PREFER_CPU {
        Ok(ProductPath::Cpu)
    } else if target.0 == AiTargetHint::PREFER_A100 {
        Ok(ProductPath::A100)
    } else {
        Err(BackendErr::UnsupportedOp)
    }
}

/// Number of matrices; zero stands for one.
pub open spec fn batch_count(attr: MatMulAttr) -> int {
    if attr.batch.0 == 0 {
        1
    } else {
        attr.batch.0 as int
    }
}

/// The left matrix is stored with its axes swapped.
pub open spec fn lhs_swapped(attr: MatMulAttr) -> bool {
    attr.flags.0 & MATMUL_LHS_TRANSPOSED != 0
}

/// The right matrix is stored with its axes swapped.
pub open spec fn rhs_swapped(attr: MatMulAttr) -> bool {
    attr.flags.0 & MATMUL_RHS_TRANSPOSED != 0
}

/// Place of an element in a batch of strided matrices.
pub open spec fn strided(
    batch: int,
    batch_stride: int,
    row: int,
    row_stride: int,
    col: int,
    col_stride: int,
) -> int {
    batch * batch_stride + row * row_stride + col * col_stride
}

/// Place of an element of the left matrix.
pub open spec fn lhs_place(attr: MatMulAttr, batch: int, row: int, depth: int) -> int {
    let (first, second) = if lhs_swapped(attr) {
        (depth, row)
    } else {
        (row, depth)
    };
    strided(
        batch,
        attr.lhs_batch_stride.0 as int,
        first,
        attr.lhs_row_stride.0 as int,
        second,
        attr.lhs_col_stride.0 as int,
    )
}

/// Place of an element of the right matrix.
pub open spec fn rhs_place(attr: MatMulAttr, batch: int, depth: int, col: int) -> int {
    let (first, second) = if rhs_swapped(attr) {
        (col, depth)
    } else {
        (depth, col)
    };
    strided(
        batch,
        attr.rhs_batch_stride.0 as int,
        first,
        attr.rhs_row_stride.0 as int,
        second,
        attr.rhs_col_stride.0 as int,
    )
}

/// Place of an element of the product.
pub open spec fn out_place(attr: MatMulAttr, batch: int, row: int, col: int) -> int {
    strided(
        batch,
        attr.out_batch_stride.0 as int,
        row,
        attr.out_row_stride.0 as int,
        col,
        attr.out_col_stride.0 as int,
    )
}

/// Every element of a batch of strided matrices lies below `len`.
pub open spec fn fits(
    len: int,
    batch: int,
    rows: int,
    cols: int,
    row_stride: int,
    col_stride: int,
    batch_stride: int,
) -> bool {
    batch == 0 || rows == 0 || cols == 0 || strided(
        batch - 1,
        batch_stride,
        rows - 1,
        row_stride,
        cols - 1,
        col_stride,
    ) < len
}

/// The left matrices lie within a buffer of the given length.
pub open spec fn lhs_fits(attr: MatMulAttr, len: int) -> bool {
    let m = attr.m.0 as int;
    let k = attr.k.0 as int;
    let (rows, cols) = if lhs_swapped(attr) {
        (k, m)
    } else {
        (m, k)
    };
    fits(
        len,
        batch_count(attr),
        rows,
        cols,
        attr.lhs_row_stride.0 as int,
        attr.lhs_col_stride.0 as int,
        attr.lhs_batch_stride.0 as int,
    )
}

/// The right matrices lie within a buffer of the given length.
pub open spec fn rhs_fits(attr: MatMulAttr, len: int) -> bool {
    let n = attr.n.0 as int;
    let k = attr.k.0 as int;
    let (rows, cols) = if rhs_swapped(attr) {
        (n, k)
    } else {
        (k, n)
    };
    fits(
        len,
        batch_count(attr),
        rows,
        cols,
        attr.rhs_row_stride.0 as int,
        attr.rhs_col_stride.0 as int,
        attr.rhs_batch_stride.0 as int,
    )
}

/// The products lie within a buffer of the given length.
pub open spec fn out_fits(attr: MatMulAttr, len: int) -> bool {
    fits(
        len,
        batch_count(attr),
        attr.m.0 as int,
        attr.n.0 as int,
        attr.out_row_stride.0 as int,
        attr.out_col_stride.0 as int,
        attr.out_batch_stride.0 as int,
    )
}

/// The three matrices lie within buffers of the given lengths.
pub open spec fn matmul_fits(attr: MatMulAttr, lhs_len: int, rhs_len: int, out_len: int) -> bool {
    &&& lhs_fits(attr, lhs_len)
    &&& rhs_fits(attr, rhs_len)
    &&& out_fits(attr, out_len)
}

/// Elements below the last one lie below it, and so does each part of their place.
proof fn strided_within(
    batch: int,
    batch_stride: int,
    row: int,
    row_stride: int,
    col: int,
    col_stride: int,
    batches: int,
    rows: int,
    cols: int,
)
    requires
        0 <= batch < batches,
        0 <= row < rows,
        0 <= col < cols,
        batch_stride >= 0,
        row_stride >= 0,
        col_stride >= 0,
    ensures
        0 <= batch * batch_stride,
        0 <= row * row_stride,
        0 <= col * col_stride,
        strided(batch, batch_stride, row, row_stride, col, col_stride) <= strided(
            batches - 1,
            batch_stride,
            rows - 1,
            row_stride,
            cols - 1,
            col_stride,
        ),
{
    assert(0 <= batch * batch_stride <= (batches - 1) * batch_stride) by (nonlinear_arith)
        requires
            0 <= batch <= batches - 1,
            batch_stride >= 0,
    ;
    assert(0 <= row * row_stride <= (rows - 1) * row_stride) by (nonlinear_arith)
        requires
            0 <= row <= rows - 1,
            row_stride >= 0,
    ;
    assert(0 <= col * col_stride <= (cols - 1) * col_stride) by (nonlinear_arith)
        requires
            0 <= col <= cols - 1,
            col_stride >= 0,
    ;
}

/// Whether every element of a batch of strided matrices lies below `len`.
pub fn region_fits(
    len: usize,
    batch: usize,
    rows: usize,
    cols: usize,
    row_stride: usize,
    col_stride: usize,
    batch_stride: usize,
) -> (r: bool)
    ensures
        r == fits(
            len as int,
            batch as int,
            rows as int,
            cols as int,
            row_stride as int,
            col_stride as int,
            batch_stride as int,
        ),
{
    if batch == 0 || rows == 0 || cols == 0 {
        return true;
    }
    proof {
        strided_within(
            batch - 1,
            batch_stride as int,
            rows - 1,
            row_stride as int,
            cols - 1,
            col_stride as int,
            batch as int,
            rows as int,
            cols as int,
        );
    }
    let first: usize = match (batch - 1).checked_mul(batch_stride) {
        Some(value) => value,
        None => {
            return false;
        },
    };
    let second: usize = match (rows - 1).checked_mul(row_stride) {
        Some(value) => value,
        None => {
            return false;
        },
    };
    let third: usize = match (cols - 1).checked_mul(col_stride) {
        Some(value) => value,
        None => {
            return false;
        },
    };
    match first.checked_add(second) {
        Some(value) => match value.checked_add(third) {
            Some(index) => index < len,
            None => false,
        },
        None => false,
    }
}

/// Number of matrices; zero stands for one.
fn normalized_batch(attr: &MatMulAttr) -> (r: usize)
    ensures
        r == batch_count(*attr),
{
    if attr.batch.0 == 0 {
        1
    } else {
        attr.batch.0 as usize
    }
}

/// Checks that the three matrices lie within buffers of the given lengths.
pub fn validate_bounds(attr: &MatMulAttr, lhs_len: usize, rhs_len: usize, out_len: usize) -> (r:
    Result<(), BackendErr>)
    ensures
        r == (if matmul_fits(*attr, lhs_len as int, rhs_len as int, out_len as int) {
            Ok::<(), BackendErr>(())
        } else {
            Err(BackendErr::InvalidTensor)
        }),
{
    let batch: usize = normalized_batch(attr);
    let m: usize = attr.m.0 as usize;
    let n: usize = attr.n.0 as usize;
    let k: usize = attr.k.0 as usize;
    let lhs_swap: bool = attr.flags.0 & MATMUL_LHS_TRANSPOSED != 0;
    let rhs_swap: bool = attr.flags.0 & MATMUL_RHS_TRANSPOSED != 0;
    let lhs_rows: usize = if lhs_swap {
        k
    } else {
        m
    };
    let lhs_cols: usize = if lhs_swap {
        m
    } else {
        k
    };
    let rhs_rows: usize = if rhs_swap {
        n
    } else {
        k
    };
    let rhs_cols: usize = if rhs_swap {
        k
    } else {
        n
    };
    if region_fits(
        lhs_len,
        batch,
        lhs_rows,
        lhs_cols,
        attr.lhs_row_stride.0 as usize,
        attr.lhs_col_stride.0 as usize,
        attr.lhs_batch_stride.0 as usize,
    ) && region_fits(
        rhs_len,
        batch,
        rhs_rows,
        rhs_cols,
        attr.rhs_row_stride.0 as usize,
        attr.rhs_col_stride.0 as usize,
        attr.rhs_batch_stride.0 as usize,
    ) && region_fits(
        out_len,
        batch,
        m,
        n,
        attr.out_row_stride.0 as usize,
        attr.out_col_stride.0 as usize,
        attr.out_batch_stride.0 as usize,
    ) {
        Ok(())
    } else {
        Err(BackendErr::InvalidTensor)
    }
}

/// A checked call: the attribute, the path, and the lengths of the buffers in elements.
#[derive(Clone, Copy, Debug)]
pub struct MatMulPlan {
    /// Extents, strides and flags.
    pub attr: MatMulAttr,
    /// Where to compute.
    pub path: ProductPath,
    /// Elements of the left buffer.
    pub lhs_len: usize,
    /// Elements of the right buffer.
    pub rhs_len: usize,
    /// Elements of the output buffer.
    pub out_len: usize,
}

/// What checking a call gives.
pub open spec fn matmul_plan(ctx: CallContext) -> Result<MatMulPlan, BackendErr> {
    if ctx.inputs@.len() != 2 || ctx.outputs@.len() != 1 {
        Err(BackendErr::InvalidInput)
    } else if ctx.inputs[0].dtype.0 != AiDtype::F16 || ctx.inputs[1].dtype.0 != AiDtype::F16
        || ctx.outputs[0].dtype.0 != AiDtype::F16 {
        Err(BackendErr::UnsupportedDtype)
    } else {
        match ctx.attr_as::<MatMulAttr>() {
            None => Err(BackendErr::InvalidAttr),
            Some(attr) => if attr.accum_dtype.0 != AiDtype::F32 {
                Err(BackendErr::UnsupportedDtype)
            } else {
                match (
                    crate::backend::meta::typed_count(ctx.inputs[0], 2, 2),
                    crate::backend::meta::typed_count(ctx.inputs[1], 2, 2),
                    crate::backend::meta::typed_count(ctx.outputs[0], 2, 2),
                ) {
                    (Some(lhs_len), Some(rhs_len), Some(out_len)) => if !matmul_fits(
                        attr,
                        lhs_len as int,
                        rhs_len as int,
                        out_len as int,
                    ) {
                        Err(BackendErr::InvalidTensor)
                    } else {
                        match product_path(ctx.target) {
                            Some(path) => Ok(
                                MatMulPlan { attr, path, lhs_len, rhs_len, out_len },
                            ),
                            None => Err(BackendErr::UnsupportedOp),
                        }
                    },
                    _ => Err(BackendErr::InvalidTensor),
                }
            },
        }
    }
}

/// Checks a call of the matrix multiplication.
pub fn check_matmul(ctx: &CallContext) -> (r: Result<MatMulPlan, BackendErr>)
    requires
        ctx.wf(),
    ensures
        r == matmul_plan(*ctx),
{
    ctx.expect_io(2, 1)?;
    if ctx.inputs[0].dtype.0 != AiDtype::F16 || ctx.inputs[1].dtype.0 != AiDtype::F16
        || ctx.outputs[0].dtype.0 != AiDtype::F16 {
        return Err(BackendErr::UnsupportedDtype);
    }
    let attr: MatMulAttr = ctx.read_attr::<MatMulAttr>()?;
    if attr.accum_dtype.0 != AiDtype::F32 {
        return Err(BackendErr::UnsupportedDtype);
    }
    let lhs_len: usize = ctx.inputs[0].typed_len(2, 2)?;
    let rhs_len: usize = ctx.inputs[1].typed_len(2, 2)?;
    let out_len: usize = ctx.outputs[0].typed_len(2, 2)?;
    validate_bounds(&attr, lhs_len, rhs_len, out_len)?;
    let path: ProductPath = choose_product_path(ctx.target)?;
    Ok(MatMulPlan { attr, path, lhs_len, rhs_len, out_len })
}

/// `sum` comes out when the products of the pairs are added to `start` one by one, in
/// order.
pub open spec fn summed<F: Fn(u32, u16, u16) -> u32>(
    mul_add: F,
    start: u32,
    pairs: Seq<(u16, u16)>,
    sum: u32,
) -> bool
    decreases pairs.len(),
{
    if pairs.len() == 0 {
        sum == start
    } else {
        exists|part: u32|
            summed(mul_add, start, pairs.drop_last(), part) && #[trigger] mul_add.ensures(
                (part, pairs.last().0, pairs.last().1),
                sum,
            )
    }
}

/// Adding one more product.
pub proof fn summed_push<F: Fn(u32, u16, u16) -> u32>(
    mul_add: F,
    start: u32,
    pairs: Seq<(u16, u16)>,
    part: u32,
    pair: (u16, u16),
    sum: u32,
)
    requires
        summed(mul_add, start, pairs, part),
        mul_add.ensures((part, pair.0, pair.1), sum),
    ensures
        summed(mul_add, start, pairs.push(pair), sum),
{
    let longer = pairs.push(pair);
    assert(longer.drop_last() =~= pairs);
    assert(longer.last() == pair);
}

/// The pairs that meet in one element of the product, for the first `n` steps.
pub open spec fn pairs(
    attr: MatMulAttr,
    lhs: Seq<u16>,
    rhs: Seq<u16>,
    batch: int,
    row: int,
    col: int,
    n: int,
) -> Seq<(u16, u16)> {
    Seq::new(
        n as nat,
        |depth: int|
            (lhs[lhs_place(attr, batch, row, depth)], rhs[rhs_place(attr, batch, depth, col)]),
    )
}

/// An element of the product exists.
pub open spec fn in_product(attr: MatMulAttr, batch: int, row: int, col: int) -> bool {
    0 <= batch < batch_count(attr) && 0 <= row < attr.m.0 && 0 <= col < attr.n.0
}

/// A left tile: rows of the left matrix, padded with zeros.
pub open spec fn lhs_tile(
    attr: MatMulAttr,
    lhs: Seq<u16>,
    batch: int,
    row: int,
    depth: int,
) -> Seq<u16> {
    Seq::new(
        64,
        |i: int|
            if row + i / 8 < attr.m.0 && depth + i % 8 < attr.k.0 {
                lhs[lhs_place(attr, batch, row + i / 8, depth + i % 8)]
            } else {
                0u16
            },
    )
}

/// A right tile: columns of the right matrix, padded with zeros.
pub open spec fn rhs_tile(
    attr: MatMulAttr,
    rhs: Seq<u16>,
    batch: int,
    col: int,
    depth: int,
) -> Seq<u16> {
    Seq::new(
        64,
        |i: int|
            if col + i / 8 < attr.n.0 && depth + i % 8 < attr.k.0 {
                rhs[rhs_place(attr, batch, depth + i % 8, col + i / 8)]
            } else {
                0u16
            },
    )
}

/// `part` is what the product of two tiles has for an element.
pub open spec fn tile_part<T: Fn([u16; 64], [u16; 64]) -> [u32; 64]>(
    tile_product: T,
    lhs: Seq<u16>,
    rhs: Seq<u16>,
    index: int,
    part: u32,
) -> bool {
    exists|l: [u16; 64], r: [u16; 64], p: [u32; 64]| #[trigger]
        tile_product.ensures((l, r), p) && l@ == lhs && r@ == rhs && p[index] == part
}

/// `sum` comes out when the parts of the first `n` tiles along the reduced axis are
/// added up, starting from zero.
pub open spec fn tile_summed<
    T: Fn([u16; 64], [u16; 64]) -> [u32; 64],
    A: Fn(u32, u32) -> u32,
>(
    tile_product: T,
    add_parts: A,
    attr: MatMulAttr,
    lhs: Seq<u16>,
    rhs: Seq<u16>,
    batch: int,
    row: int,
    col: int,
    n: int,
    sum: u32,
) -> bool
    decreases n,
{
    if n <= 0 {
        sum == 0
    } else {
        exists|before: u32, part: u32|
            tile_summed(
                tile_product,
                add_parts,
                attr,
                lhs,
                rhs,
                batch,
                row,
                col,
                n - 1,
                before,
            ) && tile_part(
                tile_product,
                lhs_tile(attr, lhs, batch, row - row % 8, 8 * (n - 1)),
                rhs_tile(attr, rhs, batch, col - col % 8, 8 * (n - 1)),
                (row % 8) * 8 + col % 8,
                part,
            ) && #[trigger] add_parts.ensures((before, part), sum)
    }
}

/// Number of tiles that cover an extent.
pub open spec fn tile_count(extent: int) -> int {
    extent / 8 + if extent % 8 > 0 {
        1int
    } else {
        0int
    }
}

/// When an element is written: batch first, then tile, then place within the tile.
pub struct Turn {
    /// Batch.
    pub batch: int,
    /// Row, or row of the tile.
    pub row: int,
    /// Column, or column of the tile.
    pub col: int,
    /// Row within the tile.
    pub inner_row: int,
    /// Column within the tile.
    pub inner_col: int,
}

/// When an element is written.
pub open spec fn turn(path: ProductPath, batch: int, row: int, col: int) -> Turn {
    match path {
        ProductPath::Cpu => Turn { batch, row, col, inner_row: 0, inner_col: 0 },
        ProductPath::A100 => Turn {
            batch,
            row: row / 8,
            col: col / 8,
            inner_row: row % 8,
            inner_col: col % 8,
        },
    }
}

/// One turn comes before another.
pub open spec fn earlier(a: Turn, b: Turn) -> bool {
    a.batch < b.batch || (a.batch == b.batch && (a.row < b.row || (a.row == b.row && (a.col < b.col
        || (a.col == b.col && (a.inner_row < b.inner_row || (a.inner_row == b.inner_row
        && a.inner_col < b.inner_col)))))))
}

/// An element was written before `now`.
pub open spec fn written(
    path: ProductPath,
    attr: MatMulAttr,
    now: Turn,
    batch: int,
    row: int,
    col: int,
) -> bool {
    in_product(attr, batch, row, col) && earlier(turn(path, batch, row, col), now)
}

/// No element written later, but before `now`, went to the same place.
pub open spec fn lasting(
    path: ProductPath,
    attr: MatMulAttr,
    now: Turn,
    batch: int,
    row: int,
    col: int,
) -> bool {
    forall|b: int, i: int, j: int| #[trigger]
        written(path, attr, now, b, i, j) && earlier(
            turn(path, batch, row, col),
            turn(path, b, i, j),
        ) ==> out_place(attr, b, i, j) != out_place(attr, batch, row, col)
}

/// Some element written before `now` went to place `p`.
pub open spec fn touched(path: ProductPath, attr: MatMulAttr, now: Turn, p: int) -> bool {
    exists|b: int, i: int, j: int| #[trigger]
        written(path, attr, now, b, i, j) && out_place(attr, b, i, j) == p
}

/// The turn after the last element.
pub open spec fn last_turn(attr: MatMulAttr) -> Turn {
    Turn { batch: batch_count(attr), row: 0, col: 0, inner_row: 0, inner_col: 0 }
}

/// The elements written before `now` hold what belongs there, and nothing else changed.
pub open spec fn product_state(
    path: ProductPath,
    attr: MatMulAttr,
    holds: spec_fn(int, int, int, u16) -> bool,
    now: Turn,
    before: Seq<u16>,
    output: Seq<u16>,
) -> bool {
    &&& output.len() == before.len()
    &&& forall|b: int, i: int, j: int| #[trigger]
        written(path, attr, now, b, i, j) && lasting(path, attr, now, b, i, j) ==> holds(
            b,
            i,
            j,
            output[out_place(attr, b, i, j)],
        )
    &&& forall|p: int|
        0 <= p < output.len() && !touched(path, attr, now, p) ==> #[trigger] output[p] == before[p]
}

/// What the element-by-element path puts in an element.
pub open spec fn cpu_holds<F: Fn(u32, u16, u16) -> u32, N: Fn(u32) -> u16>(
    mul_add: F,
    narrow: N,
    attr: MatMulAttr,
    lhs: Seq<u16>,
    rhs: Seq<u16>,
) -> spec_fn(int, int, int, u16) -> bool {
    |b: int, i: int, j: int, value: u16|
        exists|sum: u32| #[trigger]
            summed(mul_add, 0, pairs(attr, lhs, rhs, b, i, j, attr.k.0 as int), sum)
                && narrow.ensures((sum,), value)
}

/// What the tile path puts in an element.
pub open spec fn a100_holds<
    T: Fn([u16; 64], [u16; 64]) -> [u32; 64],
    A: Fn(u32, u32) -> u32,
    N: Fn(u32) -> u16,
>(
    tile_product: T,
    add_parts: A,
    narrow: N,
    attr: MatMulAttr,
    lhs: Seq<u16>,
    rhs: Seq<u16>,
) -> spec_fn(int, int, int, u16) -> bool {
    |b: int, i: int, j: int, value: u16|
        exists|sum: u32| #[trigger]
            tile_summed(
                tile_product,
                add_parts,
                attr,
                lhs,
                rhs,
                b,
                i,
                j,
                tile_count(attr.k.0 as int),
                sum,
            ) && narrow.ensures((sum,), value)
}

/// Writing the element whose turn it is.
proof fn write_element(
    path: ProductPath,
    attr: MatMulAttr,
    holds: spec_fn(int, int, int, u16) -> bool,
    now: Turn,
    next: Turn,
    before: Seq<u16>,
    output: Seq<u16>,
    batch: int,
    row: int,
    col: int,
    value: u16,
)
    requires
        product_state(path, attr, holds, now, before, output),
        in_product(attr, batch, row, col),
        0 <= out_place(attr, batch, row, col) < output.len(),
        forall|b: int, i: int, j: int|
            in_product(attr, b, i, j) ==> 0 <= #[trigger] out_place(attr, b, i, j) < output.len(),
        turn(path, batch, row, col) == now,
        forall|b: int, i: int, j: int|
            in_product(attr, b, i, j) ==> (#[trigger] earlier(turn(path, b, i, j), next) <==> (
            earlier(turn(path, b, i, j), now) || (b == batch && i == row && j == col))),
        holds(batch, row, col, value),
    ensures
        product_state(
            path,
            attr,
            holds,
            next,
            before,
            output.update(out_place(attr, batch, row, col), value),
        ),
{
    let place = out_place(attr, batch, row, col);
    let after = output.update(place, value);
    assert(earlier(turn(path, batch, row, col), next));
    assert(written(path, attr, next, batch, row, col));
    assert forall|b: int, i: int, j: int| #[trigger]
        written(path, attr, next, b, i, j) && lasting(path, attr, next, b, i, j) implies holds(
        b,
        i,
        j,
        after[out_place(attr, b, i, j)],
    ) by {
        if b == batch && i == row && j == col {
        } else {
            assert(earlier(turn(path, b, i, j), next));
            assert(written(path, attr, now, b, i, j));
            assert(out_place(attr, b, i, j) != place);
            assert forall|b2: int, i2: int, j2: int| #[trigger]
                written(path, attr, now, b2, i2, j2) && earlier(
                    turn(path, b, i, j),
                    turn(path, b2, i2, j2),
                ) implies out_place(attr, b2, i2, j2) != out_place(attr, b, i, j) by {
                assert(earlier(turn(path, b2, i2, j2), next));
                assert(written(path, attr, next, b2, i2, j2));
            }
            assert(lasting(path, attr, now, b, i, j));
        }
    }
    assert forall|p: int|
        0 <= p < after.len() && !touched(path, attr, next, p) implies #[trigger] after[p]
        == before[p] by {
        assert(p != place);
        if touched(path, attr, now, p) {
            let (b, i, j) = choose|b: int, i: int, j: int| #[trigger]
                written(path, attr, now, b, i, j) && out_place(attr, b, i, j) == p;
            assert(earlier(turn(path, b, i, j), next));
            assert(written(path, attr, next, b, i, j));
        }
        assert(output[p] == before[p]);
    }
}

/// Passing over turns at which nothing is written.
proof fn skip_turns(
    path: ProductPath,
    attr: MatMulAttr,
    holds: spec_fn(int, int, int, u16) -> bool,
    now: Turn,
    next: Turn,
    before: Seq<u16>,
    output: Seq<u16>,
)
    requires
        product_state(path, attr, holds, now, before, output),
        forall|b: int, i: int, j: int|
            in_product(attr, b, i, j) ==> (#[trigger] earlier(turn(path, b, i, j), next)
                <==> earlier(turn(path, b, i, j), now)),
    ensures
        product_state(path, attr, holds, next, before, output),
{
    assert forall|b: int, i: int, j: int| #[trigger]
        written(path, attr, next, b, i, j) && lasting(path, attr, next, b, i, j) implies holds(
        b,
        i,
        j,
        output[out_place(attr, b, i, j)],
    ) by {
        assert(earlier(turn(path, b, i, j), next));
        assert(written(path, attr, now, b, i, j));
        assert forall|b2: int, i2: int, j2: int| #[trigger]
            written(path, attr, now, b2, i2, j2) && earlier(
                turn(path, b, i, j),
                turn(path, b2, i2, j2),
            ) implies out_place(attr, b2, i2, j2) != out_place(attr, b, i, j) by {
            assert(earlier(turn(path, b2, i2, j2), next));
            assert(written(path, attr, next, b2, i2, j2));
        }
        assert(lasting(path, attr, now, b, i, j));
    }
    assert forall|p: int|
        0 <= p < output.len() && !touched(path, attr, next, p) implies #[trigger] output[p]
        == before[p] by {
        if touched(path, attr, now, p) {
            let (b, i, j) = choose|b: int, i: int, j: int| #[trigger]
                written(path, attr, now, b, i, j) && out_place(attr, b, i, j) == p;
            assert(earlier(turn(path, b, i, j), next));
            assert(written(path, attr, next, b, i, j));
        }
    }
}

/// Every element of the product lies within the output.
proof fn out_within(attr: MatMulAttr, len: int)
    requires
        out_fits(attr, len),
    ensures
        forall|b: int, i: int, j: int|
            in_product(attr, b, i, j) ==> 0 <= #[trigger] out_place(attr, b, i, j) < len,
{
    assert forall|b: int, i: int, j: int| in_product(attr, b, i, j) implies 0
        <= #[trigger] out_place(attr, b, i, j) < len by {
        strided_within(
            b,
            attr.out_batch_stride.0 as int,
            i,
            attr.out_row_stride.0 as int,
            j,
            attr.out_col_stride.0 as int,
            batch_count(attr),
            attr.m.0 as int,
            attr.n.0 as int,
        );
    }
}

/// Place of an element in a batch of strided matrices that lie below `len`.
fn strided_index(
    batch: usize,
    batch_stride: u32,
    row: usize,
    row_stride: u32,
    col: usize,
    col_stride: u32,
    len: usize,
    Ghost(batches): Ghost<int>,
    Ghost(rows): Ghost<int>,
    Ghost(cols): Ghost<int>,
) -> (r: usize)
    requires
        batch < batches,
        row < rows,
        col < cols,
        fits(
            len as int,
            batches,
            rows,
            cols,
            row_stride as int,
            col_stride as int,
            batch_stride as int,
        ),
    ensures
        r == strided(
            batch as int,
            batch_stride as int,
            row as int,
            row_stride as int,
            col as int,
            col_stride as int,
        ),
        r < len,
{
    proof {
        strided_within(
            batch as int,
            batch_stride as int,
            row as int,
            row_stride as int,
            col as int,
            col_stride as int,
            batches,
            rows,
            cols,
        );
    }
    batch * (batch_stride as usize) + row * (row_stride as usize) + col * (col_stride as usize)
}

/// Place of an element of the left matrix.
fn lhs_index(attr: &MatMulAttr, batch: usize, row: usize, depth: usize, len: usize) -> (r: usize)
    requires
        lhs_fits(*attr, len as int),
        batch < batch_count(*attr),
        row < attr.m.0,
        depth < attr.k.0,
    ensures
        r == lhs_place(*attr, batch as int, row as int, depth as int),
        r < len,
{
    let ghost batches = batch_count(*attr);
    if attr.flags.0 & MATMUL_LHS_TRANSPOSED != 0 {
        strided_index(
            batch,
            attr.lhs_batch_stride.0,
            depth,
            attr.lhs_row_stride.0,
            row,
            attr.lhs_col_stride.0,
            len,
            Ghost(batches),
            Ghost(attr.k.0 as int),
            Ghost(attr.m.0 as int),
        )
    } else {
        strided_index(
            batch,
            attr.lhs_batch_stride.0,
            row,
            attr.lhs_row_stride.0,
            depth,
            attr.lhs_col_stride.0,
            len,
            Ghost(batches),
            Ghost(attr.m.0 as int),
            Ghost(attr.k.0 as int),
        )
    }
}

/// Place of an element of the right matrix.
fn rhs_index(attr: &MatMulAttr, batch: usize, depth: usize, col: usize, len: usize) -> (r: usize)
    requires
        rhs_fits(*attr, len as int),
        batch < batch_count(*attr),
        depth < attr.k.0,
        col < attr.n.0,
    ensures
        r == rhs_place(*attr, batch as int, depth as int, col as int),
        r < len,
{
    let ghost batches = batch_count(*attr);
    if attr.flags.0 & MATMUL_RHS_TRANSPOSED != 0 {
        strided_index(
            batch,
            attr.rhs_batch_stride.0,
            col,
            attr.rhs_row_stride.0,
            depth,
            attr.rhs_col_stride.0,
            len,
            Ghost(batches),
            Ghost(attr.n.0 as int),
            Ghost(attr.k.0 as int),
        )
    } else {
        strided_index(
            batch,
            attr.rhs_batch_stride.0,
            depth,
            attr.rhs_row_stride.0,
            col,
            attr.rhs_col_stride.0,
            len,
            Ghost(batches),
            Ghost(attr.k.0 as int),
            Ghost(attr.n.0 as int),
        )
    }
}

/// Place of an element of the product.
fn out_index(attr: &MatMulAttr, batch: usize, row: usize, col: usize, len: usize) -> (r: usize)
    requires
        out_fits(*attr, len as int),
        batch < batch_count(*attr),
        row < attr.m.0,
        col < attr.n.0,
    ensures
        r == out_place(*attr, batch as int, row as int, col as int),
        r < len,
{
    strided_index(
        batch,
        attr.out_batch_stride.0,
        row,
        attr.out_row_stride.0,
        col,
        attr.out_col_stride.0,
        len,
        Ghost(batch_count(*attr)),
        Ghost(attr.m.0 as int),
        Ghost(attr.n.0 as int),
    )
}

/// Sums up one element of the product.
fn dot<F: Fn(u32, u16, u16) -> u32>(
    attr: &MatMulAttr,
    lhs: &[u16],
    rhs: &[u16],
    batch: usize,
    row: usize,
    col: usize,
    mul_add: &F,
) -> (sum: u32)
    requires
        lhs_fits(*attr, lhs@.len() as int),
        rhs_fits(*attr, rhs@.len() as int),
        in_product(*attr, batch as int, row as int, col as int),
        forall|acc: u32, a: u16, b: u16| #[trigger] mul_add.requires((acc, a, b)),
    ensures
        summed(
            *mul_add,
            0,
            pairs(*attr, lhs@, rhs@, batch as int, row as int, col as int, attr.k.0 as int),
            sum,
        ),
{
    let k: usize = attr.k.0 as usize;
    let mut sum: u32 = 0;
    let mut depth: usize = 0;
    while depth < k
        invariant
            depth <= k,
            k == attr.k.0,
            lhs_fits(*attr, lhs@.len() as int),
            rhs_fits(*attr, rhs@.len() as int),
            in_product(*attr, batch as int, row as int, col as int),
            forall|acc: u32, a: u16, b: u16| #[trigger] mul_add.requires((acc, a, b)),
            summed(
                *mul_add,
                0,
                pairs(*attr, lhs@, rhs@, batch as int, row as int, col as int, depth as int),
                sum,
            ),
        decreases k - depth,
    {
        let a: u16 = lhs[lhs_index(attr, batch, row, depth, lhs.len())];
        let b: u16 = rhs[rhs_index(attr, batch, depth, col, rhs.len())];
        let ghost part = sum;
        sum = mul_add(sum, a, b);
        proof {
            let so_far = pairs(
                *attr,
                lhs@,
                rhs@,
                batch as int,
                row as int,
                col as int,
                depth as int,
            );
            summed_push(*mul_add, 0, so_far, part, (a, b), sum);
            assert(so_far.push((a, b)) =~= pairs(
                *attr,
                lhs@,
                rhs@,
                batch as int,
                row as int,
                col as int,
                depth + 1,
            ));
        }
        depth = depth + 1;
    }
    sum
}

/// Multiplies element by element: the sum of each element is kept in 32 bits and
/// narrowed once.
pub fn compute_f16_cpu<F: Fn(u32, u16, u16) -> u32, N: Fn(u32) -> u16>(
    attr: &MatMulAttr,
    lhs: &[u16],
    rhs: &[u16],
    output: &mut [u16],
    mul_add: &F,
    narrow: &N,
)
    requires
        matmul_fits(*attr, lhs@.len() as int, rhs@.len() as int, old(output)@.len() as int),
        forall|acc: u32, a: u16, b: u16| #[trigger] mul_add.requires((acc, a, b)),
        forall|value: u32| #[trigger] narrow.requires((value,)),
    ensures
        product_state(
            ProductPath::Cpu,
            *attr,
            cpu_holds(*mul_add, *narrow, *attr, lhs@, rhs@),
            last_turn(*attr),
            old(output)@,
            final(output)@,
        ),
{
    let batches: usize = normalized_batch(attr);
    let m: usize = attr.m.0 as usize;
    let n: usize = attr.n.0 as usize;
    let ghost path = ProductPath::Cpu;
    let ghost holds = cpu_holds(*mul_add, *narrow, *attr, lhs@, rhs@);
    let ghost before = output@;
    proof {
        out_within(*attr, before.len() as int);
    }
    let mut batch: usize = 0;
    while batch < batches
        invariant
            batch <= batches,
            batches == batch_count(*attr),
            m == attr.m.0,
            n == attr.n.0,
            path == ProductPath::Cpu,
            holds == cpu_holds(*mul_add, *narrow, *attr, lhs@, rhs@),
            output@.len() == before.len(),
            matmul_fits(*attr, lhs@.len() as int, rhs@.len() as int, before.len() as int),
            forall|b: int, i: int, j: int|
                in_product(*attr, b, i, j) ==> 0 <= #[trigger] out_place(*attr, b, i, j)
                    < before.len(),
            forall|acc: u32, a: u16, b: u16| #[trigger] mul_add.requires((acc, a, b)),
            forall|value: u32| #[trigger] narrow.requires((value,)),
            product_state(path, *attr, holds, turn(path, batch as int, 0, 0), before, output@),
        decreases batches - batch,
    {
        let mut row: usize = 0;
        while row < m
            invariant
                batch < batches,
                batches == batch_count(*attr),
                row <= m,
                m == attr.m.0,
                n == attr.n.0,
                path == ProductPath::Cpu,
                holds == cpu_holds(*mul_add, *narrow, *attr, lhs@, rhs@),
                output@.len() == before.len(),
                matmul_fits(*attr, lhs@.len() as int, rhs@.len() as int, before.len() as int),
                forall|b: int, i: int, j: int|
                    in_product(*attr, b, i, j) ==> 0 <= #[trigger] out_place(*attr, b, i, j)
                        < before.len(),
                forall|acc: u32, a: u16, b: u16| #[trigger] mul_add.requires((acc, a, b)),
                forall|value: u32| #[trigger] narrow.requires((value,)),
                product_state(
                    path,
                    *attr,
                    holds,
                    turn(path, batch as int, row as int, 0),
                    before,
                    output@,
                ),
            decreases m - row,
        {
            let mut col: usize = 0;
            while col < n
                invariant
                    batch < batches,
                    batches == batch_count(*attr),
                    row < m,
                    m == attr.m.0,
                    col <= n,
                    n == attr.n.0,
                    path == ProductPath::Cpu,
                    holds == cpu_holds(*mul_add, *narrow, *attr, lhs@, rhs@),
                    output@.len() == before.len(),
                    matmul_fits(*attr, lhs@.len() as int, rhs@.len() as int, before.len() as int),
                    forall|b: int, i: int, j: int|
                        in_product(*attr, b, i, j) ==> 0 <= #[trigger] out_place(*attr, b, i, j)
                            < before.len(),
                    forall|acc: u32, a: u16, b: u16| #[trigger] mul_add.requires((acc, a, b)),
                    forall|value: u32| #[trigger] narrow.requires((value,)),
                    product_state(
                        path,
                        *attr,
                        holds,
                        turn(path, batch as int, row as int, col as int),
                        before,
                        output@,
                    ),
                decreases n - col,
            {
                let sum: u32 = dot(attr, lhs, rhs, batch, row, col, mul_add);
                let value: u16 = narrow(sum);
                let index: usize = out_index(attr, batch, row, col, output.len());
                proof {
                    write_element(
                        path,
                        *attr,
                        holds,
                        turn(path, batch as int, row as int, col as int),
                        turn(path, batch as int, row as int, col + 1),
                        before,
                        output@,
                        batch as int,
                        row as int,
                        col as int,
                        value,
                    );
                }
                output[index] = value;
                col = col + 1;
            }
            proof {
                skip_turns(
                    path,
                    *attr,
                    holds,
                    turn(path, batch as int, row as int, n as int),
                    turn(path, batch as int, row + 1, 0),
                    before,
                    output@,
                );
            }
            row = row + 1;
        }
        proof {
            skip_turns(
                path,
                *attr,
                holds,
                turn(path, batch as int, m as int, 0),
                turn(path, batch + 1, 0, 0),
                before,
                output@,
            );
        }
        batch = batch + 1;
    }
}

/// Multiplies two tiles element by element: rows of the left tile with rows of the right
/// one.
pub fn vfwmadot_tile<F: Fn(u32, u16, u16) -> u32>(
    lhs_tile: &[u16; 64],
    rhs_tile: &[u16; 64],
    mul_add: F,
) -> (r: [u32; 64])
    requires
        forall|acc: u32, a: u16, b: u16| #[trigger] mul_add.requires((acc, a, b)),
    ensures
        forall|i: int|
            0 <= i < 64 ==> summed(
                mul_add,
                0,
                tile_pairs(lhs_tile@, rhs_tile@, i, 8),
                #[trigger] r[i],
            ),
{
    let mut output: [u32; 64] = [0; 64];
    let mut index: usize = 0;
    while index < 64
        invariant
            index <= 64,
            forall|acc: u32, a: u16, b: u16| #[trigger] mul_add.requires((acc, a, b)),
            forall|i: int|
                0 <= i < index ==> summed(
                    mul_add,
                    0,
                    tile_pairs(lhs_tile@, rhs_tile@, i, 8),
                    #[trigger] output[i],
                ),
        decreases 64 - index,
    {
        let mut sum: u32 = 0;
        let mut depth: usize = 0;
        while depth < 8
            invariant
                index < 64,
                depth <= 8,
                forall|acc: u32, a: u16, b: u16| #[trigger] mul_add.requires((acc, a, b)),
                summed(
                    mul_add,
                    0,
                    tile_pairs(lhs_tile@, rhs_tile@, index as int, depth as int),
                    sum,
                ),
            decreases 8 - depth,
        {
            let a: u16 = lhs_tile[(index / 8) * 8 + depth];
            let b: u16 = rhs_tile[(index % 8) * 8 + depth];
            let ghost part = sum;
            sum = mul_add(sum, a, b);
            proof {
                let so_far = tile_pairs(lhs_tile@, rhs_tile@, index as int, depth as int);
                summed_push(mul_add, 0, so_far, part, (a, b), sum);
                assert(so_far.push((a, b)) =~= tile_pairs(
                    lhs_tile@,
                    rhs_tile@,
                    index as int,
                    depth + 1,
                ));
            }
            depth = depth + 1;
        }
        output[index] = sum;
        index = index + 1;
    }
    output
}

/// The pairs that meet in element `index` of the product of two tiles, for the first `n`
/// steps.
pub open spec fn tile_pairs(lhs: Seq<u16>, rhs: Seq<u16>, index: int, n: int) -> Seq<
    (u16, u16),
> {
    Seq::new(
        n as nat,
        |depth: int| (lhs[(index / 8) * 8 + depth], rhs[(index % 8) * 8 + depth]),
    )
}

/// Packs a tile of the left matrix.
fn pack_lhs_tile(
    attr: &MatMulAttr,
    lhs: &[u16],
    batch: usize,
    row: usize,
    depth: usize,
) -> (r: [u16; 64])
    requires
        lhs_fits(*attr, lhs@.len() as int),
        batch < batch_count(*attr),
        row < attr.m.0,
        depth < attr.k.0,
    ensures
        r@ == lhs_tile(*attr, lhs@, batch as int, row as int, depth as int),
{
    let rows_left: usize = attr.m.0 as usize - row;
    let steps_left: usize = attr.k.0 as usize - depth;
    let mut tile: [u16; 64] = [0; 64];
    let mut i: usize = 0;
    while i < 64
        invariant
            i <= 64,
            lhs_fits(*attr, lhs@.len() as int),
            batch < batch_count(*attr),
            row < attr.m.0,
            depth < attr.k.0,
            rows_left == attr.m.0 - row,
            steps_left == attr.k.0 - depth,
            forall|t: int|
                0 <= t < i ==> #[trigger] tile[t] == lhs_tile(
                    *attr,
                    lhs@,
                    batch as int,
                    row as int,
                    depth as int,
                )[t],
            forall|t: int| i <= t < 64 ==> #[trigger] tile[t] == 0,
        decreases 64 - i,
    {
        if i / 8 < rows_left && i % 8 < steps_left {
            tile[i] = lhs[lhs_index(attr, batch, row + i / 8, depth + i % 8, lhs.len())];
        }
        i = i + 1;
    }
    assert(tile@ =~= lhs_tile(*attr, lhs@, batch as int, row as int, depth as int));
    tile
}

/// Packs a tile of the right matrix.
fn pack_rhs_tile(
    attr: &MatMulAttr,
    rhs: &[u16],
    batch: usize,
    col: usize,
    depth: usize,
) -> (r: [u16; 64])
    requires
        rhs_fits(*attr, rhs@.len() as int),
        batch < batch_count(*attr),
        col < attr.n.0,
        depth < attr.k.0,
    ensures
        r@ == rhs_tile(*attr, rhs@, batch as int, col as int, depth as int),
{
    let cols_left: usize = attr.n.0 as usize - col;
    let steps_left: usize = attr.k.0 as usize - depth;
    let mut tile: [u16; 64] = [0; 64];
    let mut i: usize = 0;
    while i < 64
        invariant
            i <= 64,
            rhs_fits(*attr, rhs@.len() as int),
            batch < batch_count(*attr),
            col < attr.n.0,
            depth < attr.k.0,
            cols_left == attr.n.0 - col,
            steps_left == attr.k.0 - depth,
            forall|t: int|
                0 <= t < i ==> #[trigger] tile[t] == rhs_tile(
                    *attr,
                    rhs@,
                    batch as int,
                    col as int,
                    depth as int,
                )[t],
            forall|t: int| i <= t < 64 ==> #[trigger] tile[t] == 0,
        decreases 64 - i,
    {
        if i / 8 < cols_left && i % 8 < steps_left {
            tile[i] = rhs[rhs_index(attr, batch, depth + i % 8, col + i / 8, rhs.len())];
        }
        i = i + 1;
    }
    assert(tile@ =~= rhs_tile(*attr, rhs@, batch as int, col as int, depth as int));
    tile
}

/// Sums up the elements of the product that fall in one tile.
fn tile_sums<T: Fn([u16; 64], [u16; 64]) -> [u32; 64], A: Fn(u32, u32) -> u32>(
    attr: &MatMulAttr,
    lhs: &[u16],
    rhs: &[u16],
    batch: usize,
    row: usize,
    col: usize,
    tile_product: &T,
    add_parts: &A,
) -> (r: [u32; 64])
    requires
        lhs_fits(*attr, lhs@.len() as int),
        rhs_fits(*attr, rhs@.len() as int),
        in_product(*attr, batch as int, row as int, col as int),
        row % 8 == 0,
        col % 8 == 0,
        forall|l: [u16; 64], r: [u16; 64]| #[trigger] tile_product.requires((l, r)),
        forall|x: u32, y: u32| #[trigger] add_parts.requires((x, y)),
    ensures
        forall|i: int|
            0 <= i < 64 && row + i / 8 < attr.m.0 && col + i % 8 < attr.n.0 ==> tile_summed(
                *tile_product,
                *add_parts,
                *attr,
                lhs@,
                rhs@,
                batch as int,
                row + i / 8,
                col + i % 8,
                tile_count(attr.k.0 as int),
                #[trigger] r[i],
            ),
{
    let k: usize = attr.k.0 as usize;
    let rows_left: usize = attr.m.0 as usize - row;
    let cols_left: usize = attr.n.0 as usize - col;
    let tiles: usize = k / 8 + if k % 8 > 0 {
        1
    } else {
        0
    };
    let mut acc: [u32; 64] = [0; 64];
    let mut t: usize = 0;
    while t < tiles
        invariant
            t <= tiles,
            tiles == tile_count(attr.k.0 as int),
            k == attr.k.0,
            rows_left == attr.m.0 - row,
            cols_left == attr.n.0 - col,
            lhs_fits(*attr, lhs@.len() as int),
            rhs_fits(*attr, rhs@.len() as int),
            in_product(*attr, batch as int, row as int, col as int),
            row % 8 == 0,
            col % 8 == 0,
            forall|l: [u16; 64], r: [u16; 64]| #[trigger] tile_product.requires((l, r)),
            forall|x: u32, y: u32| #[trigger] add_parts.requires((x, y)),
            forall|i: int|
                0 <= i < 64 && row + i / 8 < attr.m.0 && col + i % 8 < attr.n.0 ==> tile_summed(
                    *tile_product,
                    *add_parts,
                    *attr,
                    lhs@,
                    rhs@,
                    batch as int,
                    row + i / 8,
                    col + i % 8,
                    t as int,
                    #[trigger] acc[i],
                ),
        decreases tiles - t,
    {
        let depth: usize = 8 * t;
        let left: [u16; 64] = pack_lhs_tile(attr, lhs, batch, row, depth);
        let right: [u16; 64] = pack_rhs_tile(attr, rhs, batch, col, depth);
        let partial: [u32; 64] = tile_product(left, right);
        let ghost previous = acc;
        let mut i: usize = 0;
        while i < 64
            invariant
                i <= 64,
                rows_left == attr.m.0 - row,
                cols_left == attr.n.0 - col,
                row % 8 == 0,
                col % 8 == 0,
                depth == 8 * t,
                left@ == lhs_tile(*attr, lhs@, batch as int, row as int, depth as int),
                right@ == rhs_tile(*attr, rhs@, batch as int, col as int, depth as int),
                tile_product.ensures((left, right), partial),
                forall|x: u32, y: u32| #[trigger] add_parts.requires((x, y)),
                forall|j: int|
                    0 <= j < 64 && row + j / 8 < attr.m.0 && col + j % 8 < attr.n.0
                        ==> tile_summed(
                        *tile_product,
                        *add_parts,
                        *attr,
                        lhs@,
                        rhs@,
                        batch as int,
                        row + j / 8,
                        col + j % 8,
                        t as int,
                        #[trigger] previous[j],
                    ),
                forall|j: int| i <= j < 64 ==> #[trigger] acc[j] == previous[j],
                forall|j: int|
                    0 <= j < i && row + j / 8 < attr.m.0 && col + j % 8 < attr.n.0
                        ==> tile_summed(
                        *tile_product,
                        *add_parts,
                        *attr,
                        lhs@,
                        rhs@,
                        batch as int,
                        row + j / 8,
                        col + j % 8,
                        t + 1,
                        #[trigger] acc[j],
                    ),
            decreases 64 - i,
        {
            if i / 8 < rows_left && i % 8 < cols_left {
                let sum: u32 = add_parts(acc[i], partial[i]);
                proof {
                    let r = row + (i as int) / 8;
                    let c = col + (i as int) % 8;
                    assert(r - r % 8 == row && c - c % 8 == col);
                    assert((r % 8) * 8 + c % 8 == i);
                    assert(previous[i as int] == acc[i as int]);
                    assert(tile_part(*tile_product, left@, right@, i as int, partial[i as int]));
                    assert(tile_summed(
                        *tile_product,
                        *add_parts,
                        *attr,
                        lhs@,
                        rhs@,
                        batch as int,
                        r,
                        c,
                        (t + 1) - 1,
                        previous[i as int],
                    ));
                    assert(tile_summed(
                        *tile_product,
                        *add_parts,
                        *attr,
                        lhs@,
                        rhs@,
                        batch as int,
                        r,
                        c,
                        t + 1,
                        sum,
                    ));
                }
                acc[i] = sum;
            }
            i = i + 1;
        }
        t = t + 1;
    }
    acc
}

/// Multiplies tile by tile: the sum of each element is kept in 32 bits and narrowed once.
pub fn compute_f16_a100<
    T: Fn([u16; 64], [u16; 64]) -> [u32; 64],
    A: Fn(u32, u32) -> u32,
    N: Fn(u32) -> u16,
>(
    attr: &MatMulAttr,
    lhs: &[u16],
    rhs: &[u16],
    output: &mut [u16],
    tile_product: &T,
    add_parts: &A,
    narrow: &N,
)
    requires
        matmul_fits(*attr, lhs@.len() as int, rhs@.len() as int, old(output)@.len() as int),
        forall|l: [u16; 64], r: [u16; 64]| #[trigger] tile_product.requires((l, r)),
        forall|x: u32, y: u32| #[trigger] add_parts.requires((x, y)),
        forall|value: u32| #[trigger] narrow.requires((value,)),
    ensures
        product_state(
            ProductPath::A100,
            *attr,
            a100_holds(*tile_product, *add_parts, *narrow, *attr, lhs@, rhs@),
            last_turn(*attr),
            old(output)@,
            final(output)@,
        ),
{
    let batches: usize = normalized_batch(attr);
    let m: usize = attr.m.0 as usize;
    let n: usize = attr.n.0 as usize;
    let row_tiles: usize = m / 8 + if m % 8 > 0 {
        1
    } else {
        0
    };
    let col_tiles: usize = n / 8 + if n % 8 > 0 {
        1
    } else {
        0
    };
    let ghost path = ProductPath::A100;
    let ghost holds = a100_holds(*tile_product, *add_parts, *narrow, *attr, lhs@, rhs@);
    let ghost before = output@;
    proof {
        out_within(*attr, before.len() as int);
    }
    let mut batch: usize = 0;
    while batch < batches
        invariant
            batch <= batches,
            batches == batch_count(*attr),
            m == attr.m.0,
            n == attr.n.0,
            row_tiles == tile_count(m as int),
            col_tiles == tile_count(n as int),
            path == ProductPath::A100,
            holds == a100_holds(*tile_product, *add_parts, *narrow, *attr, lhs@, rhs@),
            output@.len() == before.len(),
            matmul_fits(*attr, lhs@.len() as int, rhs@.len() as int, before.len() as int),
            forall|b: int, i: int, j: int|
                in_product(*attr, b, i, j) ==> 0 <= #[trigger] out_place(*attr, b, i, j)
                    < before.len(),
            forall|l: [u16; 64], r: [u16; 64]| #[trigger] tile_product.requires((l, r)),
            forall|x: u32, y: u32| #[trigger] add_parts.requires((x, y)),
            forall|value: u32| #[trigger] narrow.requires((value,)),
            product_state(path, *attr, holds, at_tile(batch as int, 0, 0, 0), before, output@),
        decreases batches - batch,
    {
        let mut tile_row: usize = 0;
        while tile_row < row_tiles
            invariant
                batch < batches,
                tile_row <= row_tiles,
                batches == batch_count(*attr),
                m == attr.m.0,
                n == attr.n.0,
                row_tiles == tile_count(m as int),
                col_tiles == tile_count(n as int),
                path == ProductPath::A100,
                holds == a100_holds(*tile_product, *add_parts, *narrow, *attr, lhs@, rhs@),
                output@.len() == before.len(),
                matmul_fits(*attr, lhs@.len() as int, rhs@.len() as int, before.len() as int),
                forall|b: int, i: int, j: int|
                    in_product(*attr, b, i, j) ==> 0 <= #[trigger] out_place(*attr, b, i, j)
                        < before.len(),
                forall|l: [u16; 64], r: [u16; 64]| #[trigger] tile_product.requires((l, r)),
                forall|x: u32, y: u32| #[trigger] add_parts.requires((x, y)),
                forall|value: u32| #[trigger] narrow.requires((value,)),
                product_state(
                    path,
                    *attr,
                    holds,
                    at_tile(batch as int, tile_row as int, 0, 0),
                    before,
                    output@,
                ),
            decreases row_tiles - tile_row,
        {
            let mut tile_col: usize = 0;
            while tile_col < col_tiles
                invariant
                    batch < batches,
                    tile_row < row_tiles,
                    tile_col <= col_tiles,
                    batches == batch_count(*attr),
                    m == attr.m.0,
                    n == attr.n.0,
                    row_tiles == tile_count(m as int),
                    col_tiles == tile_count(n as int),
                    path == ProductPath::A100,
                    holds == a100_holds(*tile_product, *add_parts, *narrow, *attr, lhs@, rhs@),
                    output@.len() == before.len(),
                    matmul_fits(*attr, lhs@.len() as int, rhs@.len() as int, before.len() as int),
                    forall|b: int, i: int, j: int|
                        in_product(*attr, b, i, j) ==> 0 <= #[trigger] out_place(*attr, b, i, j)
                            < before.len(),
                    forall|l: [u16; 64], r: [u16; 64]| #[trigger] tile_product.requires((l, r)),
                    forall|x: u32, y: u32| #[trigger] add_parts.requires((x, y)),
                    forall|value: u32| #[trigger] narrow.requires((value,)),
                    product_state(
                        path,
                        *attr,
                        holds,
                        at_tile(batch as int, tile_row as int, tile_col as int, 0),
                        before,
                        output@,
                    ),
                decreases col_tiles - tile_col,
            {
                let row: usize = 8 * tile_row;
                let col: usize = 8 * tile_col;
                let sums: [u32; 64] = tile_sums(
                    attr,
                    lhs,
                    rhs,
                    batch,
                    row,
                    col,
                    tile_product,
                    add_parts,
                );
                let mut i: usize = 0;
                while i < 64
                    invariant
                        i <= 64,
                        batch < batches,
                        row == 8 * tile_row,
                        col == 8 * tile_col,
                        row < m,
                        col < n,
                        batches == batch_count(*attr),
                        m == attr.m.0,
                        n == attr.n.0,
                        path == ProductPath::A100,
                        holds == a100_holds(*tile_product, *add_parts, *narrow, *attr, lhs@, rhs@),
                        output@.len() == before.len(),
                        matmul_fits(
                            *attr,
                            lhs@.len() as int,
                            rhs@.len() as int,
                            before.len() as int,
                        ),
                        forall|b: int, i: int, j: int|
                            in_product(*attr, b, i, j) ==> 0 <= #[trigger] out_place(
                                *attr,
                                b,
                                i,
                                j,
                            ) < before.len(),
                        forall|value: u32| #[trigger] narrow.requires((value,)),
                        forall|i: int|
                            0 <= i < 64 && row + i / 8 < attr.m.0 && col + i % 8 < attr.n.0
                                ==> tile_summed(
                                *tile_product,
                                *add_parts,
                                *attr,
                                lhs@,
                                rhs@,
                                batch as int,
                                row + i / 8,
                                col + i % 8,
                                tile_count(attr.k.0 as int),
                                #[trigger] sums[i],
                            ),
                        product_state(
                            path,
                            *attr,
                            holds,
                            at_tile(batch as int, tile_row as int, tile_col as int, i as int),
                            before,
                            output@,
                        ),
                    decreases 64 - i,
                {
                    let ghost now = at_tile(
                        batch as int,
                        tile_row as int,
                        tile_col as int,
                        i as int,
                    );
                    let ghost next = at_tile(
                        batch as int,
                        tile_row as int,
                        tile_col as int,
                        i + 1,
                    );
                    if i / 8 < m - row && i % 8 < n - col {
                        let value: u16 = narrow(sums[i]);
                        let r: usize = row + i / 8;
                        let c: usize = col + i % 8;
                        let index: usize = out_index(attr, batch, r, c, output.len());
                        proof {
                            assert(tile_summed(
                                *tile_product,
                                *add_parts,
                                *attr,
                                lhs@,
                                rhs@,
                                batch as int,
                                r as int,
                                c as int,
                                tile_count(attr.k.0 as int),
                                sums[i as int],
                            ));
                            assert(holds(batch as int, r as int, c as int, value));
                            write_element(
                                path,
                                *attr,
                                holds,
                                now,
                                next,
                                before,
                                output@,
                                batch as int,
                                r as int,
                                c as int,
                                value,
                            );
                        }
                        output[index] = value;
                    } else {
                        proof {
                            skip_turns(path, *attr, holds, now, next, before, output@);
                        }
                    }
                    i = i + 1;
                }
                proof {
                    skip_turns(
                        path,
                        *attr,
                        holds,
                        at_tile(batch as int, tile_row as int, tile_col as int, 64),
                        at_tile(batch as int, tile_row as int, tile_col + 1, 0),
                        before,
                        output@,
                    );
                }
                tile_col = tile_col + 1;
            }
            proof {
                skip_turns(
                    path,
                    *attr,
                    holds,
                    at_tile(batch as int, tile_row as int, col_tiles as int, 0),
                    at_tile(batch as int, tile_row + 1, 0, 0),
                    before,
                    output@,
                );
            }
            tile_row = tile_row + 1;
        }
        proof {
            skip_turns(
                path,
                *attr,
                holds,
                at_tile(batch as int, row_tiles as int, 0, 0),
                at_tile(batch + 1, 0, 0, 0),
                before,
                output@,
            );
        }
        batch = batch + 1;
    }
}

/// The turn of element `index` of a tile.
spec fn at_tile(batch: int, tile_row: int, tile_col: int, index: int) -> Turn {
    Turn { batch, row: tile_row, col: tile_col, inner_row: index / 8, inner_col: index % 8 }
}

/// No two elements of the product share a place.
pub open spec fn places_distinct(attr: MatMulAttr) -> bool {
    forall|b: int, i: int, j: int, b2: int, i2: int, j2: int|
        in_product(attr, b, i, j) && in_product(attr, b2, i2, j2) && #[trigger] out_place(
            attr,
            b,
            i,
            j,
        ) == #[trigger] out_place(attr, b2, i2, j2) ==> b == b2 && i == i2 && j == j2
}

/// Where no two elements share a place, a product holds every one of its elements.
pub proof fn distinct_product_holds(
    path: ProductPath,
    attr: MatMulAttr,
    holds: spec_fn(int, int, int, u16) -> bool,
    before: Seq<u16>,
    output: Seq<u16>,
    batch: int,
    row: int,
    col: int,
)
    requires
        product_state(path, attr, holds, last_turn(attr), before, output),
        places_distinct(attr),
        in_product(attr, batch, row, col),
    ensures
        holds(batch, row, col, output[out_place(attr, batch, row, col)]),
{
    let now = last_turn(attr);
    assert(written(path, attr, now, batch, row, col));
    assert forall|b: int, i: int, j: int| #[trigger]
        written(path, attr, now, b, i, j) && earlier(
            turn(path, batch, row, col),
            turn(path, b, i, j),
        ) implies out_place(attr, b, i, j) != out_place(attr, batch, row, col) by {}
    assert(lasting(path, attr, now, batch, row, col));
}

/// Rows one after the other, without gaps, share no place.
pub proof fn compact_places_distinct(attr: MatMulAttr)
    requires
        batch_count(attr) == 1,
        attr.out_row_stride.0 == attr.n.0,
        attr.out_col_stride.0 == 1,
    ensures
        places_distinct(attr),
        forall|i: int, j: int|
            in_product(attr, 0, i, j) ==> #[trigger] out_place(attr, 0, i, j) == i * attr.n.0 + j,
{
    let n = attr.n.0 as int;
    assert forall|i: int, j: int| in_product(attr, 0, i, j) implies #[trigger] out_place(
        attr,
        0,
        i,
        j,
    ) == i * attr.n.0 + j by {
        let s = attr.out_batch_stride.0 as int;
        assert(0 * s == 0) by (nonlinear_arith);
    }
    assert forall|b: int, i: int, j: int, b2: int, i2: int, j2: int|
        in_product(attr, b, i, j) && in_product(attr, b2, i2, j2) && #[trigger] out_place(
            attr,
            b,
            i,
            j,
        ) == #[trigger] out_place(attr, b2, i2, j2) implies b == b2 && i == i2 && j == j2 by {
        assert(b == 0 && b2 == 0);
        crate::shape::joined_below(i as nat, attr.m.0 as nat, j as nat, n as nat);
        crate::shape::joined_below(i2 as nat, attr.m.0 as nat, j2 as nat, n as nat);
    }
}

/// Products are added up without loss, where bit patterns stand for whole numbers.
pub open spec fn adds_exactly<F: Fn(u32, u16, u16) -> u32>(
    mul_add: F,
    half: spec_fn(u16) -> int,
    wide: spec_fn(u32) -> int,
) -> bool {
    &&& wide(0) == 0
    &&& forall|acc: u32, a: u16, b: u16, r: u32| #[trigger]
        mul_add.ensures((acc, a, b), r) ==> wide(r) == wide(acc) + half(a) * half(b)
}

/// Tiles are multiplied and added up without loss, where bit patterns stand for whole
/// numbers: each element of a tile is where a row of the left tile and a row of the right
/// one meet.
pub open spec fn tiles_exactly<
    T: Fn([u16; 64], [u16; 64]) -> [u32; 64],
    A: Fn(u32, u32) -> u32,
>(
    tile_product: T,
    add_parts: A,
    half: spec_fn(u16) -> int,
    wide: spec_fn(u32) -> int,
) -> bool {
    &&& wide(0) == 0
    &&& half(0) == 0
    &&& forall|l: [u16; 64], r: [u16; 64], p: [u32; 64], i: int, j: int|
        #![trigger tile_product.ensures((l, r), p), p[8 * i + j]]
        tile_product.ensures((l, r), p) && 0 <= i < 8 && 0 <= j < 8 ==> wide(p[8 * i + j])
            == crate::backend::sums::sum_of(|d: int| half(l[8 * i + d]) * half(r[8 * j + d]), 8)
    &&& forall|x: u32, y: u32, r: u32| #[trigger]
        add_parts.ensures((x, y), r) ==> wide(r) == wide(x) + wide(y)
}

/// A buffer holds the left matrices: element `(i, d)` of matrix `b` lies so many strides
/// from the front, with the axes swapped where the flag says so.
pub open spec fn holds_left(
    attr: MatMulAttr,
    lhs: Seq<u16>,
    matrices: spec_fn(int, int, int) -> u16,
) -> bool {
    forall|b: int, i: int, d: int|
        0 <= b < (if attr.batch.0 == 0 {
            1
        } else {
            attr.batch.0 as int
        }) && 0 <= i < attr.m.0 && 0 <= d < attr.k.0 ==> #[trigger] matrices(b, i, d) == lhs[b
            * attr.lhs_batch_stride.0 + (if attr.flags.0 & MATMUL_LHS_TRANSPOSED != 0 {
            d * attr.lhs_row_stride.0 + i * attr.lhs_col_stride.0
        } else {
            i * attr.lhs_row_stride.0 + d * attr.lhs_col_stride.0
        })]
}

/// A buffer holds the right matrices: element `(d, j)` of matrix `b` lies so many strides
/// from the front, with the axes swapped where the flag says so.
pub open spec fn holds_right(
    attr: MatMulAttr,
    rhs: Seq<u16>,
    matrices: spec_fn(int, int, int) -> u16,
) -> bool {
    forall|b: int, d: int, j: int|
        0 <= b < (if attr.batch.0 == 0 {
            1
        } else {
            attr.batch.0 as int
        }) && 0 <= d < attr.k.0 && 0 <= j < attr.n.0 ==> #[trigger] matrices(b, d, j) == rhs[b
            * attr.rhs_batch_stride.0 + (if attr.flags.0 & MATMUL_RHS_TRANSPOSED != 0 {
            j * attr.rhs_row_stride.0 + d * attr.rhs_col_stride.0
        } else {
            d * attr.rhs_row_stride.0 + j * attr.rhs_col_stride.0
        })]
}

/// No two elements of the output lie in the same place.
pub open spec fn output_spread(attr: MatMulAttr) -> bool {
    forall|b: int, i: int, j: int, c: int, s: int, t: int|
        #![trigger out_place(attr, b, i, j), out_place(attr, c, s, t)]
        0 <= b < (if attr.batch.0 == 0 {
            1
        } else {
            attr.batch.0 as int
        }) && 0 <= c < (if attr.batch.0 == 0 {
            1
        } else {
            attr.batch.0 as int
        }) && 0 <= i < attr.m.0 && 0 <= s < attr.m.0 && 0 <= j < attr.n.0 && 0 <= t < attr.n.0 && b
            * attr.out_batch_stride.0 + i * attr.out_row_stride.0 + j * attr.out_col_stride.0 == c
            * attr.out_batch_stride.0 + s * attr.out_row_stride.0 + t * attr.out_col_stride.0
            ==> b == c && i == s && j == t
}

/// An element of the product exists.
pub open spec fn element_of_product(attr: MatMulAttr, b: int, i: int, j: int) -> bool {
    &&& 0 <= b < (if attr.batch.0 == 0 {
        1
    } else {
        attr.batch.0 as int
    })
    &&& 0 <= i < attr.m.0
    &&& 0 <= j < attr.n.0
}

/// With exact arithmetic, element `(i, j)` of product `b` is the sum of what row `i` of the
/// left matrix `b` and column `j` of the right matrix `b` give, and it lies so many strides
/// from the front of the output.
pub proof fn cpu_multiplies_matrices<F: Fn(u32, u16, u16) -> u32, N: Fn(u32) -> u16>(
    attr: MatMulAttr,
    lhs: Seq<u16>,
    rhs: Seq<u16>,
    before: Seq<u16>,
    output: Seq<u16>,
    mul_add: F,
    narrow: N,
    half: spec_fn(u16) -> int,
    wide: spec_fn(u32) -> int,
    left: spec_fn(int, int, int) -> u16,
    right: spec_fn(int, int, int) -> u16,
    b: int,
    i: int,
    j: int,
) -> (sum: u32)
    requires
        product_state(
            ProductPath::Cpu,
            attr,
            cpu_holds(mul_add, narrow, attr, lhs, rhs),
            last_turn(attr),
            before,
            output,
        ),
        adds_exactly(mul_add, half, wide),
        holds_left(attr, lhs, left),
        holds_right(attr, rhs, right),
        output_spread(attr),
        element_of_product(attr, b, i, j),
    ensures
        wide(sum) == crate::backend::sums::sum_of(
            |d: int| half(left(b, i, d)) * half(right(b, d, j)),
            attr.k.0 as int,
        ),
        narrow.ensures(
            (sum,),
            output[b * attr.out_batch_stride.0 + i * attr.out_row_stride.0 + j
                * attr.out_col_stride.0],
        ),
{
    let k = attr.k.0 as int;
    let holds = cpu_holds(mul_add, narrow, attr, lhs, rhs);
    assert(places_distinct(attr));
    distinct_product_holds(ProductPath::Cpu, attr, holds, before, output, b, i, j);
    let value = output[out_place(attr, b, i, j)];
    let met = pairs(attr, lhs, rhs, b, i, j, k);
    let sum = choose|sum: u32| #[trigger]
        summed(mul_add, 0, met, sum) && narrow.ensures((sum,), value);
    exact_sum(mul_add, half, wide, 0, met, sum);
    let f = |d: int| half(met[d].0) * half(met[d].1);
    let g = |d: int| half(left(b, i, d)) * half(right(b, d, j));
    assert forall|d: int| 0 <= d < k implies #[trigger] f(d) == g(d) by {
        assert(left(b, i, d) == met[d].0);
        assert(right(b, d, j) == met[d].1);
    }
    crate::backend::sums::sums_agree(f, g, k);
    sum
}

/// Where the arithmetic is exact, a sum is the sum of the products.
pub proof fn exact_sum<F: Fn(u32, u16, u16) -> u32>(
    mul_add: F,
    half: spec_fn(u16) -> int,
    wide: spec_fn(u32) -> int,
    start: u32,
    met: Seq<(u16, u16)>,
    sum: u32,
)
    requires
        adds_exactly(mul_add, half, wide),
        summed(mul_add, start, met, sum),
    ensures
        wide(sum) == wide(start) + crate::backend::sums::sum_of(
            |d: int| half(met[d].0) * half(met[d].1),
            met.len() as int,
        ),
    decreases met.len(),
{
    if met.len() > 0 {
        let rest = met.drop_last();
        let part = choose|part: u32|
            summed(mul_add, start, rest, part) && #[trigger] mul_add.ensures(
                (part, met.last().0, met.last().1),
                sum,
            );
        exact_sum(mul_add, half, wide, start, rest, part);
        crate::backend::sums::sums_agree(
            |d: int| half(rest[d].0) * half(rest[d].1),
            |d: int| half(met[d].0) * half(met[d].1),
            rest.len() as int,
        );
    }
}

/// Where each step has one result, the products of an element are added one by one, from
/// the first column of the left matrix to the last, starting from zero.
pub proof fn cpu_adds_in_order<F: Fn(u32, u16, u16) -> u32, N: Fn(u32) -> u16>(
    attr: MatMulAttr,
    lhs: Seq<u16>,
    rhs: Seq<u16>,
    before: Seq<u16>,
    output: Seq<u16>,
    mul_add: F,
    narrow: N,
    step: spec_fn(u32, u16, u16) -> u32,
    left: spec_fn(int, int, int) -> u16,
    right: spec_fn(int, int, int) -> u16,
    b: int,
    i: int,
    j: int,
)
    requires
        product_state(
            ProductPath::Cpu,
            attr,
            cpu_holds(mul_add, narrow, attr, lhs, rhs),
            last_turn(attr),
            before,
            output,
        ),
        forall|acc: u32, x: u16, y: u16, r: u32| #[trigger]
            mul_add.ensures((acc, x, y), r) ==> r == step(acc, x, y),
        holds_left(attr, lhs, left),
        holds_right(attr, rhs, right),
        output_spread(attr),
        element_of_product(attr, b, i, j),
    ensures
        narrow.ensures(
            (Seq::new(attr.k.0 as nat, |d: int| d).fold_left(
                0u32,
                |acc: u32, d: int| step(acc, left(b, i, d), right(b, d, j)),
            ),),
            output[b * attr.out_batch_stride.0 + i * attr.out_row_stride.0 + j
                * attr.out_col_stride.0],
        ),
{
    let k = attr.k.0 as int;
    let holds = cpu_holds(mul_add, narrow, attr, lhs, rhs);
    assert(places_distinct(attr));
    distinct_product_holds(ProductPath::Cpu, attr, holds, before, output, b, i, j);
    let value = output[out_place(attr, b, i, j)];
    let met = pairs(attr, lhs, rhs, b, i, j, k);
    let sum = choose|sum: u32| #[trigger]
        summed(mul_add, 0, met, sum) && narrow.ensures((sum,), value);
    let take_in = |acc: u32, d: int| step(acc, left(b, i, d), right(b, d, j));
    assert forall|d: int| 0 <= d < k implies (#[trigger] met[d]).0 == left(b, i, d) && met[d].1
        == right(b, d, j) by {
        assert(left(b, i, d) == met[d].0);
        assert(right(b, d, j) == met[d].1);
    }
    folded_sum(mul_add, step, 0, met, sum, take_in);
}

proof fn folded_sum<F: Fn(u32, u16, u16) -> u32>(
    mul_add: F,
    step: spec_fn(u32, u16, u16) -> u32,
    start: u32,
    met: Seq<(u16, u16)>,
    sum: u32,
    take_in: spec_fn(u32, int) -> u32,
)
    requires
        forall|acc: u32, x: u16, y: u16, r: u32| #[trigger]
            mul_add.ensures((acc, x, y), r) ==> r == step(acc, x, y),
        forall|acc: u32, d: int|
            0 <= d < met.len() ==> #[trigger] take_in(acc, d) == step(acc, met[d].0, met[d].1),
        summed(mul_add, start, met, sum),
    ensures
        sum == Seq::new(met.len(), |d: int| d).fold_left(start, take_in),
    decreases met.len(),
{
    let all = Seq::new(met.len(), |d: int| d);
    if met.len() > 0 {
        let rest = met.drop_last();
        let part = choose|part: u32|
            summed(mul_add, start, rest, part) && #[trigger] mul_add.ensures(
                (part, met.last().0, met.last().1),
                sum,
            );
        assert forall|acc: u32, d: int| 0 <= d < rest.len() implies #[trigger] take_in(acc, d) == step(
            acc,
            rest[d].0,
            rest[d].1,
        ) by {
            assert(rest[d] == met[d]);
        }
        folded_sum(mul_add, step, start, rest, part, take_in);
        assert(all.drop_last() =~= Seq::new(rest.len(), |d: int| d));
        assert(sum == take_in(part, met.len() - 1));
    }
}

/// With exact tiles, the tile path gives what the element-by-element path gives: element
/// `(i, j)` of product `b` is the sum of what row `i` of the left matrix `b` and column `j`
/// of the right matrix `b` give.
pub proof fn tiles_multiply_matrices<
    T: Fn([u16; 64], [u16; 64]) -> [u32; 64],
    A: Fn(u32, u32) -> u32,
    N: Fn(u32) -> u16,
>(
    attr: MatMulAttr,
    lhs: Seq<u16>,
    rhs: Seq<u16>,
    before: Seq<u16>,
    output: Seq<u16>,
    tile_product: T,
    add_parts: A,
    narrow: N,
    half: spec_fn(u16) -> int,
    wide: spec_fn(u32) -> int,
    left: spec_fn(int, int, int) -> u16,
    right: spec_fn(int, int, int) -> u16,
    b: int,
    i: int,
    j: int,
) -> (sum: u32)
    requires
        product_state(
            ProductPath::A100,
            attr,
            a100_holds(tile_product, add_parts, narrow, attr, lhs, rhs),
            last_turn(attr),
            before,
            output,
        ),
        tiles_exactly(tile_product, add_parts, half, wide),
        holds_left(attr, lhs, left),
        holds_right(attr, rhs, right),
        output_spread(attr),
        element_of_product(attr, b, i, j),
    ensures
        wide(sum) == crate::backend::sums::sum_of(
            |d: int| half(left(b, i, d)) * half(right(b, d, j)),
            attr.k.0 as int,
        ),
        narrow.ensures(
            (sum,),
            output[b * attr.out_batch_stride.0 + i * attr.out_row_stride.0 + j
                * attr.out_col_stride.0],
        ),
{
    let k = attr.k.0 as int;
    let holds = a100_holds(tile_product, add_parts, narrow, attr, lhs, rhs);
    assert(places_distinct(attr));
    distinct_product_holds(ProductPath::A100, attr, holds, before, output, b, i, j);
    let value = output[out_place(attr, b, i, j)];
    tiled_element(
        attr,
        lhs,
        rhs,
        tile_product,
        add_parts,
        narrow,
        half,
        wide,
        left,
        right,
        b,
        i,
        j,
        value,
    )
}

/// What the tile path puts in an element is the narrowed sum of the products.
pub proof fn tiled_element<
    T: Fn([u16; 64], [u16; 64]) -> [u32; 64],
    A: Fn(u32, u32) -> u32,
    N: Fn(u32) -> u16,
>(
    attr: MatMulAttr,
    lhs: Seq<u16>,
    rhs: Seq<u16>,
    tile_product: T,
    add_parts: A,
    narrow: N,
    half: spec_fn(u16) -> int,
    wide: spec_fn(u32) -> int,
    left: spec_fn(int, int, int) -> u16,
    right: spec_fn(int, int, int) -> u16,
    b: int,
    i: int,
    j: int,
    value: u16,
) -> (sum: u32)
    requires
        a100_holds(tile_product, add_parts, narrow, attr, lhs, rhs)(b, i, j, value),
        tiles_exactly(tile_product, add_parts, half, wide),
        holds_left(attr, lhs, left),
        holds_right(attr, rhs, right),
        element_of_product(attr, b, i, j),
    ensures
        wide(sum) == crate::backend::sums::sum_of(
            |d: int| half(left(b, i, d)) * half(right(b, d, j)),
            attr.k.0 as int,
        ),
        narrow.ensures((sum,), value),
{
    let k = attr.k.0 as int;
    let tiles = tile_count(k);
    let sum = choose|sum: u32| #[trigger]
        tile_summed(tile_product, add_parts, attr, lhs, rhs, b, i, j, tiles, sum)
            && narrow.ensures((sum,), value);
    exact_tiles(
        attr,
        lhs,
        rhs,
        tile_product,
        add_parts,
        half,
        wide,
        left,
        right,
        b,
        i,
        j,
        tiles,
        sum,
    );
    let f = |d: int| half(left(b, i, d)) * half(right(b, d, j));
    let padded = |d: int|
        if d < k {
            half(left(b, i, d)) * half(right(b, d, j))
        } else {
            0
        };
    crate::backend::sums::zeros_add_nothing(padded, k, 8 * tiles);
    crate::backend::sums::sums_agree(padded, f, k);
    sum
}

/// Where tiles are exact, the first tiles give the sum of the first products; past the end
/// there are zeros.
proof fn exact_tiles<T: Fn([u16; 64], [u16; 64]) -> [u32; 64], A: Fn(u32, u32) -> u32>(
    attr: MatMulAttr,
    lhs: Seq<u16>,
    rhs: Seq<u16>,
    tile_product: T,
    add_parts: A,
    half: spec_fn(u16) -> int,
    wide: spec_fn(u32) -> int,
    left: spec_fn(int, int, int) -> u16,
    right: spec_fn(int, int, int) -> u16,
    b: int,
    i: int,
    j: int,
    n: int,
    sum: u32,
)
    requires
        0 <= n,
        tile_summed(tile_product, add_parts, attr, lhs, rhs, b, i, j, n, sum),
        tiles_exactly(tile_product, add_parts, half, wide),
        holds_left(attr, lhs, left),
        holds_right(attr, rhs, right),
        element_of_product(attr, b, i, j),
    ensures
        wide(sum) == crate::backend::sums::sum_of(
            |d: int|
                if d < attr.k.0 {
                    half(left(b, i, d)) * half(right(b, d, j))
                } else {
                    0
                },
            8 * n,
        ),
    decreases n,
{
    if n > 0 {
        let padded = |d: int|
            if d < attr.k.0 {
                half(left(b, i, d)) * half(right(b, d, j))
            } else {
                0
            };
        let depth = 8 * (n - 1);
        let lt = lhs_tile(attr, lhs, b, i - i % 8, depth);
        let rt = rhs_tile(attr, rhs, b, j - j % 8, depth);
        let index = (i % 8) * 8 + j % 8;
        let (earlier_sum, part) = choose|before: u32, part: u32|
            tile_summed(tile_product, add_parts, attr, lhs, rhs, b, i, j, n - 1, before)
                && tile_part(tile_product, lt, rt, index, part) && #[trigger] add_parts.ensures(
                (before, part),
                sum,
            );
        exact_tiles(
            attr,
            lhs,
            rhs,
            tile_product,
            add_parts,
            half,
            wide,
            left,
            right,
            b,
            i,
            j,
            n - 1,
            earlier_sum,
        );
        let (l, r, p) = choose|l: [u16; 64], r: [u16; 64], p: [u32; 64]| #[trigger]
            tile_product.ensures((l, r), p) && l@ == lt && r@ == rt && p[index] == part;
        let row = i % 8;
        let col = j % 8;
        assert(p[8 * row + col] == part);
        let f = |d: int| half(l[8 * row + d]) * half(r[8 * col + d]);
        let g = |d: int| padded(depth + d);
        assert forall|d: int| 0 <= d < 8 implies #[trigger] f(d) == g(d) by {
            in_tile(row, d);
            in_tile(col, d);
            assert(l[8 * row + d] == lt[8 * row + d]);
            assert(r[8 * col + d] == rt[8 * col + d]);
            if depth + d < attr.k.0 {
                assert(left(b, i, depth + d) == lt[8 * row + d]);
                assert(right(b, depth + d, j) == rt[8 * col + d]);
            } else {
                assert(half(lt[8 * row + d]) == 0);
                let h = half(rt[8 * col + d]);
                assert(0 * h == 0) by (nonlinear_arith);
            }
        }
        crate::backend::sums::sums_agree(f, g, 8);
        crate::backend::sums::sum_splits(padded, depth, 8);
        assert(wide(part) == crate::backend::sums::sum_of(f, 8));
        assert(depth + 8 == 8 * n);
    }
}

proof fn in_tile(row: int, d: int)
    requires
        0 <= row < 8,
        0 <= d < 8,
    ensures
        0 <= 8 * row + d < 64,
        (8 * row + d) / 8 == row,
        (8 * row + d) % 8 == d,
{
}

/// Product `b` of a batch is the single product of what lies from the `b`-th batch stride on
/// in each buffer, on both paths.
pub proof fn batches_are_single_products<
    F: Fn(u32, u16, u16) -> u32,
    T: Fn([u16; 64], [u16; 64]) -> [u32; 64],
    A: Fn(u32, u32) -> u32,
    N: Fn(u32) -> u16,
>(
    attr: MatMulAttr,
    lhs: Seq<u16>,
    rhs: Seq<u16>,
    mul_add: F,
    tile_product: T,
    add_parts: A,
    narrow: N,
    b: int,
    i: int,
    j: int,
    value: u16,
)
    requires
        lhs_fits(attr, lhs.len() as int),
        rhs_fits(attr, rhs.len() as int),
        element_of_product(attr, b, i, j),
    ensures
        ({
            let single = MatMulAttr { batch: crate::uabi::types::DimSize(1), ..attr };
            let own_lhs = lhs.skip(b * attr.lhs_batch_stride.0);
            let own_rhs = rhs.skip(b * attr.rhs_batch_stride.0);
            &&& cpu_holds(mul_add, narrow, attr, lhs, rhs)(b, i, j, value) <==> cpu_holds(
                mul_add,
                narrow,
                single,
                own_lhs,
                own_rhs,
            )(0, i, j, value)
            &&& a100_holds(tile_product, add_parts, narrow, attr, lhs, rhs)(b, i, j, value)
                <==> a100_holds(tile_product, add_parts, narrow, single, own_lhs, own_rhs)(
                0,
                i,
                j,
                value,
            )
            &&& out_place(attr, b, i, j) == b * attr.out_batch_stride.0 + out_place(
                single,
                0,
                i,
                j,
            )
        }),
{
    let single = MatMulAttr { batch: crate::uabi::types::DimSize(1), ..attr };
    let own_lhs = lhs.skip(b * attr.lhs_batch_stride.0);
    let own_rhs = rhs.skip(b * attr.rhs_batch_stride.0);
    let k = attr.k.0 as int;
    let ls = attr.lhs_batch_stride.0 as int;
    let rs = attr.rhs_batch_stride.0 as int;
    let os = attr.out_batch_stride.0 as int;
    assert(0 * ls == 0 && 0 * rs == 0 && 0 * os == 0) by (nonlinear_arith);
    assert forall|row: int, d: int| 0 <= row < attr.m.0 && 0 <= d < k implies own_lhs[lhs_place(
        single,
        0,
        row,
        d,
    )] == lhs[#[trigger] lhs_place(attr, b, row, d)] by {
        lhs_within(attr, lhs.len() as int, b, row, d);
    }
    assert forall|d: int, col: int| 0 <= d < k && 0 <= col < attr.n.0 implies own_rhs[rhs_place(
        single,
        0,
        d,
        col,
    )] == rhs[#[trigger] rhs_place(attr, b, d, col)] by {
        rhs_within(attr, rhs.len() as int, b, d, col);
    }
    assert(pairs(attr, lhs, rhs, b, i, j, k) =~= pairs(single, own_lhs, own_rhs, 0, i, j, k));
    let tiles = tile_count(k);
    let one = a100_holds(tile_product, add_parts, narrow, attr, lhs, rhs);
    let two = a100_holds(tile_product, add_parts, narrow, single, own_lhs, own_rhs);
    if one(b, i, j, value) {
        let sum = choose|sum: u32| #[trigger]
            tile_summed(tile_product, add_parts, attr, lhs, rhs, b, i, j, tiles, sum)
                && narrow.ensures((sum,), value);
        same_tiles(
            tile_product,
            add_parts,
            attr,
            lhs,
            rhs,
            b,
            single,
            own_lhs,
            own_rhs,
            0,
            i,
            j,
            tiles,
            sum,
        );
        assert(two(0, i, j, value));
    }
    if two(0, i, j, value) {
        let sum = choose|sum: u32| #[trigger]
            tile_summed(tile_product, add_parts, single, own_lhs, own_rhs, 0, i, j, tiles, sum)
                && narrow.ensures((sum,), value);
        assert forall|row: int, d: int| 0 <= row < attr.m.0 && 0 <= d < k implies lhs[lhs_place(
            attr,
            b,
            row,
            d,
        )] == own_lhs[#[trigger] lhs_place(single, 0, row, d)] by {
            assert(lhs_place(attr, b, row, d) == lhs_place(attr, b, row, d));
        }
        assert forall|d: int, col: int| 0 <= d < k && 0 <= col < attr.n.0 implies rhs[rhs_place(
            attr,
            b,
            d,
            col,
        )] == own_rhs[#[trigger] rhs_place(single, 0, d, col)] by {
            assert(rhs_place(attr, b, d, col) == rhs_place(attr, b, d, col));
        }
        same_tiles(
            tile_product,
            add_parts,
            single,
            own_lhs,
            own_rhs,
            0,
            attr,
            lhs,
            rhs,
            b,
            i,
            j,
            tiles,
            sum,
        );
        assert(one(b, i, j, value));
    }
}

proof fn lhs_within(attr: MatMulAttr, len: int, b: int, row: int, d: int)
    requires
        lhs_fits(attr, len),
        0 <= b < batch_count(attr),
        0 <= row < attr.m.0,
        0 <= d < attr.k.0,
    ensures
        b * attr.lhs_batch_stride.0 >= 0,
        b * attr.lhs_batch_stride.0 <= lhs_place(attr, b, row, d) < len,
{
    let (first, second) = if lhs_swapped(attr) {
        (d, row)
    } else {
        (row, d)
    };
    let (rows, cols) = if lhs_swapped(attr) {
        (attr.k.0 as int, attr.m.0 as int)
    } else {
        (attr.m.0 as int, attr.k.0 as int)
    };
    strided_within(
        b,
        attr.lhs_batch_stride.0 as int,
        first,
        attr.lhs_row_stride.0 as int,
        second,
        attr.lhs_col_stride.0 as int,
        batch_count(attr),
        rows,
        cols,
    );
}

proof fn rhs_within(attr: MatMulAttr, len: int, b: int, d: int, col: int)
    requires
        rhs_fits(attr, len),
        0 <= b < batch_count(attr),
        0 <= d < attr.k.0,
        0 <= col < attr.n.0,
    ensures
        b * attr.rhs_batch_stride.0 >= 0,
        b * attr.rhs_batch_stride.0 <= rhs_place(attr, b, d, col) < len,
{
    let (first, second) = if rhs_swapped(attr) {
        (col, d)
    } else {
        (d, col)
    };
    let (rows, cols) = if rhs_swapped(attr) {
        (attr.n.0 as int, attr.k.0 as int)
    } else {
        (attr.k.0 as int, attr.n.0 as int)
    };
    strided_within(
        b,
        attr.rhs_batch_stride.0 as int,
        first,
        attr.rhs_row_stride.0 as int,
        second,
        attr.rhs_col_stride.0 as int,
        batch_count(attr),
        rows,
        cols,
    );
}

/// Equal elements make equal tiles, and equal tiles equal sums.
proof fn same_tiles<T: Fn([u16; 64], [u16; 64]) -> [u32; 64], A: Fn(u32, u32) -> u32>(
    tile_product: T,
    add_parts: A,
    attr: MatMulAttr,
    lhs: Seq<u16>,
    rhs: Seq<u16>,
    b: int,
    other: MatMulAttr,
    own_lhs: Seq<u16>,
    own_rhs: Seq<u16>,
    c: int,
    i: int,
    j: int,
    n: int,
    sum: u32,
)
    requires
        other.m == attr.m,
        other.n == attr.n,
        other.k == attr.k,
        0 <= i < attr.m.0,
        0 <= j < attr.n.0,
        forall|row: int, d: int|
            0 <= row < attr.m.0 && 0 <= d < attr.k.0 ==> own_lhs[lhs_place(other, c, row, d)]
                == lhs[#[trigger] lhs_place(attr, b, row, d)],
        forall|d: int, col: int|
            0 <= d < attr.k.0 && 0 <= col < attr.n.0 ==> own_rhs[rhs_place(other, c, d, col)]
                == rhs[#[trigger] rhs_place(attr, b, d, col)],
        tile_summed(tile_product, add_parts, attr, lhs, rhs, b, i, j, n, sum),
    ensures
        tile_summed(tile_product, add_parts, other, own_lhs, own_rhs, c, i, j, n, sum),
    decreases n,
{
    if n > 0 {
        let depth = 8 * (n - 1);
        let top = i - i % 8;
        let side = j - j % 8;
        let index = (i % 8) * 8 + j % 8;
        let lt = lhs_tile(attr, lhs, b, top, depth);
        let rt = rhs_tile(attr, rhs, b, side, depth);
        assert(lt =~= lhs_tile(other, own_lhs, c, top, depth)) by {
            assert forall|t: int| 0 <= t < 64 implies #[trigger] lt[t] == lhs_tile(
                other,
                own_lhs,
                c,
                top,
                depth,
            )[t] by {
                if top + t / 8 < attr.m.0 && depth + t % 8 < attr.k.0 {
                    assert(own_lhs[lhs_place(other, c, top + t / 8, depth + t % 8)]
                        == lhs[lhs_place(attr, b, top + t / 8, depth + t % 8)]);
                }
            }
        }
        assert(rt =~= rhs_tile(other, own_rhs, c, side, depth)) by {
            assert forall|t: int| 0 <= t < 64 implies #[trigger] rt[t] == rhs_tile(
                other,
                own_rhs,
                c,
                side,
                depth,
            )[t] by {
                if side + t / 8 < attr.n.0 && depth + t % 8 < attr.k.0 {
                    assert(own_rhs[rhs_place(other, c, depth + t % 8, side + t / 8)]
                        == rhs[rhs_place(attr, b, depth + t % 8, side + t / 8)]);
                }
            }
        }
        let (before, part) = choose|before: u32, part: u32|
            tile_summed(tile_product, add_parts, attr, lhs, rhs, b, i, j, n - 1, before)
                && tile_part(tile_product, lt, rt, index, part) && #[trigger] add_parts.ensures(
                (before, part),
                sum,
            );
        same_tiles(
            tile_product,
            add_parts,
            attr,
            lhs,
            rhs,
            b,
            other,
            own_lhs,
            own_rhs,
            c,
            i,
            j,
            n - 1,
            before,
        );
    }
}

/// Matrices stored one after the other, row by row without gaps, are met whole: every
/// element of either buffer has its place in some element of the product.
pub proof fn compact_matrices_are_met_whole(attr: MatMulAttr, p: nat)
    requires
        attr.flags.0 & MATMUL_LHS_TRANSPOSED == 0,
        attr.flags.0 & MATMUL_RHS_TRANSPOSED == 0,
        attr.batch.0 > 0,
        attr.lhs_col_stride.0 == 1,
        attr.lhs_row_stride.0 == attr.k.0,
        attr.lhs_batch_stride.0 == attr.m.0 * attr.k.0,
        attr.rhs_col_stride.0 == 1,
        attr.rhs_row_stride.0 == attr.n.0,
        attr.rhs_batch_stride.0 == attr.k.0 * attr.n.0,
        attr.n.0 > 0,
        attr.m.0 > 0,
    ensures
        p < attr.batch.0 as nat * attr.m.0 as nat * attr.k.0 as nat ==> exists|
            b: int,
            i: int,
            d: int,
        |
            {
                &&& element_of_product(attr, b, i, 0)
                &&& 0 <= d < attr.k.0
                &&& #[trigger] lhs_place(attr, b, i, d) == p
            },
        p < attr.batch.0 as nat * attr.k.0 as nat * attr.n.0 as nat ==> exists|
            b: int,
            d: int,
            j: int,
        |
            {
                &&& element_of_product(attr, b, 0, j)
                &&& 0 <= d < attr.k.0
                &&& #[trigger] rhs_place(attr, b, d, j) == p
            },
{
    let batch = attr.batch.0 as nat;
    let m = attr.m.0 as nat;
    let n = attr.n.0 as nat;
    let k = attr.k.0 as nat;
    if p < batch * m * k {
        crate::shape::split_below(p, batch * m, k);
        crate::shape::split_below(p / k, batch, m);
        let b = (p / k / m) as int;
        let i = (p / k % m) as int;
        let d = (p % k) as int;
        assert(b * (m * k) + i * k == (b * m + i) * k) by (nonlinear_arith);
        assert(b * attr.lhs_batch_stride.0 == b * (m * k)) by (nonlinear_arith)
            requires
                attr.lhs_batch_stride.0 == m * k,
        ;
        assert(lhs_place(attr, b, i, d) == p);
    }
    if p < batch * k * n {
        crate::shape::split_below(p, batch * k, n);
        crate::shape::split_below(p / n, batch, k);
        let b = (p / n / k) as int;
        let d = (p / n % k) as int;
        let j = (p % n) as int;
        assert(b * (k * n) + d * n == (b * k + d) * n) by (nonlinear_arith);
        assert(b * attr.rhs_batch_stride.0 == b * (k * n)) by (nonlinear_arith)
            requires
                attr.rhs_batch_stride.0 == k * n,
        ;
        assert(rhs_place(attr, b, d, j) == p);
    }
}

/// Places that no element of the product goes to keep what was there.
pub proof fn product_leaves_the_rest(
    path: ProductPath,
    attr: MatMulAttr,
    holds: spec_fn(int, int, int, u16) -> bool,
    before: Seq<u16>,
    output: Seq<u16>,
    p: int,
)
    requires
        product_state(path, attr, holds, last_turn(attr), before, output),
        0 <= p < before.len(),
        forall|b: int, i: int, j: int|
            #![trigger out_place(attr, b, i, j)]
            element_of_product(attr, b, i, j) ==> b * attr.out_batch_stride.0 + i
                * attr.out_row_stride.0 + j * attr.out_col_stride.0 != p,
    ensures
        output[p] == before[p],
{
    if touched(path, attr, last_turn(attr), p) {
        let (b, i, j) = choose|b: int, i: int, j: int| #[trigger]
            written(path, attr, last_turn(attr), b, i, j) && out_place(attr, b, i, j) == p;
        assert(element_of_product(attr, b, i, j));
    }
}

/// Matrices lie within a buffer just where each of their elements does.
pub proof fn fitting_is_lying_inside(
    len: int,
    batch: int,
    rows: int,
    cols: int,
    row_stride: int,
    col_stride: int,
    batch_stride: int,
)
    requires
        batch >= 0,
        rows >= 0,
        cols >= 0,
        row_stride >= 0,
        col_stride >= 0,
        batch_stride >= 0,
    ensures
        fits(len, batch, rows, cols, row_stride, col_stride, batch_stride) <==> forall|
            b: int,
            r: int,
            c: int,
        |
            0 <= b < batch && 0 <= r < rows && 0 <= c < cols ==> #[trigger] strided(
                b,
                batch_stride,
                r,
                row_stride,
                c,
                col_stride,
            ) < len,
        forall|b: int, r: int, c: int| #[trigger]
            strided(b, batch_stride, r, row_stride, c, col_stride) == b * batch_stride + r
                * row_stride + c * col_stride,
{
    if batch > 0 && rows > 0 && cols > 0 {
        if fits(len, batch, rows, cols, row_stride, col_stride, batch_stride) {
            assert forall|b: int, r: int, c: int|
                0 <= b < batch && 0 <= r < rows && 0 <= c < cols implies #[trigger] strided(
                b,
                batch_stride,
                r,
                row_stride,
                c,
                col_stride,
            ) < len by {
                strided_within(
                    b,
                    batch_stride,
                    r,
                    row_stride,
                    c,
                    col_stride,
                    batch,
                    rows,
                    cols,
                );
            }
        }
    }
}

/// The loop over a tile multiplies tiles as the tile path wants it: element `(i, j)` is where
/// row `i` of the left tile and row `j` of the right tile meet.
pub proof fn tile_loop_is_exact<F: Fn(u32, u16, u16) -> u32>(
    left: [u16; 64],
    right: [u16; 64],
    mul_add: F,
    half: spec_fn(u16) -> int,
    wide: spec_fn(u32) -> int,
    made: [u32; 64],
    i: int,
    j: int,
)
    requires
        adds_exactly(mul_add, half, wide),
        call_ensures(vfwmadot_tile::<F>, (&left, &right, mul_add), made),
        0 <= i < 8,
        0 <= j < 8,
    ensures
        wide(made[8 * i + j]) == crate::backend::sums::sum_of(
            |d: int| half(left[8 * i + d]) * half(right[8 * j + d]),
            8,
        ),
{
    let index = 8 * i + j;
    in_tile(i, j);
    let met = tile_pairs(left@, right@, index, 8);
    assert(summed(mul_add, 0, met, made[index]));
    exact_sum(mul_add, half, wide, 0, met, made[index]);
    crate::backend::sums::sums_agree(
        |d: int| half(met[d].0) * half(met[d].1),
        |d: int| half(left[8 * i + d]) * half(right[8 * j + d]),
        8,
    );
}

} // verus!
