//! Requests of a tensor library that runs its graphs and matrix products on the device.

use crate::uabi::builder::GraphManager;
use crate::uabi::dag::AiGraphNodeId;
use crate::uabi::desc::{AiDtype, AiKernelDesc, AiTensorDesc};
use crate::uabi::kernel::AiTargetHint;
use crate::uabi::kernelattr::MatMulAttr;
use crate::uabi::types::{DimSize, ElemStride, OpFlags, TensorCount};
use vstd::prelude::*;

verus! {

/// What a request that was carried out returns.
pub const K3_GGML_OK: i32 = 1;

/// What a request that failed returns.
pub const K3_GGML_FAILED: i32 = 0;

/// The right matrix is stored with its axes swapped.
pub const MATMUL_RHS_TRANSPOSED: u32 = 2;

/// A product of two matrices of single-precision elements. Strides are counted in
/// elements.
#[derive(Clone, Copy, Debug)]
pub struct K3GgmlMatmulF32 {
    /// Address of the left matrix.
    pub lhs: u64,
    /// Address of the right matrix.
    pub rhs: u64,
    /// Address of the output.
    pub out: u64,
    /// Rows of the output.
    pub m: u32,
    /// Columns of the output.
    pub n: u32,
    /// Length of the reduced axis.
    pub k: u32,
    /// Step between rows of the left matrix.
    pub lhs_row_stride: u32,
    /// Step between columns of the left matrix.
    pub lhs_col_stride: u32,
    /// Step between rows of the right matrix.
    pub rhs_row_stride: u32,
    /// Step between columns of the right matrix.
    pub rhs_col_stride: u32,
    /// Step between rows of the output.
    pub out_row_stride: u32,
    /// Step between columns of the output.
    pub out_col_stride: u32,
    /// Transposition flags.
    pub flags: u32,
    /// Where to run.
    pub target_hint: u8,
}

/// Elements that a request reads and writes, gaps included.
#[derive(Clone, Copy, PartialEq, Eq, Debug)]
pub struct MatmulSpans {
    /// Elements from the start of the left matrix.
    pub lhs: u32,
    /// Elements from the start of the right matrix.
    pub rhs: u32,
    /// Elements from the start of the output.
    pub out: u32,
}

/// Why a graph is not run.
#[derive(Clone, Copy, PartialEq, Eq, Debug)]
pub enum GraphFault {
    /// Kernels are counted, but there is no list.
    NullNodes,
    /// A kernel has no operation.
    InvalidOp(usize),
}

/// Elements that a strided matrix spans, gaps included.
pub open spec fn span(rows: int, cols: int, row_stride: int, col_stride: int) -> int {
    if rows == 0 || cols == 0 {
        0
    } else {
        (rows - 1) * row_stride + (cols - 1) * col_stride + 1
    }
}

impl K3GgmlMatmulF32 {
    /// The right matrix is stored with its axes swapped.
    pub open spec fn swapped(self) -> bool {
        self.flags & MATMUL_RHS_TRANSPOSED != 0
    }

    /// Rows of the right matrix as it is stored.
    pub open spec fn rhs_rows(self) -> u32 {
        if self.swapped() {
            self.n
        } else {
            self.k
        }
    }

    /// Columns of the right matrix as it is stored.
    pub open spec fn rhs_cols(self) -> u32 {
        if self.swapped() {
            self.k
        } else {
            self.n
        }
    }

    /// The request makes sense: there are three matrices, none is empty, axes with more
    /// than one element have a stride, and flags and target are known.
    pub open spec fn valid(self) -> bool {
        &&& self.lhs != 0 && self.rhs != 0 && self.out != 0
        &&& self.m > 0 && self.n > 0 && self.k > 0
        &&& self.m > 1 ==> self.lhs_row_stride > 0
        &&& self.k > 1 ==> self.lhs_col_stride > 0
        &&& self.rhs_rows() > 1 ==> self.rhs_row_stride > 0
        &&& self.rhs_cols() > 1 ==> self.rhs_col_stride > 0
        &&& self.m > 1 ==> self.out_row_stride > 0
        &&& self.n > 1 ==> self.out_col_stride > 0
        &&& self.flags == 0 || self.flags == MATMUL_RHS_TRANSPOSED
        &&& AiTargetHint(self.target_hint).known()
    }

    /// Elements that the left matrix spans.
    pub open spec fn lhs_span(self) -> int {
        span(
            self.m as int,
            self.k as int,
            self.lhs_row_stride as int,
            self.lhs_col_stride as int,
        )
    }

    /// Elements that the right matrix spans.
    pub open spec fn rhs_span(self) -> int {
        span(
            self.rhs_rows() as int,
            self.rhs_cols() as int,
            self.rhs_row_stride as int,
            self.rhs_col_stride as int,
        )
    }

    /// Elements that the output spans.
    pub open spec fn out_span(self) -> int {
        span(
            self.m as int,
            self.n as int,
            self.out_row_stride as int,
            self.out_col_stride as int,
        )
    }

    /// Place of an element of the output.
    pub open spec fn out_place(self, row: int, col: int) -> int {
        row * self.out_row_stride + col * self.out_col_stride
    }
}

/// Every element of a strided matrix lies within its span, and the last one at its end.
pub proof fn elements_lie_in_span(
    rows: int,
    cols: int,
    row_stride: int,
    col_stride: int,
    row: int,
    col: int,
)
    requires
        0 <= row < rows,
        0 <= col < cols,
        row_stride >= 0,
        col_stride >= 0,
    ensures
        0 <= row * row_stride + col * col_stride < span(rows, cols, row_stride, col_stride),
        row == rows - 1 && col == cols - 1 ==> row * row_stride + col * col_stride + 1 == span(
            rows,
            cols,
            row_stride,
            col_stride,
        ),
{
    assert(0 <= row * row_stride <= (rows - 1) * row_stride) by (nonlinear_arith)
        requires
            0 <= row <= rows - 1,
            row_stride >= 0,
    ;
    assert(0 <= col * col_stride <= (cols - 1) * col_stride) by (nonlinear_arith)
        requires
            0 <= col <= cols - 1,
            col_stride >= 0,
    ;
}

/// Elements that a strided matrix spans, where they can be counted.
pub fn strided_len(rows: u32, cols: u32, row_stride: u32, col_stride: u32) -> (r: Option<usize>)
    ensures
        ({
            let len = span(rows as int, cols as int, row_stride as int, col_stride as int);
            match r {
                Some(v) => v == len,
                None => len > usize::MAX,
            }
        }),
{
    if rows == 0 || cols == 0 {
        return Some(0);
    }
    let last_row: usize = (rows - 1) as usize;
    let last_col: usize = (cols - 1) as usize;
    assert(0 <= last_row * row_stride) by (nonlinear_arith)
        requires
            last_row >= 0,
            row_stride >= 0,
    ;
    assert(0 <= last_col * col_stride) by (nonlinear_arith)
        requires
            last_col >= 0,
            col_stride >= 0,
    ;
    match (
        last_row.checked_mul(row_stride as usize),
        last_col.checked_mul(col_stride as usize),
    ) {
        (Some(down), Some(across)) => match down.checked_add(across) {
            Some(last) => last.checked_add(1),
            None => None,
        },
        _ => None,
    }
}

/// A length as an extent, where it fits.
pub fn usize_to_u32(value: usize) -> (r: Option<u32>)
    ensures
        match r {
            Some(v) => v == value,
            None => value > u32::MAX,
        },
{
    if value > u32::MAX as usize {
        None
    } else {
        Some(value as u32)
    }
}

/// Whether a request makes sense.
pub fn validate_request(req: &K3GgmlMatmulF32) -> (r: bool)
    ensures
        r == req.valid(),
{
    if req.lhs == 0 || req.rhs == 0 || req.out == 0 || req.m == 0 || req.n == 0 || req.k == 0 {
        return false;
    }
    let flags: u32 = req.flags;
    let swapped: bool = flags & MATMUL_RHS_TRANSPOSED != 0;
    if (req.m > 1 && req.lhs_row_stride == 0) || (req.k > 1 && req.lhs_col_stride == 0) || (req.n
        > 1 && req.rhs_row_stride == 0 && swapped) || (req.k > 1 && req.rhs_col_stride == 0
        && swapped) || (req.k > 1 && req.rhs_row_stride == 0 && !swapped) || (req.n > 1
        && req.rhs_col_stride == 0 && !swapped) || (req.m > 1 && req.out_row_stride == 0) || (req.n
        > 1 && req.out_col_stride == 0) {
        return false;
    }
    assert((flags & !2u32 != 0) == !(flags == 0 || flags == 2u32)) by (bit_vector);
    if flags & !MATMUL_RHS_TRANSPOSED != 0 {
        return false;
    }
    AiTargetHint(req.target_hint).is_known()
}

/// Checks a request and counts the elements that it reads and writes.
pub fn plan_matmul(req: &K3GgmlMatmulF32) -> (r: Option<MatmulSpans>)
    ensures
        match r {
            Some(spans) => {
                &&& req.valid()
                &&& spans.lhs == req.lhs_span()
                &&& spans.rhs == req.rhs_span()
                &&& spans.out == req.out_span()
            },
            None => {
                ||| !req.valid()
                ||| req.lhs_span() > u32::MAX
                ||| req.rhs_span() > u32::MAX
                ||| req.out_span() > u32::MAX
            },
        },
{
    if !validate_request(req) {
        return None;
    }
    let lhs_len: usize = strided_len(req.m, req.k, req.lhs_row_stride, req.lhs_col_stride)?;
    let (rows, cols) = if req.flags & MATMUL_RHS_TRANSPOSED != 0 {
        (req.n, req.k)
    } else {
        (req.k, req.n)
    };
    let rhs_len: usize = strided_len(rows, cols, req.rhs_row_stride, req.rhs_col_stride)?;
    let out_len: usize = strided_len(req.m, req.n, req.out_row_stride, req.out_col_stride)?;
    let lhs: u32 = usize_to_u32(lhs_len)?;
    let rhs: u32 = usize_to_u32(rhs_len)?;
    let out: u32 = usize_to_u32(out_len)?;
    Some(MatmulSpans { lhs, rhs, out })
}

/// The words of the kernel that carries out a request.
pub open spec fn matmul_words(req: K3GgmlMatmulF32) -> Seq<u32> {
    seq![
        req.m,
        req.n,
        req.k,
        0,
        req.lhs_row_stride,
        req.lhs_col_stride,
        0,
        req.rhs_row_stride,
        req.rhs_col_stride,
        0,
        req.out_row_stride,
        req.out_col_stride,
        0,
        req.flags,
        AiDtype::F32,
        0,
        0,
        0,
    ]
}

/// The kernel that carries out a request, on copies of its matrices.
pub fn describe_matmul(
    req: &K3GgmlMatmulF32,
    lhs: AiTensorDesc,
    rhs: AiTensorDesc,
    out: AiTensorDesc,
) -> (r: AiKernelDesc)
    ensures
        r.describes(
            crate::uabi::kernel::KernelOp(crate::uabi::kernel::KernelOp::MAT_MUL),
            matmul_words(*req),
            AiTargetHint(req.target_hint),
            TensorCount(2),
            TensorCount(1),
            seq![lhs, rhs, out],
        ),
{
    let mut attr = MatMulAttr::default();
    attr.m = DimSize(req.m);
    attr.n = DimSize(req.n);
    attr.k = DimSize(req.k);
    attr.lhs_row_stride = ElemStride(req.lhs_row_stride);
    attr.lhs_col_stride = ElemStride(req.lhs_col_stride);
    attr.rhs_row_stride = ElemStride(req.rhs_row_stride);
    attr.rhs_col_stride = ElemStride(req.rhs_col_stride);
    attr.out_row_stride = ElemStride(req.out_row_stride);
    attr.out_col_stride = ElemStride(req.out_col_stride);
    attr.flags = OpFlags(req.flags);
    attr.accum_dtype = AiDtype(AiDtype::F32);
    assert(crate::uabi::kernelattr::InlineAttr::words(attr) =~= matmul_words(*req));
    let tensors: Vec<AiTensorDesc> = vec![lhs, rhs, out];
    assert(tensors@ =~= seq![lhs, rhs, out]);
    AiKernelDesc::new(
        &attr,
        AiTargetHint(req.target_hint),
        TensorCount(2),
        TensorCount(1),
        &tensors,
    )
}

/// Some element of the first `rows` rows, or of the first `cols` elements of the next row,
/// lies here.
pub open spec fn covers(req: K3GgmlMatmulF32, rows: int, cols: int, place: int) -> bool {
    exists|row: int, col: int|
        #![trigger req.out_place(row, col)]
        {
            &&& 0 <= row <= rows
            &&& 0 <= col < (if row < rows {
                req.n as int
            } else {
                cols
            })
            &&& place == req.out_place(row, col)
        }
}

/// Copies the elements of the output, and leaves the gaps between them alone.
pub fn copy_output(req: &K3GgmlMatmulF32, src: &[u32], dst: &mut [u32])
    requires
        src@.len() == req.out_span(),
        old(dst)@.len() == req.out_span(),
    ensures
        final(dst)@.len() == old(dst)@.len(),
        forall|i: int|
            0 <= i < src@.len() ==> #[trigger] final(dst)@[i] == (if covers(
                *req,
                req.m as int,
                0,
                i,
            ) {
                src@[i]
            } else {
                old(dst)@[i]
            }),
{
    let ghost before = dst@;
    let total: usize = src.len();
    let mut row: usize = 0;
    while row < req.m as usize
        invariant
            row <= req.m,
            total == src@.len(),
            src@.len() == req.out_span(),
            dst@.len() == src@.len(),
            before.len() == src@.len(),
            forall|i: int|
                0 <= i < src@.len() ==> #[trigger] dst@[i] == (if covers(
                    *req,
                    row as int,
                    0,
                    i,
                ) {
                    src@[i]
                } else {
                    before[i]
                }),
        decreases req.m - row,
    {
        let mut col: usize = 0;
        while col < req.n as usize
            invariant
                row < req.m,
                col <= req.n,
                total == src@.len(),
                src@.len() == req.out_span(),
                dst@.len() == src@.len(),
                before.len() == src@.len(),
                forall|i: int|
                    0 <= i < src@.len() ==> #[trigger] dst@[i] == (if covers(
                        *req,
                        row as int,
                        col as int,
                        i,
                    ) {
                        src@[i]
                    } else {
                        before[i]
                    }),
            decreases req.n - col,
        {
            proof {
                elements_lie_in_span(
                    req.m as int,
                    req.n as int,
                    req.out_row_stride as int,
                    req.out_col_stride as int,
                    row as int,
                    col as int,
                );
                assert(0 <= row * req.out_row_stride) by (nonlinear_arith)
                    requires
                        row >= 0,
                        req.out_row_stride >= 0,
                ;
                assert(0 <= col * req.out_col_stride) by (nonlinear_arith)
                    requires
                        col >= 0,
                        req.out_col_stride >= 0,
                ;
            }
            let ghost now = dst@;
            let place: usize = row * (req.out_row_stride as usize) + col * (
            req.out_col_stride as usize);
            dst[place] = src[place];
            proof {
                assert(place == req.out_place(row as int, col as int));
                assert forall|i: int| 0 <= i < src@.len() implies #[trigger] dst@[i] == (if covers(
                    *req,
                    row as int,
                    col + 1,
                    i,
                ) {
                    src@[i]
                } else {
                    before[i]
                }) by {
                    one_more_covered(*req, row as int, col as int, i);
                    assert(now[i] == (if covers(*req, row as int, col as int, i) {
                        src@[i]
                    } else {
                        before[i]
                    }));
                }
            }
            col = col + 1;
        }
        assert forall|i: int| 0 <= i < src@.len() implies #[trigger] dst@[i] == (if covers(
            *req,
            row + 1,
            0,
            i,
        ) {
            src@[i]
        } else {
            before[i]
        }) by {
            whole_row_covered(*req, row as int, i);
        }
        row = row + 1;
    }
}

proof fn one_more_covered(req: K3GgmlMatmulF32, row: int, col: int, place: int)
    requires
        0 <= row < req.m,
        0 <= col < req.n,
    ensures
        covers(req, row, col + 1, place) <==> covers(req, row, col, place) || place
            == req.out_place(row, col),
{
    if place == req.out_place(row, col) {
        assert(covers(req, row, col + 1, place));
    }
}

proof fn whole_row_covered(req: K3GgmlMatmulF32, row: int, place: int)
    requires
        0 <= row < req.m,
    ensures
        covers(req, row + 1, 0, place) <==> covers(req, row, req.n as int, place),
{
}

/// What is wrong with a list of kernels, where anything is.
pub open spec fn graph_fault(nodes: Option<Seq<AiKernelDesc>>, node_count: u32) -> Option<
    GraphFault,
> {
    if node_count == 0 {
        None
    } else {
        match nodes {
            None => Some(GraphFault::NullNodes),
            Some(list) => first_invalid(list, 0),
        }
    }
}

/// The first kernel, from `from` on, that has no operation.
pub open spec fn first_invalid(nodes: Seq<AiKernelDesc>, from: int) -> Option<GraphFault>
    decreases nodes.len() - from,
{
    if from >= nodes.len() {
        None
    } else if nodes[from].op.0 == 0 {
        Some(GraphFault::InvalidOp(from as usize))
    } else {
        first_invalid(nodes, from + 1)
    }
}

/// The graph in which every kernel waits for the one before it.
pub open spec fn is_chain(graph: GraphManager, nodes: Seq<AiKernelDesc>, n: int) -> bool {
    &&& graph.wf()
    &&& graph.nodes().len() == n
    &&& forall|i: int|
        0 <= i < n ==> {
            &&& (#[trigger] graph.nodes()[i]).node_id.0 == i
            &&& graph.nodes()[i].desc == nodes[i]
            &&& graph.nodes()[i].state == (crate::uabi::node::AiGraphState {
                complete: 0,
                error_flag: 0,
            })
        }
    &&& graph.edges().len() == (if n == 0 {
        0
    } else {
        n - 1
    })
    &&& forall|i: int|
        0 <= i < graph.edges().len() ==> {
            &&& (#[trigger] graph.edges()[i]).from_node.0 == i
            &&& graph.edges()[i].to_node.0 == i + 1
        }
}

/// Turns a list of kernels into a graph in which every kernel waits for the one before
/// it. Nothing is to be run where the count is zero.
pub fn chain_graph(nodes: Option<&Vec<AiKernelDesc>>, node_count: u32) -> (r: Result<
    Option<GraphManager>,
    GraphFault,
>)
    requires
        nodes matches Some(list) ==> list@.len() == node_count,
    ensures
        ({
            let list = match nodes {
                Some(list) => Some(list@),
                None => None,
            };
            match r {
                Ok(None) => node_count == 0,
                Ok(Some(graph)) => {
                    &&& node_count > 0
                    &&& graph_fault(list, node_count) is None
                    &&& list matches Some(kernels) && is_chain(graph, kernels, node_count as int)
                },
                Err(fault) => graph_fault(list, node_count) == Some(fault),
            }
        }),
{
    if node_count == 0 {
        return Ok(None);
    }
    let list: &Vec<AiKernelDesc> = match nodes {
        Some(list) => list,
        None => {
            return Err(GraphFault::NullNodes);
        },
    };
    let mut graph = GraphManager::new();
    let mut i: usize = 0;
    while i < list.len()
        invariant
            i <= list@.len() == node_count,
            node_count > 0,
            nodes == Some(list),
            is_chain(graph, list@, i as int),
            first_invalid(list@, 0) == first_invalid(list@, i as int),
        decreases list@.len() - i,
    {
        let desc: AiKernelDesc = list[i];
        if desc.op.0 == 0 {
            return Err(GraphFault::InvalidOp(i));
        }
        let ghost before = graph;
        if i == 0 {
            match graph.push_kernel_no_depend(desc) {
                Ok(_) => {},
                Err(_) => {
                    assert(false);
                },
            }
        } else {
            let tail = AiGraphNodeId(i as u32 - 1);
            let ghost depends = seq![tail];
            assert(before.has_node(depends[0]));
            match graph.push_kernel_depend(tail, desc) {
                Ok(_) => {},
                Err(_) => {
                    assert(false);
                },
            }
        }
        assert(is_chain(graph, list@, i + 1));
        i = i + 1;
    }
    Ok(Some(graph))
}

/// The return code of a request.
pub fn return_code(ok: bool) -> (r: i32)
    ensures
        r == (if ok {
            K3_GGML_OK
        } else {
            K3_GGML_FAILED
        }),
{
    if ok {
        K3_GGML_OK
    } else {
        K3_GGML_FAILED
    }
}


/// The kernel of a request multiplies the matrices of the request: their extents, and their
/// strides by row and by column, as single matrices.
pub proof fn described_product_is_the_request(req: K3GgmlMatmulF32)
    ensures
        ({
            let attr = <MatMulAttr as crate::uabi::kernelattr::InlineAttr>::of_words(
                matmul_words(req),
            );
            &&& attr.m.0 == req.m
            &&& attr.n.0 == req.n
            &&& attr.k.0 == req.k
            &&& attr.batch.0 <= 1
            &&& attr.lhs_row_stride.0 == req.lhs_row_stride
            &&& attr.lhs_col_stride.0 == req.lhs_col_stride
            &&& attr.rhs_row_stride.0 == req.rhs_row_stride
            &&& attr.rhs_col_stride.0 == req.rhs_col_stride
            &&& attr.out_row_stride.0 == req.out_row_stride
            &&& attr.out_col_stride.0 == req.out_col_stride
            &&& attr.flags.0 == req.flags
        }),
{
}

/// Copying the output copies every element of it, and nothing between the elements.
pub proof fn elements_are_covered(req: K3GgmlMatmulF32, place: int)
    ensures
        covers(req, req.m as int, 0, place) <==> exists|row: int, col: int|
            0 <= row < req.m && 0 <= col < req.n && place == #[trigger] (row * req.out_row_stride)
                + #[trigger] (col * req.out_col_stride),
{
    if covers(req, req.m as int, 0, place) {
        let (row, col) = choose|row: int, col: int|
            #![trigger req.out_place(row, col)]
            {
                &&& 0 <= row <= req.m
                &&& 0 <= col < (if row < req.m {
                    req.n as int
                } else {
                    0
                })
                &&& place == req.out_place(row, col)
            };
        assert(place == row * req.out_row_stride + col * req.out_col_stride);
    }
    if exists|row: int, col: int|
        0 <= row < req.m && 0 <= col < req.n && place == #[trigger] (row * req.out_row_stride)
            + #[trigger] (col * req.out_col_stride) {
        let (row, col) = choose|row: int, col: int|
            0 <= row < req.m && 0 <= col < req.n && place == #[trigger] (row * req.out_row_stride)
                + #[trigger] (col * req.out_col_stride);
        assert(place == req.out_place(row, col));
    }
}


/// The elements of the right matrix lie within its span, however it is stored: with its axes
/// swapped, the element of row `p` and column `c` is stored in row `c` and column `p`.
pub proof fn right_matrix_lies_in_its_span(req: K3GgmlMatmulF32, p: int, c: int)
    requires
        0 <= p < req.k,
        0 <= c < req.n,
    ensures
        ({
            let place = if req.swapped() {
                c * req.rhs_row_stride + p * req.rhs_col_stride
            } else {
                p * req.rhs_row_stride + c * req.rhs_col_stride
            };
            0 <= place < req.rhs_span()
        }),
        req.rhs_rows() * req.rhs_cols() == req.k * req.n,
{
    if req.swapped() {
        elements_lie_in_span(
            req.n as int,
            req.k as int,
            req.rhs_row_stride as int,
            req.rhs_col_stride as int,
            c,
            p,
        );
        assert(req.n * req.k == req.k * req.n) by (nonlinear_arith);
    } else {
        elements_lie_in_span(
            req.k as int,
            req.n as int,
            req.rhs_row_stride as int,
            req.rhs_col_stride as int,
            p,
            c,
        );
    }
}

/// The right matrix counts as swapped where its flag is set, whatever else is.
pub proof fn swapping_goes_by_its_bit(req: K3GgmlMatmulF32)
    ensures
        req.swapped() == (req.flags / 2 % 2 == 1),
{
    let flags = req.flags;
    assert((flags & 2 != 0) == (flags / 2 % 2 == 1)) by (bit_vector);
}

/// A list of kernels runs one after another: the order of a chain is that of the list.
pub proof fn chains_run_in_order(
    graph: GraphManager,
    nodes: Seq<AiKernelDesc>,
    n: int,
    order: Seq<usize>,
    p: int,
)
    requires
        is_chain(graph, nodes, n),
        crate::uabi::dag::release_order(graph.edges(), n, order),
        order.len() == n,
        0 <= p < n,
    ensures
        order[p] == p,
        graph.nodes()[order[p] as int].desc == nodes[p],
{
    crate::uabi::dag::upward_graphs_run_by_id(graph.edges(), n, order, p);
    assert(graph.nodes()[p].desc == nodes[p]);
}

/// Every kernel of a chain but the first waits for the one before it.
pub proof fn chained_kernels_wait(graph: GraphManager, nodes: Seq<AiKernelDesc>, n: int, i: int)
    requires
        is_chain(graph, nodes, n),
        1 <= i < n,
    ensures
        crate::uabi::dag::adjacent(graph.edges(), i - 1, i),
{
    let edges = graph.edges();
    assert(edges[i - 1].from_node.0 == i - 1);
    assert(crate::uabi::dag::source(edges, i - 1) == i - 1);
    assert(crate::uabi::dag::target(edges, i - 1) == i);
}


/// A list of kernels is accepted where every one of them has an operation, and the first
/// without one is named.
pub proof fn first_kernel_without_operation_is_named(nodes: Seq<AiKernelDesc>, from: int)
    requires
        0 <= from <= nodes.len() <= usize::MAX,
    ensures
        match first_invalid(nodes, from) {
            None => forall|i: int| from <= i < nodes.len() ==> (#[trigger] nodes[i]).op.0 != 0,
            Some(GraphFault::InvalidOp(at)) => {
                &&& from <= at < nodes.len()
                &&& nodes[at as int].op.0 == 0
                &&& forall|i: int| from <= i < at ==> (#[trigger] nodes[i]).op.0 != 0
            },
            Some(_) => false,
        },
    decreases nodes.len() - from,
{
    if from < nodes.len() && nodes[from].op.0 != 0 {
        first_kernel_without_operation_is_named(nodes, from + 1);
    }
}

} // verus!
