//! Requests of a tensor library.

use k3_hera::bridge::{
    chain_graph, copy_output, describe_matmul, plan_matmul, return_code, strided_len,
    usize_to_u32, validate_request, GraphFault, K3GgmlMatmulF32,
};
use k3_hera::uabi::desc::{AiKernelDesc, AiTensorDesc};
use k3_hera::uabi::graph::AiGraphParser;
use k3_hera::uabi::kernel::{AiTargetHint, KernelOp};

fn request() -> K3GgmlMatmulF32 {
    K3GgmlMatmulF32 {
        lhs: 0x1000,
        rhs: 0x2000,
        out: 0x3000,
        m: 2,
        n: 3,
        k: 4,
        lhs_row_stride: 4,
        lhs_col_stride: 1,
        rhs_row_stride: 3,
        rhs_col_stride: 1,
        out_row_stride: 5,
        out_col_stride: 1,
        flags: 0,
        target_hint: AiTargetHint::AUTO,
    }
}

#[test]
fn strided_matrices_span_their_gaps() {
    assert_eq!(strided_len(2, 3, 5, 1), Some(8));
    assert_eq!(strided_len(0, 3, 5, 1), Some(0));
    assert_eq!(strided_len(1, 1, 0, 0), Some(1));
    assert_eq!(usize_to_u32(7), Some(7));
    assert_eq!(usize_to_u32(0x1_0000_0000), None);
}

#[test]
fn requests_are_checked() {
    let good = request();
    assert!(validate_request(&good));
    let spans = plan_matmul(&good).unwrap();
    assert_eq!((spans.lhs, spans.rhs, spans.out), (8, 12, 8));
    let mut swapped = good;
    swapped.flags = 2;
    swapped.rhs_row_stride = 4;
    assert_eq!(plan_matmul(&swapped).unwrap().rhs, 12);
    let mut bad = good;
    bad.rhs = 0;
    assert!(!validate_request(&bad));
    let mut bad = good;
    bad.flags = 1;
    assert!(!validate_request(&bad));
    let mut bad = good;
    bad.out_row_stride = 0;
    assert!(!validate_request(&bad));
    let mut bad = good;
    bad.target_hint = 9;
    assert!(plan_matmul(&bad).is_none());
    let mut bad = good;
    bad.lhs_row_stride = u32::MAX;
    assert!(plan_matmul(&bad).is_none());
}

#[test]
fn only_the_elements_of_the_output_are_copied() {
    let req = request();
    let src: Vec<u32> = (100..108).collect();
    let mut dst = vec![0_u32; 8];
    copy_output(&req, &src, &mut dst);
    assert_eq!(dst, vec![100, 101, 102, 0, 0, 105, 106, 107]);
}

#[test]
fn a_request_becomes_a_kernel() {
    let req = request();
    let tensor = AiTensorDesc::default();
    let desc = describe_matmul(&req, tensor, tensor, tensor);
    assert_eq!(desc.op, KernelOp(KernelOp::MAT_MUL));
    assert_eq!(desc.attr_size.get(), 72);
    assert_eq!(desc.attr_inline[0], 2);
    assert_eq!(desc.attr_inline[4], 3);
    assert_eq!(desc.attr_inline[8], 4);
    assert_eq!(desc.attr_inline[40], 5);
}

#[test]
fn kernels_are_chained_in_order() {
    let mut desc = AiKernelDesc::default();
    desc.op = KernelOp(KernelOp::ADD);
    let list = vec![desc, desc, desc];
    let graph = match chain_graph(Some(&list), 3) {
        Ok(Some(graph)) => graph,
        _ => panic!("graph should be built"),
    };
    let blob = match graph.freeze() {
        Ok(blob) => blob,
        Err(_) => panic!("graph should be frozen"),
    };
    let parsed = AiGraphParser::parse(blob.as_bytes()).unwrap();
    assert_eq!(parsed.nodes.len(), 3);
    assert_eq!(parsed.edges.len(), 2);
    assert_eq!(parsed.edges[1].from_node.get(), 1);
    assert_eq!(parsed.edges[1].to_node.get(), 2);
    assert!(matches!(chain_graph(None, 0), Ok(None)));
    assert_eq!(chain_graph(None, 2).err(), Some(GraphFault::NullNodes));
    let list = vec![desc, AiKernelDesc::default()];
    assert_eq!(
        chain_graph(Some(&list), 2).err(),
        Some(GraphFault::InvalidOp(1))
    );
    assert_eq!(return_code(true), 1);
    assert_eq!(return_code(false), 0);
}
