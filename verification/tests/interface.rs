//! The interface types and the graphs that are built from them.

use k3_hera::bytes::{join_halves, high_half, low_half, read_words, words_to_bytes};
use k3_hera::uabi::builder::GraphManager;
use k3_hera::uabi::control::K3AiChannelBuildParam;
use k3_hera::uabi::dag::{has_cycle, kahn_order, AiGraphEdge, AiGraphNodeId};
use k3_hera::uabi::desc::{
    ggml_quant_tensor_size_bytes, tensor_size_bytes, AiDtype, AiKernelDesc, AiTensorDesc,
    AiTensorFormat, AiTensorLayout,
};
use k3_hera::uabi::error::{AiCompletion, AiRuntimeErr, BackendErr, KnAiRuntimeErr, SchedulerErr};
use k3_hera::uabi::graph::{
    checked_section, AiGraphBuildError, AiGraphParseError, AiGraphParser, GraphSection,
};
use k3_hera::uabi::kernel::{AiTargetHint, KernelOp};
use k3_hera::uabi::kernelattr::{InlineAttr, MatMulAttr, SoftmaxAttr, TransposeAttr};
use k3_hera::uabi::node::{AiGraphHeader, AiGraphNode, AiGraphSubmitEntry, GraphSubmitKind};
use k3_hera::uabi::types::{
    AbiTypeError, ByteOffset, ByteSize, DimSize, FloatBits, OpFlags, TensorAxis, TensorCount,
    TensorFlags, UserToken, UserVa,
};
use k3_hera::uabi::version::{abi_version, hash_bytes, hash_file, source_hash, FNV_OFFSET};

#[test]
fn nonzero_address_rejects_zero() {
    assert_eq!(UserVa::try_nonzero(0), Err(AbiTypeError::Zero));
    assert_eq!(UserVa::try_nonzero(0x1000).unwrap().get(), 0x1000);
}

#[test]
fn count_under_max_checks_limit() {
    assert_eq!(TensorCount::new(2).try_under_max(8).unwrap(), 2);
    assert_eq!(
        TensorCount::new(9).try_under_max(8),
        Err(AbiTypeError::ExceedsMax)
    );
}

#[test]
fn tensor_count_checked_total_rejects_overflow() {
    assert_eq!(
        TensorCount::new(2)
            .checked_total(TensorCount::new(1))
            .unwrap(),
        3
    );
    assert_eq!(
        TensorCount::new(u32::MAX).checked_total(TensorCount::new(1)),
        Err(AbiTypeError::CountOverflow)
    );
}

#[test]
fn byte_size_try_as_usize_roundtrips_small_values() {
    assert_eq!(ByteSize::new(128).try_as_usize().unwrap(), 128);
}

#[test]
fn byte_offset_checked_range_rejects_out_of_range() {
    assert_eq!(ByteOffset::new(4).checked_range(8, 16).unwrap(), 4..12);
    assert_eq!(
        ByteOffset::new(12).checked_range(8, 16),
        Err(AbiTypeError::ExceedsMax)
    );
}

#[test]
fn build_parse_chain() {
    let mut graph = GraphManager::new();

    let a = graph
        .push_kernel_no_depend(AiKernelDesc::default())
        .unwrap();
    let b = graph
        .push_kernel_depend(a, AiKernelDesc::default())
        .unwrap();
    let _c = graph
        .push_kernel_depend(b, AiKernelDesc::default())
        .unwrap();

    let blob = graph.freeze().unwrap();
    let parsed = AiGraphParser::parse(blob.as_bytes()).unwrap();

    assert_eq!(parsed.header.node_count.get(), 3);
    assert_eq!(parsed.header.edge_count.get(), 2);
    assert_eq!(parsed.nodes[0].node_id.get(), 0);
    assert_eq!(parsed.edges[0].from_node.get(), 0);
    assert_eq!(parsed.edges[0].to_node.get(), 1);
}

#[test]
fn reject_bad_depend() {
    let mut graph = GraphManager::new();
    let err = graph
        .push_kernel_depend(AiGraphNodeId(99), AiKernelDesc::default())
        .unwrap_err();
    assert_eq!(err, AiGraphBuildError::InvalidDepend(AiGraphNodeId(99)));
}

#[test]
fn build_parse_join_and_fork() {
    let mut graph = GraphManager::new();

    let a = graph
        .push_kernel_no_depend(AiKernelDesc::default())
        .unwrap();
    let c = graph
        .push_kernel_no_depend(AiKernelDesc::default())
        .unwrap();
    let b = graph
        .push_kernel_depend_many(&[a, c], AiKernelDesc::default())
        .unwrap();
    let _d = graph
        .push_kernel_depend(b, AiKernelDesc::default())
        .unwrap();
    let _e = graph
        .push_kernel_depend(b, AiKernelDesc::default())
        .unwrap();

    let blob = graph.freeze().unwrap();
    let parsed = AiGraphParser::parse(blob.as_bytes()).unwrap();

    assert_eq!(parsed.header.node_count.get(), 5);
    assert_eq!(parsed.header.edge_count.get(), 4);
    assert_eq!(parsed.edges[0].from_node, a);
    assert_eq!(parsed.edges[0].to_node, b);
    assert_eq!(parsed.edges[1].from_node, c);
    assert_eq!(parsed.edges[1].to_node, b);
    assert_eq!(parsed.edges[2].from_node, b);
    assert_eq!(parsed.edges[3].from_node, b);
}

#[test]
fn reject_cycle_edge_insert() {
    let mut graph = GraphManager::new();

    let a = graph
        .push_kernel_no_depend(AiKernelDesc::default())
        .unwrap();
    let b = graph
        .push_kernel_depend(a, AiKernelDesc::default())
        .unwrap();

    let err = graph.push_edge_checked(b, a).unwrap_err();
    assert_eq!(err, AiGraphBuildError::CycleDetected);
}

#[test]
fn edges_to_unknown_nodes_are_refused() {
    let mut graph = GraphManager::new();
    let a = graph
        .push_kernel_no_depend(AiKernelDesc::default())
        .unwrap();
    assert_eq!(
        graph.push_edge_checked(a, AiGraphNodeId(7)),
        Err(AiGraphBuildError::InvalidDepend(AiGraphNodeId(7)))
    );
    assert_eq!(
        graph.push_edge_checked(a, a),
        Err(AiGraphBuildError::CycleDetected)
    );
}

#[test]
fn parsed_nodes_keep_their_kernels() {
    let mut attr = SoftmaxAttr::default();
    attr.axis = TensorAxis(-1);
    attr.scale = FloatBits(0x3f80_0000);
    attr.flags = OpFlags(SoftmaxAttr::HAS_MASK);
    let mut tensor = AiTensorDesc::default();
    tensor.user_va = UserVa(0x1234_5678_9abc_def0);
    tensor.size_bytes = ByteSize(96);
    let desc = AiKernelDesc::new(
        &attr,
        AiTargetHint(AiTargetHint::PREFER_CPU),
        TensorCount(1),
        TensorCount(1),
        &[tensor, tensor],
    );
    let mut graph = GraphManager::new();
    graph.push_kernel_no_depend(desc).unwrap();
    let blob = graph.freeze().unwrap();
    let parsed = AiGraphParser::parse(blob.as_bytes()).unwrap();
    let back = parsed.nodes[0].desc;
    assert_eq!(back.op, KernelOp(KernelOp::SOFTMAX));
    assert_eq!(back.target_hint, AiTargetHint(AiTargetHint::PREFER_CPU));
    assert_eq!(back.tensors[1].user_va, UserVa(0x1234_5678_9abc_def0));
    assert_eq!(back.tensors[1].size_bytes, ByteSize(96));
    assert_eq!(back.attr_size.get(), 64);
    assert_eq!(back.attr_inline, desc.attr_inline);
    let words = read_words(&back.attr_inline, 0, SoftmaxAttr::word_len());
    let read = SoftmaxAttr::from_words(&words);
    assert_eq!(read.axis, TensorAxis(-1));
    assert_eq!(read.scale, FloatBits(0x3f80_0000));
    assert_eq!(read.flags, OpFlags(1));
}

#[test]
fn damaged_graphs_are_refused() {
    let mut graph = GraphManager::new();
    graph
        .push_kernel_no_depend(AiKernelDesc::default())
        .unwrap();
    let blob = graph.freeze().unwrap();
    let good = blob.as_bytes().to_vec();
    assert_eq!(good.len(), 64 + 1728);

    assert_eq!(
        AiGraphParser::parse(&good[..10]).err(),
        Some(AiGraphParseError::TooSmall)
    );
    let mut bad = good.clone();
    bad[0] ^= 1;
    assert!(matches!(
        AiGraphParser::parse(&bad),
        Err(AiGraphParseError::BadMagic(_))
    ));
    let mut long = good.clone();
    long.push(0);
    assert_eq!(
        AiGraphParser::parse(&long).err(),
        Some(AiGraphParseError::SizeMismatch {
            header_size: ByteOffset(good.len() as u32),
            actual_size: good.len() + 1,
        })
    );
    let mut many = good.clone();
    many[12] = 2;
    assert!(matches!(
        AiGraphParser::parse(&many),
        Err(AiGraphParseError::SectionOutOfRange {
            section: GraphSection::Nodes,
            ..
        })
    ));
}

#[test]
fn sections_must_lie_in_the_graph() {
    assert_eq!(
        checked_section(GraphSection::Edges, 100, ByteOffset(28), 2, 8),
        Ok(28..44)
    );
    assert!(checked_section(GraphSection::Edges, 40, ByteOffset(28), 2, 8).is_err());
    assert_eq!(
        checked_section(GraphSection::Nodes, 40, ByteOffset(28), usize::MAX, 8),
        Err(AiGraphParseError::CountOverflow)
    );
}

#[test]
fn sorted_nodes_follow_the_edges() {
    let edge = |from: u32, to: u32| AiGraphEdge {
        from_node: AiGraphNodeId(from),
        to_node: AiGraphNodeId(to),
    };
    let edges = [edge(2, 0), edge(0, 1), edge(2, 1)];
    assert_eq!(kahn_order(3, &edges), vec![2, 0, 1]);
    assert!(!has_cycle(3, &edges));
    let cycle = [edge(0, 1), edge(1, 2), edge(2, 0)];
    assert!(kahn_order(3, &cycle).is_empty());
    assert!(has_cycle(3, &cycle));
}

#[test]
fn words_and_bytes_convert_both_ways() {
    let words = vec![0x0403_0201_u32, 0xffff_fffe];
    let bytes = words_to_bytes(&words);
    assert_eq!(bytes, vec![1, 2, 3, 4, 0xfe, 0xff, 0xff, 0xff]);
    assert_eq!(read_words(&bytes, 0, 2), words);
    let long = 0x0123_4567_89ab_cdef_u64;
    assert_eq!(low_half(long), 0x89ab_cdef);
    assert_eq!(high_half(long), 0x0123_4567);
    assert_eq!(join_halves(low_half(long), high_half(long)), long);
}

#[test]
fn submit_entries_and_receipts_survive_bytes() {
    let entry = AiGraphSubmitEntry::new(
        UserToken(5),
        UserVa(0x2000),
        ByteSize(64),
        GraphSubmitKind(GraphSubmitKind::GRAPH_SUBMIT),
    );
    let bytes = entry.to_le_byte().unwrap();
    assert_eq!(bytes.len(), 64);
    assert_eq!(bytes[4], 1);
    assert_eq!(&bytes[16..20], &[5, 0, 0, 0]);

    let receipt = AiCompletion {
        user_token: 9,
        failed_node_id: 3,
        status: 4,
        failed_node_err: 2,
        failed_node_op: 1,
        reserved: [0; 5],
    };
    let back = AiCompletion::from_bytes(&receipt.to_bytes()).unwrap();
    assert_eq!(back.user_token, 9);
    assert_eq!(back.failed_node_id, 3);
    assert_eq!(back.status, 4);
    assert_eq!(back.failed_node_err, 2);
    assert_eq!(back.failed_node_op, 1);
    assert!(AiCompletion::from_bytes(&[0; 15]).is_none());
}

#[test]
fn dense_sizes_and_strides() {
    let shape = [DimSize(2), DimSize(3), DimSize(4)];
    assert_eq!(tensor_size_bytes(&shape, 2), ByteSize(48));
    let desc = AiTensorDesc::from_user_buffer(
        UserVa(0x1000),
        ByteSize(48),
        AiDtype(AiDtype::F16),
        AiTensorFormat(AiTensorFormat::ANY),
        AiTensorLayout(AiTensorLayout::DENSE),
        &shape,
        TensorFlags(0),
    );
    assert_eq!(desc.ndim.get(), 3);
    assert_eq!(desc.stride_bytes[0].get(), 24);
    assert_eq!(desc.stride_bytes[1].get(), 8);
    assert_eq!(desc.stride_bytes[2].get(), 2);
    assert_eq!(desc.stride_bytes[3].get(), 0);
    let words = desc.to_words();
    assert_eq!(AiTensorDesc::from_words(&words).stride_bytes[1].get(), 8);
}

#[test]
fn block_sizes() {
    let q8 = AiDtype(AiDtype::Q8_0);
    assert_eq!(
        ggml_quant_tensor_size_bytes(q8, &[DimSize(64), DimSize(3)]),
        Some(ByteSize(204))
    );
    assert_eq!(ggml_quant_tensor_size_bytes(q8, &[DimSize(33)]), None);
    assert_eq!(
        ggml_quant_tensor_size_bytes(AiDtype(AiDtype::F32), &[DimSize(32)]),
        None
    );
    assert_eq!(q8.element_size_bytes(), None);
    assert!(q8.is_ggml_quant());
    assert_eq!(AiDtype(AiDtype::I64).element_size_bytes(), Some(8));
}

#[test]
fn attributes_survive_words() {
    let mut attr = TransposeAttr::default();
    attr.perm[0] = TensorAxis(2);
    attr.perm[7] = TensorAxis(-5);
    let words = attr.to_words();
    assert_eq!(words.len(), 16);
    assert_eq!(words[8], (-5_i32) as u32);
    let back = TransposeAttr::from_words(&words);
    assert_eq!(back.perm, attr.perm);
    assert_eq!(MatMulAttr::word_len(), 18);
}

#[test]
fn error_codes_are_stable() {
    assert_eq!(BackendErr::InvalidInput.code(), 1);
    assert_eq!(BackendErr::NullPointer.code(), 7);
    for code in 0..=u8::MAX {
        match BackendErr::from_u8(code) {
            Some(err) => assert_eq!(err.code(), code),
            None => assert!(code == 0 || code > 7),
        }
    }
    assert_eq!(BackendErr::UnsupportedOp.message(), "unsupported operation");
    assert_ne!(
        SchedulerErr::ParseFailed.code(),
        SchedulerErr::InvalidGraph.code()
    );
    assert_ne!(
        KnAiRuntimeErr::NoMemory.code(),
        KnAiRuntimeErr::BadAddress.code()
    );
    assert!(!AiRuntimeErr::AllocFailed.message().is_empty());
}

#[test]
fn hashing_in_parts_is_hashing_the_whole() {
    assert_eq!(hash_bytes(FNV_OFFSET, b"a"), 0xaf63_dc4c_8601_ec8c);
    let whole = hash_bytes(FNV_OFFSET, b"graph.rs");
    let parts = hash_bytes(hash_bytes(FNV_OFFSET, b"graph"), b".rs");
    assert_eq!(whole, parts);
    let files = [(b"a.rs".to_vec(), b"x".to_vec()), (b"b.rs".to_vec(), b"y".to_vec())];
    let mut hash = FNV_OFFSET;
    hash = hash_file(hash, b"a.rs", b"x");
    hash = hash_file(hash, b"b.rs", b"y");
    assert_eq!(source_hash(&files), hash);
    assert_eq!(abi_version(0x1_0000_0003), 2);
}

#[test]
fn channel_parameters() {
    let param = K3AiChannelBuildParam::new(0x8000, 4096, 2);
    assert_eq!(param.user_va, 0x8000);
    assert_eq!(param.size_bytes, 4096);
    assert_eq!(param.channel_count, 2);
    assert_eq!(param.reserved0, 0);
}

#[test]
fn headers_and_nodes_have_fixed_sizes() {
    let node = AiGraphNode::default();
    assert_eq!(node.to_words().len(), 432);
    let mut graph = GraphManager::new();
    graph
        .push_kernel_no_depend(AiKernelDesc::default())
        .unwrap();
    let blob = graph.freeze().unwrap();
    let header = AiGraphHeader::from_words(&read_words(blob.as_bytes(), 0, 7));
    assert_eq!(header.total_size.get() as usize, blob.as_bytes().len());
    assert_eq!(header.to_words(), read_words(blob.as_bytes(), 0, 7));
}

#[test]
fn the_smallest_ready_id_is_listed_first() {
    let edge = |from: u32, to: u32| AiGraphEdge {
        from_node: AiGraphNodeId(from),
        to_node: AiGraphNodeId(to),
    };
    assert_eq!(kahn_order(4, &[edge(1, 2), edge(0, 3)]), vec![0, 1, 2, 3]);
    assert_eq!(kahn_order(4, &[edge(3, 0)]), vec![1, 2, 3, 0]);
}

#[test]
fn graphs_built_by_pushes_freeze_with_upward_edges() {
    let mut graph = GraphManager::new();
    let a = graph
        .push_kernel_no_depend(AiKernelDesc::default())
        .unwrap();
    assert!(graph
        .push_kernel_depend(AiGraphNodeId(7), AiKernelDesc::default())
        .is_err());
    let b = graph
        .push_kernel_depend(a, AiKernelDesc::default())
        .unwrap();
    assert!(graph
        .push_kernel_depend_many(&[a, AiGraphNodeId(5)], AiKernelDesc::default())
        .is_err());
    let _c = graph
        .push_kernel_depend_many(&[a, b], AiKernelDesc::default())
        .unwrap();
    let blob = graph.freeze().unwrap();
    let parsed = AiGraphParser::parse(blob.as_bytes()).unwrap();
    let ids: Vec<u32> = parsed.nodes.iter().map(|node| node.node_id.get()).collect();
    assert_eq!(ids, vec![0, 1, 2]);
    let ends: Vec<(u32, u32)> = parsed
        .edges
        .iter()
        .map(|edge| (edge.from_node.get(), edge.to_node.get()))
        .collect();
    assert_eq!(ends, vec![(0, 1), (0, 2), (1, 2)]);
    assert_eq!(graph.freeze().unwrap().as_bytes(), blob.as_bytes());
}
