//! Tensors, the channel to the device, and requests of an inference engine.

use k3_hera::runtime::ort::{
    execute_on_device, k3_ort_abi_version, k3_ort_run_node, k3_ort_status_message, run_node,
    validate_tensor, K3OrtRunNode, K3OrtStatus, K3OrtTensor, OrtCounters,
};
use k3_hera::runtime::tensor::TensorManager;
use k3_hera::runtime::uring::{
    completion_message, match_completion, submit_graph, submit_outcome, submit_payload,
    wait_graph_complete, BuildAction, BuildEvent, ChannelBuild, ChannelMemory, UringChannel,
};
use k3_hera::uabi::builder::GraphManager;
use k3_hera::uabi::desc::{AiDtype, AiKernelDesc, AiTensorFormat, AiTensorLayout};
use k3_hera::uabi::error::{AiCompletion, AiRuntimeErr};
use k3_hera::uabi::graph::AiGraphParser;
use k3_hera::uabi::kernel::{AiTargetHint, KernelOp};
use k3_hera::uabi::kernelattr::{InlineAttr, MatMulAttr};
use k3_hera::uabi::types::{DimSize, TensorCount, UserToken};

#[test]
fn borrowed_tensor_view_uses_the_original_address() {
    let manager = TensorManager::new();
    let mut storage = [1.0_f32, 2.0_f32];
    let address = storage.as_mut_ptr() as u64;

    let desc = manager
        .borrow_tensor_with_layout(
            address,
            core::mem::size_of_val(&storage),
            AiDtype(AiDtype::F32),
            AiTensorFormat(AiTensorFormat::ANY),
            AiTensorLayout(AiTensorLayout::DENSE),
            &[2],
            0,
        )
        .expect("borrowed tensor view should be valid");

    assert_eq!(desc.user_va.get(), address);
    storage[1] = 7.0;
    assert_eq!(storage, [1.0, 7.0]);

    storage[0] = 9.0;
    assert_eq!(storage, [9.0, 7.0]);
}

#[test]
fn borrowed_buffers_must_be_large_enough() {
    let manager = TensorManager::new();
    let borrow = |address: u64, size: usize, dtype: u32, shape: &[u32]| {
        manager
            .borrow_tensor_with_layout(
                address,
                size,
                AiDtype(dtype),
                AiTensorFormat(AiTensorFormat::ANY),
                AiTensorLayout(AiTensorLayout::DENSE),
                shape,
                0,
            )
            .err()
    };
    assert_eq!(
        borrow(0x1000, 7, AiDtype::F32, &[2]),
        Some(AiRuntimeErr::InvalidInput)
    );
    assert_eq!(
        borrow(0, 8, AiDtype::F32, &[2]),
        Some(AiRuntimeErr::InvalidInput)
    );
    assert_eq!(
        borrow(0x1000, 64, AiDtype::Q8_0, &[32]),
        Some(AiRuntimeErr::InvalidInput)
    );
    assert_eq!(
        borrow(0x1000, 64, AiDtype::F32, &[1; 9]),
        Some(AiRuntimeErr::InvalidShape)
    );
    assert_eq!(borrow(0x1000, 8, AiDtype::F32, &[2]), None);
}

#[test]
fn allocated_tensors_start_as_zeros() {
    let manager = TensorManager::new();
    let mut tensor = match manager.alloc_tensor(AiDtype(AiDtype::F16), &[3, 2]) {
        Ok(tensor) => tensor,
        Err(_) => panic!("allocation should succeed"),
    };
    assert_eq!(tensor.as_slice(), &[0; 12]);
    assert_eq!(tensor.user_va().get(), tensor.as_slice().as_ptr() as u64);
    assert_eq!(tensor.shape(), &[DimSize(3), DimSize(2)]);
    tensor.as_mut_slice()[3] = 9;
    assert_eq!(tensor.as_slice()[3], 9);
    assert_eq!(
        manager.alloc_tensor(AiDtype(AiDtype::F16), &[3, 0]).err(),
        Some(AiRuntimeErr::AllocFailed)
    );
    let blocks = match manager.alloc_ggml_quant_tensor(AiDtype(AiDtype::Q3_K), &[512, 2], 0) {
        Ok(tensor) => tensor,
        Err(_) => panic!("allocation should succeed"),
    };
    assert_eq!(blocks.size_bytes().get(), 440);
    assert_eq!(
        manager
            .alloc_ggml_quant_tensor(AiDtype(AiDtype::Q3_K), &[100], 0)
            .err(),
        Some(AiRuntimeErr::InvalidShape)
    );
}

fn request() -> K3OrtRunNode {
    let tensor = K3OrtTensor {
        data: 0,
        size_bytes: 0,
        dtype: 0,
        format: 0,
        layout: 0,
        ndim: 0,
        flags: 0,
        reserved0: [0; 3],
        shape: [0; 8],
        stride_bytes: [0; 8],
    };
    K3OrtRunNode {
        op: KernelOp::SIGMOID,
        target_hint: AiTargetHint::AUTO,
        reserved0: [0; 2],
        input_count: 1,
        output_count: 1,
        tensors: [tensor; 8],
        attr_size: 0,
        attr_inline: [0; 128],
    }
}

fn dense_tensor(values: &mut [f32], shape: &[u32]) -> K3OrtTensor {
    let mut tensor = request().tensors[0];
    tensor.data = values.as_mut_ptr() as u64;
    tensor.size_bytes = core::mem::size_of_val(values) as u64;
    tensor.dtype = AiDtype::F32;
    tensor.format = AiTensorFormat::ANY;
    tensor.layout = AiTensorLayout::DENSE;
    tensor.ndim = shape.len() as u32;
    let mut stride = 4_u64;
    for axis in (0..shape.len()).rev() {
        tensor.shape[axis] = shape[axis];
        tensor.stride_bytes[axis] = stride;
        stride *= u64::from(shape[axis]);
    }
    tensor
}

#[test]
fn abi_layout_matches_c_header_contract() {
    assert_eq!(K3OrtTensor::SIZE, 136);
    assert_eq!(K3OrtTensor::ALIGN, 8);
    assert_eq!(K3OrtTensor::SHAPE_OFFSET, 36);
    assert_eq!(K3OrtTensor::STRIDE_OFFSET, 72);
    assert_eq!(K3OrtRunNode::SIZE, 1240);
    assert_eq!(K3OrtRunNode::TENSORS_OFFSET, 16);
    assert_eq!(K3OrtRunNode::ATTR_OFFSET, 1108);
}

#[test]
fn null_request_has_stable_error() {
    assert_eq!(k3_ort_run_node(None).err(), Some(-1));
}

#[test]
fn rejects_invalid_counts_and_tensor_layout() {
    let mut req = request();
    req.input_count = 0;
    assert_eq!(run_node(&req).err(), Some(K3OrtStatus::InvalidCount));

    let mut input = [1.0_f32; 2];
    let mut output = [0.0_f32; 2];
    req.input_count = 1;
    req.tensors[0] = dense_tensor(&mut input, &[2]);
    req.tensors[1] = dense_tensor(&mut output, &[2]);
    req.tensors[0].layout = AiTensorLayout::STRIDED;
    assert_eq!(run_node(&req).err(), Some(K3OrtStatus::InvalidTensor));
}

#[test]
fn requests_become_kernels() {
    let mut input = [1.0_f32; 6];
    let mut output = [0.0_f32; 6];
    let mut req = request();
    req.tensors[0] = dense_tensor(&mut input, &[2, 3]);
    req.tensors[1] = dense_tensor(&mut output, &[2, 3]);
    req.op = KernelOp::ADD;
    req.attr_size = 4;
    req.attr_inline[0] = 0xaa;
    assert_eq!(validate_tensor(&req.tensors[0]), Ok(()));
    let desc = run_node(&req).unwrap();
    assert_eq!(desc.op, KernelOp(KernelOp::ADD));
    assert_eq!(desc.tensors[0].user_va.get(), input.as_ptr() as u64);
    assert_eq!(desc.tensors[1].shape[1], DimSize(3));
    assert_eq!(desc.attr_inline[0], 0xaa);

    req.op = 0;
    assert_eq!(run_node(&req).err(), Some(K3OrtStatus::Unsupported));
    req.op = KernelOp::ADD;
    req.attr_size = 129;
    assert_eq!(run_node(&req).err(), Some(K3OrtStatus::InvalidAttribute));
    req.attr_size = 0;
    req.tensors[0].size_bytes = 20;
    assert_eq!(run_node(&req).err(), Some(K3OrtStatus::InvalidTensor));
    assert_eq!(k3_ort_run_node(Some(&req)).err(), Some(K3OrtStatus::InvalidTensor.code()));
}

#[test]
fn requests_can_be_read_from_bytes() {
    let mut bytes = vec![0_u8; 1240];
    bytes[0] = KernelOp::MUL;
    bytes[4] = 2;
    bytes[8] = 1;
    bytes[16 + 36] = 5;
    bytes[1108] = 0x5a;
    let req = K3OrtRunNode::from_bytes(&bytes).unwrap();
    assert_eq!(req.op, KernelOp::MUL);
    assert_eq!(req.input_count, 2);
    assert_eq!(req.output_count, 1);
    assert_eq!(req.tensors[0].shape[0], 5);
    assert_eq!(req.attr_inline[0], 0x5a);
    assert!(K3OrtRunNode::from_bytes(&bytes[1..]).is_none());
}

#[test]
fn nodes_are_submitted_as_graphs_of_one() {
    let mut counters = OrtCounters::new();
    let token = counters.take_token();
    assert_eq!(counters.take_token(), token + 1);
    let (blob, entry) = execute_on_device(&AiKernelDesc::default(), token).unwrap();
    assert_eq!(entry.user_token.get(), token);
    assert_eq!(entry.graph_size.get() as usize, blob.as_bytes().len());
    let parsed = AiGraphParser::parse(blob.as_bytes()).unwrap();
    assert_eq!(parsed.nodes.len(), 1);
    counters.node_executed();
    assert_eq!(counters.k3_ort_executed_node_count(), 1);
}

#[test]
fn status_messages_are_stable() {
    assert_eq!(k3_ort_abi_version(), 1);
    assert_eq!(K3OrtStatus::Success.code(), 0);
    assert_eq!(K3OrtStatus::NullRequest.code(), -1);
    let mut seen = Vec::new();
    for code in -9..=1 {
        let text = k3_ort_status_message(code);
        assert!(!text.is_empty());
        seen.push(text);
    }
    assert_ne!(k3_ort_status_message(0), k3_ort_status_message(-1));
    assert_ne!(k3_ort_status_message(-7), k3_ort_status_message(-1));
}

#[test]
fn build_matmul_kernel_desc() {
    let tensor_manager = TensorManager::new();
    let lhs = tensor_manager.alloc_tensor(AiDtype(AiDtype::F32), &[3, 4]);
    let rhs = tensor_manager.alloc_tensor(AiDtype(AiDtype::F32), &[4, 3]);
    let output = tensor_manager.alloc_tensor(AiDtype(AiDtype::F32), &[3, 3]);

    let mut matmul_attr = MatMulAttr::default();
    matmul_attr.m = DimSize::new(3);
    matmul_attr.n = DimSize::new(3);
    matmul_attr.k = DimSize::new(4);
    matmul_attr.batch = DimSize::new(1);
    matmul_attr.accum_dtype = AiDtype(AiDtype::F32);
    let (lhs, rhs, output) = match (lhs, rhs, output) {
        (Ok(lhs), Ok(rhs), Ok(output)) => (lhs, rhs, output),
        _ => panic!("REASON"),
    };
    let tensors = [lhs.desc(), rhs.desc(), output.desc()];
    let matmul_desc = AiKernelDesc::new(
        &matmul_attr,
        AiTargetHint(AiTargetHint::AUTO),
        TensorCount::new(2),
        TensorCount::new(1),
        &tensors,
    );
    let mut graph = GraphManager::new();
    graph
        .push_kernel_no_depend(matmul_desc)
        .expect("matmul kernel graph build error");
    let submit_blob = match graph.freeze() {
        Ok(blob) => blob,
        Err(_) => panic!("matmul kernel graph build error"),
    };
    let submit_entry = submit_blob.submit_entry(UserToken::new(2));

    assert_eq!(matmul_desc.op, KernelOp(KernelOp::MAT_MUL));
    assert_eq!(matmul_desc.target_hint, AiTargetHint(AiTargetHint::AUTO));
    assert_eq!(matmul_desc.input_count.get(), 2);
    assert_eq!(matmul_desc.output_count.get(), 1);
    assert_eq!(
        matmul_desc.attr_size.get() as usize,
        4 * MatMulAttr::word_len()
    );
    assert_eq!(submit_entry.user_token.get(), 2);
    assert_ne!(matmul_desc.tensors[0].user_va.get(), 0);
    assert_ne!(matmul_desc.tensors[1].user_va.get(), 0);
    assert_ne!(matmul_desc.tensors[2].user_va.get(), 0);
    assert_eq!(matmul_desc.tensors[0].size_bytes.get(), 3 * 4 * 4);
    assert_eq!(matmul_desc.tensors[1].size_bytes.get(), 4 * 3 * 4);
    assert_eq!(matmul_desc.tensors[2].size_bytes.get(), 3 * 3 * 4);
}

fn channel() -> UringChannel {
    let memory = ChannelMemory {
        user_va: 0x10000,
        size_bytes: 8192,
    };
    let mut build = ChannelBuild::start(None);
    loop {
        let event = match build.action {
            BuildAction::LookupShared => BuildEvent::SharedMissing,
            BuildAction::OpenDevice => BuildEvent::DeviceOpen,
            BuildAction::MapShared => BuildEvent::Mapped(memory),
            BuildAction::Register(param) => {
                assert_eq!(param.user_va, 0x10000);
                assert_eq!(param.size_bytes, 8192);
                BuildEvent::Registered
            }
            BuildAction::Attach => BuildEvent::Attached,
            BuildAction::Done(channel) => return channel,
        };
        build = build.on_event(event).unwrap();
    }
}

#[test]
fn a_channel_is_built_step_by_step() {
    let built = channel();
    assert_eq!(built.shared.user_va, 0x10000);
    assert!(built.graph_sender);
    assert!(built.complete_reciver);
    let mut build = ChannelBuild::start(None);
    while build.action != BuildAction::OpenDevice {
        build = build.on_event(BuildEvent::SharedMissing).unwrap();
    }
    assert_eq!(
        build.on_event(BuildEvent::DeviceFailed).err(),
        Some(AiRuntimeErr::DeviceOpenFailed)
    );
}

#[test]
fn submissions_travel_as_messages() {
    let mut graph = GraphManager::new();
    graph
        .push_kernel_no_depend(AiKernelDesc::default())
        .unwrap();
    let blob = graph.freeze().unwrap();
    let entry = blob.submit_entry(UserToken(42));
    let message = submit_graph(&channel(), &entry).unwrap();
    assert_eq!(
        message.as_data().map(|bytes| bytes[..64].to_vec()),
        Some(entry.to_le_byte().unwrap())
    );
    assert_eq!(submit_outcome(true, true), Ok(()));
    assert_eq!(submit_outcome(false, true), Err(AiRuntimeErr::SendFailed));
    assert_eq!(submit_outcome(true, false), Err(AiRuntimeErr::IoctlFailed));
}

#[test]
fn receipts_reach_the_one_that_waits() {
    let mut graph = GraphManager::new();
    graph
        .push_kernel_no_depend(AiKernelDesc::default())
        .unwrap();
    let blob = graph.freeze().unwrap();
    let entry = blob.submit_entry(UserToken(42));
    let mut receipt = AiCompletion {
        user_token: 42,
        failed_node_id: 0,
        status: 0,
        failed_node_err: 0,
        failed_node_op: 0,
        reserved: [0; 5],
    };
    assert_eq!(
        wait_graph_complete(&entry, &completion_message(&receipt)),
        Some(Ok(()))
    );
    receipt.user_token = 43;
    assert_eq!(
        wait_graph_complete(&entry, &completion_message(&receipt)),
        None
    );
    receipt.user_token = 42;
    receipt.status = 4;
    receipt.failed_node_id = 3;
    receipt.failed_node_op = 1;
    receipt.failed_node_err = 2;
    assert_eq!(
        wait_graph_complete(&entry, &completion_message(&receipt)),
        Some(Err(AiRuntimeErr::GraphExecutionFailed {
            node_id: 3,
            op: 1,
            backend_err: 2,
        }))
    );
    assert_eq!(match_completion(UserToken(42), None, Some(42)), Some(Ok(())));
    assert_eq!(match_completion(UserToken(42), None, Some(41)), None);
    let notice = ov_channels::Message::notification(42);
    assert_eq!(wait_graph_complete(&entry, &notice), Some(Ok(())));
}

#[test]
fn a_later_channel_opens_nothing() {
    let first = channel();
    let mut build = ChannelBuild::start(Some(first.shared));
    let mut actions = Vec::new();
    let again = loop {
        actions.push(build.action);
        let event = match build.action {
            BuildAction::LookupShared => BuildEvent::SharedFound,
            BuildAction::Attach => BuildEvent::Attached,
            BuildAction::Done(channel) => break channel,
            _ => panic!("a later channel should open, map and register nothing"),
        };
        build = build.on_event(event).unwrap();
    };
    assert_eq!(
        actions,
        vec![
            BuildAction::LookupShared,
            BuildAction::Attach,
            BuildAction::Done(again)
        ]
    );
    assert_eq!(again.shared.user_va, first.shared.user_va);
    assert_eq!(again.shared.size_bytes, first.shared.size_bytes);
    assert_eq!(again, first);
    assert_eq!(build.registered(), Some(first.shared));
    assert_eq!(ChannelBuild::start(None).registered(), None);
    let lost = ChannelBuild::start(Some(first.shared));
    assert_eq!(
        lost.on_event(BuildEvent::SharedMissing).err(),
        Some(AiRuntimeErr::ChannelNotInitialized)
    );
    assert_eq!(
        lost.on_event(BuildEvent::SharedUnreadable).err(),
        Some(AiRuntimeErr::IoctlFailed)
    );
}

#[test]
fn submissions_are_bytes() {
    let mut graph = GraphManager::new();
    graph
        .push_kernel_no_depend(AiKernelDesc::default())
        .unwrap();
    let blob = graph.freeze().unwrap();
    let mut entry = blob.submit_entry(UserToken(42));
    assert_eq!(submit_payload(&channel(), &entry), Ok(entry.to_le_byte().unwrap()));
    let mut closed = channel();
    closed.graph_sender = false;
    assert_eq!(
        submit_payload(&closed, &entry),
        Err(AiRuntimeErr::ChannelNotInitialized)
    );
    closed.shared.user_va = 0;
    assert_eq!(submit_payload(&closed, &entry), Err(AiRuntimeErr::InvalidInput));
    entry.abi_version += 1;
    assert_eq!(
        submit_payload(&channel(), &entry),
        Err(AiRuntimeErr::InvalidAbiVersion)
    );
}

#[test]
fn requests_in_order_are_described() {
    let mut input = [1.0_f32; 2];
    let mut output = [0.0_f32; 2];
    let mut req = request();
    req.tensors[0] = dense_tensor(&mut input, &[2]);
    req.tensors[1] = dense_tensor(&mut output, &[2]);
    let desc = k3_ort_run_node(Some(&req)).unwrap();
    assert_eq!(desc.op, KernelOp(KernelOp::SIGMOID));
    assert_eq!(desc.tensors[1].user_va.get(), output.as_ptr() as u64);
    req.tensors[1].data = u64::MAX - 3;
    assert_eq!(
        k3_ort_run_node(Some(&req)).err(),
        Some(K3OrtStatus::InvalidTensor.code())
    );
}
