//! The kernels: what calls must look like, and what they compute.

use half::f16;
use k3_hera::backend::binary::{check_binary, run_binary, BinaryKind, BinaryPlan, BroadcastPlan};
use k3_hera::backend::call::{BackendCall, CallContext};
use k3_hera::backend::cast::{cast_logical, Conversions};
use k3_hera::backend::concat::{check_concat, run_concat};
use k3_hera::backend::conv2d::{self, Conv2dGeom};
use k3_hera::backend::dispatch::{
    k3_run_kernel, prepare, AddKernel, CastKernel, ComputeKernel, ConcatKernel, Conv2dKernel,
    CopyKernel, DivKernel, ExpandKernel, GatherElementsKernel, GatherKernel, GluKernel, Kernel,
    MatMulKernel, MaxPoolKernel, ModKernel, MulKernel, ReduceMaxKernel, ResizeKernel,
    RmsNormKernel, RopeKernel, ScaleKernel, SigmoidKernel, SiluKernel, SoftmaxKernel, SubKernel,
    TileKernel, TopKKernel, TransposeKernel,
};
use k3_hera::backend::gather::{
    check_gather, check_gather_elements, normalize_index, run_gather, run_gather_elements,
    write_indices,
};
use k3_hera::backend::glu::{check_glu, run_glu};
use k3_hera::backend::logical::{gather_logical, read_logical_bytes, write_logical_bytes};
use k3_hera::backend::matmul::{self, check_matmul, vfwmadot_tile, ProductPath};
use k3_hera::backend::meta::{normalize_axis, BackendTensorView, TensorMeta};
use k3_hera::backend::nn::{
    check_rope, check_softmax, rms_norm_rows, rope_rows, run_softmax, softmax_lanes, RmsParameters,
    RopeAngle, RopeGeom,
};
use k3_hera::backend::pool::{
    check_max_pool, max_pool, pool_output_dim, run_max_pool, run_max_pool_with_indices, PoolGeom,
};
use k3_hera::backend::reduce::{check_reduce_max, reduce_max, run_reduce_max, ReduceShape};
use k3_hera::backend::resize::{resize_linear, resize_nearest, ResizeGeom, ResizePatch, ResizePoint};
use k3_hera::backend::topk::{
    check_top_k, choose_top, ordinal_of, run_top_k, run_top_k_with_indices, top_k,
};
use k3_hera::backend::transform::{
    check_copy, check_expand, check_tile, check_transpose, run_copy, run_expand, run_tile,
    run_transpose,
};
use k3_hera::backend::unary::{check_unary, run_unary, UnaryKind};
use k3_hera::uabi::desc::{AiDtype, AiTensorLayout, MAX_SUBMIT_TENSORS};
use k3_hera::uabi::error::BackendErr;
use k3_hera::uabi::kernel::{AiTargetHint, KernelOp};
use k3_hera::uabi::kernelattr::{
    BinaryAttr, ConcatAttr, Conv2dAttr, CopyAttr, ExpandAttr, GatherAttr, GatherElementsAttr,
    GluAttr, InlineAttr, MatMulAttr, Pool2dAttr, ReduceMaxAttr, Resize2dAttr, RopeAttr, SoftmaxAttr,
    TileAttr, TopKAttr, TransposeAttr, UnaryAttr,
};
use k3_hera::uabi::node::AiGraphNode;
use k3_hera::uabi::types::{
    AttrByteSize, ByteSize, ByteStride, DimCount, DimSize, ElemStride, FloatBits, KernelStride,
    OpFlags, TensorAxis, TensorCount,
};

fn widen(bits: u16) -> u32 {
    f16::from_bits(bits).to_f32().to_bits()
}

fn narrow(bits: u32) -> u16 {
    f16::from_f32(f32::from_bits(bits)).to_bits()
}

fn mul_add(sum: u32, a: u16, b: u16) -> u32 {
    let product = f16::from_bits(a).to_f32() * f16::from_bits(b).to_f32();
    (f32::from_bits(sum) + product).to_bits()
}

fn add_parts(a: u32, b: u32) -> u32 {
    (f32::from_bits(a) + f32::from_bits(b)).to_bits()
}

fn tile_product(lhs: [u16; 64], rhs: [u16; 64]) -> [u32; 64] {
    vfwmadot_tile(&lhs, &rhs, mul_add)
}

fn maximum(values: &Vec<u32>) -> u32 {
    values
        .iter()
        .map(|bits| f32::from_bits(*bits))
        .fold(f32::NEG_INFINITY, f32::max)
        .to_bits()
}

fn same(a: u32, b: u32) -> bool {
    f32::from_bits(a) == f32::from_bits(b)
}

fn floats(values: &[f32]) -> Vec<u32> {
    values.iter().map(|value| value.to_bits()).collect()
}

fn as_floats(bits: &[u32]) -> Vec<f32> {
    bits.iter().map(|bits| f32::from_bits(*bits)).collect()
}

fn halves(values: &[f32]) -> Vec<u16> {
    values
        .iter()
        .map(|value| f16::from_f32(*value).to_bits())
        .collect()
}

fn half_bytes(values: &[f32]) -> Vec<u8> {
    halves(values)
        .iter()
        .flat_map(|bits| bits.to_le_bytes())
        .collect()
}

fn read_halves(bytes: &[u8]) -> Vec<f32> {
    bytes
        .chunks_exact(2)
        .map(|pair| f16::from_bits(u16::from_le_bytes([pair[0], pair[1]])).to_f32())
        .collect()
}

fn long_bytes(values: &[i64]) -> Vec<u8> {
    values
        .iter()
        .flat_map(|value| value.to_le_bytes())
        .collect()
}

fn meta(shape: &[usize], element_size: usize) -> TensorMeta {
    let mut full_shape = [0_usize; 8];
    let mut strides = [0_usize; 8];
    let mut count = 1;
    for axis in (0..shape.len()).rev() {
        full_shape[axis] = shape[axis];
        strides[axis] = count;
        count *= shape[axis];
    }
    TensorMeta {
        rank: shape.len(),
        shape: full_shape,
        strides,
        element_size,
        element_count: count,
    }
}

/// A dense tensor at a made-up address.
fn view(data: u64, dtype: u32, shape: &[u32]) -> BackendTensorView {
    let size = u64::from(AiDtype(dtype).element_size_bytes().unwrap_or(1));
    let mut view = BackendTensorView::default();
    view.data = data;
    view.ndim = DimCount::new(shape.len() as u32);
    view.dtype = AiDtype(dtype);
    view.layout = AiTensorLayout(AiTensorLayout::DENSE);
    let mut stride = size;
    for axis in (0..shape.len()).rev() {
        view.shape[axis] = DimSize::new(shape[axis]);
        view.stride_bytes[axis] = ByteStride::new(stride);
        stride *= u64::from(shape[axis]);
    }
    view.byte_len = ByteSize::new(stride);
    view
}

fn attr_bytes<T: InlineAttr>(attr: &T) -> Vec<u8> {
    attr.to_words()
        .iter()
        .flat_map(|word| word.to_le_bytes())
        .collect()
}

fn context<T: InlineAttr>(
    target: u8,
    inputs: Vec<BackendTensorView>,
    outputs: Vec<BackendTensorView>,
    attr: &T,
) -> CallContext {
    let bytes = attr_bytes(attr);
    CallContext {
        target: AiTargetHint(target),
        inputs,
        outputs,
        attr_size: bytes.len(),
        attr: Some(bytes),
    }
}

fn call<T: InlineAttr>(
    op: u8,
    target: u8,
    inputs: Vec<BackendTensorView>,
    outputs: Vec<BackendTensorView>,
    attr: &T,
) -> BackendCall {
    let bytes = attr_bytes(attr);
    BackendCall {
        op: KernelOp(op),
        target,
        input_count: TensorCount::new(inputs.len() as u32),
        inputs: Some(inputs),
        output_count: TensorCount::new(outputs.len() as u32),
        outputs: Some(outputs),
        attr_size: AttrByteSize::new(bytes.len() as u32),
        attr: Some(bytes),
    }
}

#[test]
fn f16_broadcast_matches_reference() {
    let plan = BroadcastPlan::new(meta(&[2, 3], 2), meta(&[3], 2), meta(&[2, 3], 2)).unwrap();
    let lhs = halves(&[1.0, 2.0, 3.0, 4.0, 5.0, 6.0]);
    let rhs = halves(&[10.0, 20.0, 30.0]);
    let mut output = [0_u16; 6];
    let plan = BinaryPlan {
        broadcast: plan,
        attr: BinaryAttr::default(),
        lhs_len: 6,
        rhs_len: 3,
        out_len: 6,
    };
    let add = |a: u16, b: u16| f16::from_f32(f16::from_bits(a).to_f32() + f16::from_bits(b).to_f32()).to_bits();
    run_binary(&plan, BinaryKind::Add, &lhs, &rhs, &mut output, &add).unwrap();
    let values: Vec<f32> = output
        .into_iter()
        .map(|v| f16::from_bits(v).to_f32())
        .collect();
    assert_eq!(values, [11.0, 22.0, 33.0, 14.0, 25.0, 36.0]);
}

#[test]
fn shapes_that_do_not_broadcast_are_refused() {
    assert_eq!(
        BroadcastPlan::new(meta(&[2, 3], 2), meta(&[2], 2), meta(&[2, 3], 2)).err(),
        Some(BackendErr::InvalidTensor)
    );
    let good = context(
        AiTargetHint::PREFER_A100,
        vec![
            view(0x1000, AiDtype::F16, &[2, 3]),
            view(0x2000, AiDtype::F16, &[1, 3]),
        ],
        vec![view(0x3000, AiDtype::F16, &[2, 3])],
        &BinaryAttr::default(),
    );
    assert!(check_binary(&good).is_ok());
    let mut wrong = good;
    wrong.inputs[1].dtype = AiDtype(AiDtype::F32);
    assert_eq!(
        check_binary(&wrong).err(),
        Some(BackendErr::UnsupportedDtype)
    );
}

#[test]
fn call_context_rejects_invalid_arity() {
    let attr = MatMulAttr::default();
    let mut input = BackendTensorView::default();
    input.data = 1;
    input.byte_len = ByteSize::new(4);
    let call = call(KernelOp::MAT_MUL, AiTargetHint::AUTO, vec![input], vec![input], &attr);
    let ctx = match CallContext::from_call(Some(call)) {
        Ok(ctx) => ctx,
        Err(_) => panic!("call should be accepted"),
    };
    assert_eq!(ctx.expect_io(2, 1), Err(BackendErr::InvalidInput));
}

#[test]
fn call_context_rejects_null_arrays_when_count_is_nonzero() {
    let call = BackendCall {
        op: KernelOp(KernelOp::MAT_MUL),
        target: AiTargetHint::AUTO,
        inputs: None,
        input_count: TensorCount::new(1),
        outputs: None,
        output_count: TensorCount::new(0),
        attr: None,
        attr_size: AttrByteSize::new(0),
    };

    assert!(matches!(
        CallContext::from_call(Some(call)),
        Err(BackendErr::NullPointer)
    ));
    assert!(matches!(
        CallContext::from_call(None),
        Err(BackendErr::NullPointer)
    ));
}

#[test]
fn typed_slice_rejects_null_data_pointer() {
    let mut view = BackendTensorView::default();
    view.byte_len = ByteSize::new(4);

    assert_eq!(view.typed_len(4, 4), Err(BackendErr::InvalidTensor));
}

#[test]
fn read_attr_rejects_short_attr() {
    let mut tensor = BackendTensorView::default();
    tensor.data = 1;
    tensor.byte_len = ByteSize::new(4);
    let call = BackendCall {
        op: KernelOp(KernelOp::MAT_MUL),
        target: AiTargetHint::AUTO,
        inputs: Some(vec![tensor]),
        input_count: TensorCount::new(1),
        outputs: Some(vec![tensor]),
        output_count: TensorCount::new(1),
        attr: Some(vec![0]),
        attr_size: AttrByteSize::new(1),
    };

    let ctx = match CallContext::from_call(Some(call)) {
        Ok(ctx) => ctx,
        Err(_) => panic!("call should be accepted"),
    };
    assert!(matches!(
        ctx.read_attr::<MatMulAttr>(),
        Err(BackendErr::InvalidAttr)
    ));
}

#[test]
fn call_context_rejects_unknown_target() {
    let call = BackendCall {
        op: KernelOp(KernelOp::MAT_MUL),
        target: 99,
        inputs: None,
        input_count: TensorCount::new(0),
        outputs: None,
        output_count: TensorCount::new(0),
        attr: None,
        attr_size: AttrByteSize::new(0),
    };

    assert!(matches!(
        CallContext::from_call(Some(call)),
        Err(BackendErr::UnsupportedOp)
    ));
}

#[test]
fn typed_slice_rejects_non_divisible_byte_len() {
    let bytes = vec![0_u8; 5];
    let mut view = BackendTensorView::default();
    view.data = 0x1000;
    view.byte_len = ByteSize::new(bytes.len() as u64);

    assert_eq!(view.typed_len(4, 4), Err(BackendErr::InvalidTensor));
}

#[test]
fn typed_slice_rejects_unaligned_buffer() {
    let mut view = BackendTensorView::default();
    view.data = 0x1001;
    view.byte_len = ByteSize::new(4);

    assert_eq!(view.typed_len(4, 4), Err(BackendErr::InvalidTensor));
    view.data = 0x1004;
    assert_eq!(view.typed_len(4, 4), Ok(1));
}

#[test]
fn calls_without_a_target_run_on_the_matrix_unit() {
    let call = call(
        KernelOp::ADD,
        AiTargetHint::AUTO,
        vec![],
        vec![],
        &BinaryAttr::default(),
    );
    let ctx = CallContext::from_call(Some(call));
    assert!(matches!(ctx, Ok(ctx) if ctx.target == AiTargetHint(AiTargetHint::PREFER_A100)));
}

#[test]
fn inputs_and_outputs_must_not_share_memory() {
    let attr = MatMulAttr::default();
    let at = |data: u64| view(data, AiDtype::F16, &[4]);
    let apart = context(AiTargetHint::AUTO, vec![at(0x100)], vec![at(0x108)], &attr);
    assert_eq!(apart.reject_input_output_alias(), Ok(()));
    let shared = context(AiTargetHint::AUTO, vec![at(0x100)], vec![at(0x106)], &attr);
    assert_eq!(
        shared.reject_input_output_alias(),
        Err(BackendErr::InvalidTensor)
    );
    assert_eq!(apart.expect_io_range(1, 2, 1, 1), Ok(()));
    assert_eq!(
        apart.expect_io_range(2, 2, 1, 1),
        Err(BackendErr::InvalidInput)
    );
}

#[test]
fn views_are_checked() {
    let good = view(0x1000, AiDtype::F16, &[2, 3]);
    let checked = good.checked_meta().unwrap();
    assert_eq!(checked.rank, 2);
    assert_eq!(checked.element_count, 6);
    assert_eq!(checked.strides[0], 3);
    assert!(checked.is_contiguous());
    let mut short = good;
    short.byte_len = ByteSize::new(11);
    assert_eq!(short.checked_meta().err(), Some(BackendErr::InvalidTensor));
    let mut odd = good;
    odd.stride_bytes[1] = ByteStride::new(3);
    assert_eq!(odd.checked_meta().err(), Some(BackendErr::InvalidTensor));
    let mut blocks = good;
    blocks.dtype = AiDtype(AiDtype::Q8_0);
    assert_eq!(
        blocks.checked_meta().err(),
        Some(BackendErr::UnsupportedDtype)
    );
    let mut spread = good;
    spread.layout = AiTensorLayout(AiTensorLayout::STRIDED);
    spread.stride_bytes[0] = ByteStride::new(8);
    spread.byte_len = ByteSize::new(14);
    let spread = spread.checked_meta().unwrap();
    assert_eq!(spread.offset_for_linear(5), Ok(6));
    assert!(!spread.is_contiguous());
}

#[test]
fn coordinates_and_positions_convert_both_ways() {
    let meta = meta(&[2, 3, 4], 2);
    for linear in 0..24 {
        let coordinates = meta.coordinates(linear).unwrap();
        assert_eq!(meta.offset_for_coordinates(&coordinates), Ok(linear));
    }
    assert_eq!(meta.coordinates(23).unwrap()[..3], [1, 2, 3]);
    assert!(meta.coordinates(24).is_err());
    assert_eq!(normalize_axis(TensorAxis(-1), 3), Ok(2));
    assert!(normalize_axis(TensorAxis(3), 3).is_err());
}

fn conv_attr() -> Conv2dAttr {
    let mut attr = Conv2dAttr::default();
    attr.batch = DimSize::new(1);
    attr.in_channels = DimSize::new(1);
    attr.out_channels = DimSize::new(1);
    attr.input_h = DimSize::new(3);
    attr.input_w = DimSize::new(3);
    attr.output_h = DimSize::new(2);
    attr.output_w = DimSize::new(2);
    attr.kernel_h = DimSize::new(2);
    attr.kernel_w = DimSize::new(2);
    attr.stride_h = KernelStride::new(1);
    attr.stride_w = KernelStride::new(1);
    attr.pad_h = DimSize::new(0);
    attr.pad_w = DimSize::new(0);
    attr.dilation_h = KernelStride::new(1);
    attr.dilation_w = KernelStride::new(1);
    attr.groups = DimSize::new(1);
    attr
}

fn add_bias(value: u16, bias: u16) -> u16 {
    f16::from_f32(f16::from_bits(value).to_f32() + f16::from_bits(bias).to_f32()).to_bits()
}

#[test]
fn conv2d_a100_f16_matches_cpu() {
    let geom = Conv2dGeom::from_attr(&conv_attr()).unwrap();
    let input = halves(&[1.0, 2.0, 3.0, 4.0, 5.0, 6.0, 7.0, 8.0, 9.0]);
    let weight = halves(&[1.0; 4]);
    let mut cpu = [0_u16; 4];
    let mut a100 = [0_u16; 4];
    conv2d::validate_lengths(&geom, 9, 4, 4, None).unwrap();
    conv2d::compute_f16_cpu(
        &geom, &input, &weight, None, &mut cpu, &widen, &mul_add, &narrow,
    );
    conv2d::compute_f16_a100(
        &geom,
        &input,
        &weight,
        None,
        &mut a100,
        &tile_product,
        &add_parts,
        &narrow,
        &add_bias,
    );
    assert_eq!(cpu, a100);
    assert_eq!(cpu.to_vec(), halves(&[12.0, 16.0, 24.0, 28.0]));
}

#[test]
fn convolution_adds_a_bias_and_pads_with_zeros() {
    let mut attr = conv_attr();
    attr.pad_h = DimSize::new(1);
    attr.pad_w = DimSize::new(1);
    attr.output_h = DimSize::new(4);
    attr.output_w = DimSize::new(4);
    let geom = Conv2dGeom::from_attr(&attr).unwrap();
    let input = halves(&[1.0, 2.0, 3.0, 4.0, 5.0, 6.0, 7.0, 8.0, 9.0]);
    let weight = halves(&[1.0; 4]);
    let bias = halves(&[0.5]);
    let mut output = [0_u16; 16];
    conv2d::compute_f16_cpu(
        &geom,
        &input,
        &weight,
        Some(&bias),
        &mut output,
        &widen,
        &mul_add,
        &narrow,
    );
    let values: Vec<f32> = output
        .iter()
        .map(|bits| f16::from_bits(*bits).to_f32())
        .collect();
    assert_eq!(values[0], 1.5);
    assert_eq!(values[5], 12.5);
    assert_eq!(values[15], 9.5);
    assert_eq!(
        conv2d::validate_lengths(&geom, 9, 4, 16, Some(0)).err(),
        Some(BackendErr::InvalidTensor)
    );
    let mut bad = conv_attr();
    bad.output_h = DimSize::new(0);
    assert!(Conv2dGeom::from_attr(&bad).is_err());
}

#[test]
fn static_markers_cover_all_preserved_ops() {
    assert_eq!(<MatMulKernel as ComputeKernel>::OP, KernelOp::MAT_MUL);
    assert_eq!(<Conv2dKernel as ComputeKernel>::OP, KernelOp::CONV2D);
    assert_eq!(<AddKernel as ComputeKernel>::OP, KernelOp::ADD);
    assert_eq!(<MulKernel as ComputeKernel>::OP, KernelOp::MUL);
    assert_eq!(<SubKernel as ComputeKernel>::OP, KernelOp::SUB);
    assert_eq!(<DivKernel as ComputeKernel>::OP, KernelOp::DIV);
    assert_eq!(<ModKernel as ComputeKernel>::OP, KernelOp::MOD);
    assert_eq!(<SiluKernel as ComputeKernel>::OP, KernelOp::SILU);
    assert_eq!(<SigmoidKernel as ComputeKernel>::OP, KernelOp::SIGMOID);
    assert_eq!(<ScaleKernel as ComputeKernel>::OP, KernelOp::SCALE);
    assert_eq!(<SoftmaxKernel as ComputeKernel>::OP, KernelOp::SOFTMAX);
    assert_eq!(<RmsNormKernel as ComputeKernel>::OP, KernelOp::RMS_NORM);
    assert_eq!(<RopeKernel as ComputeKernel>::OP, KernelOp::ROPE);
    assert_eq!(<GluKernel as ComputeKernel>::OP, KernelOp::GLU);
    assert_eq!(<MaxPoolKernel as ComputeKernel>::OP, KernelOp::MAX_POOL);
    assert_eq!(<ReduceMaxKernel as ComputeKernel>::OP, KernelOp::REDUCE_MAX);
    assert_eq!(<TopKKernel as ComputeKernel>::OP, KernelOp::TOP_K);
    assert_eq!(<ConcatKernel as ComputeKernel>::OP, KernelOp::CONCAT);
    assert_eq!(<TransposeKernel as ComputeKernel>::OP, KernelOp::TRANSPOSE);
    assert_eq!(<GatherKernel as ComputeKernel>::OP, KernelOp::GATHER);
    assert_eq!(
        <GatherElementsKernel as ComputeKernel>::OP,
        KernelOp::GATHER_ELEMENTS
    );
    assert_eq!(<CopyKernel as ComputeKernel>::OP, KernelOp::COPY);
    assert_eq!(<CastKernel as ComputeKernel>::OP, KernelOp::CAST);
    assert_eq!(<ResizeKernel as ComputeKernel>::OP, KernelOp::RESIZE);
    assert_eq!(<ExpandKernel as ComputeKernel>::OP, KernelOp::EXPAND);
    assert_eq!(<TileKernel as ComputeKernel>::OP, KernelOp::TILE);
    assert!(!KernelOp(25).is_known());
    assert!(!KernelOp(26).is_known());
}

#[test]
fn k3_run_kernel_rejects_too_many_tensors_before_indexing() {
    let mut node = AiGraphNode::default();
    node.desc.op = KernelOp(KernelOp::MAT_MUL);
    node.desc.input_count = TensorCount::new(MAX_SUBMIT_TENSORS as u32 + 1);
    node.desc.output_count = TensorCount::new(0);

    let run = |_: Kernel, _: &CallContext| Ok(());
    assert_eq!(
        k3_run_kernel(&mut node, &run),
        -i32::from(BackendErr::InvalidInput.code())
    );
    assert_eq!(node.state.complete, 1);
    assert_eq!(node.state.error_flag, BackendErr::InvalidInput.code());
}

#[test]
fn kernels_run_only_on_calls_that_pass_their_checks() {
    let mut node = AiGraphNode::default();
    node.desc.op = KernelOp(KernelOp::GET_ROWS);
    let run = |_: Kernel, _: &CallContext| Ok(());
    assert_eq!(k3_run_kernel(&mut node, &run), -5);

    node.desc.op = KernelOp(KernelOp::ADD);
    assert_eq!(k3_run_kernel(&mut node, &run), -1);

    node.desc.op = KernelOp(KernelOp::GLU);
    assert_eq!(k3_run_kernel(&mut node, &run), -1);

    node.desc.op = KernelOp(KernelOp::SILU);
    node.desc.input_count = TensorCount(1);
    node.desc.output_count = TensorCount(1);
    node.desc.attr_size = AttrByteSize(64);
    for index in 0..2 {
        let tensor = &mut node.desc.tensors[index];
        tensor.kernel_va.0 = 0x1000 * (index as u64 + 1);
        tensor.size_bytes = ByteSize(8);
        tensor.dtype = AiDtype(AiDtype::F16);
    }
    node.state.error_flag = 0;
    let (kernel, ctx) = match prepare(&node) {
        Ok(prepared) => prepared,
        Err(_) => panic!("node should be prepared"),
    };
    assert_eq!(kernel, Kernel::Silu);
    assert_eq!(ctx.inputs[0].data, 0x1000);
    assert_eq!(ctx.outputs[0].data, 0x2000);
    assert_eq!(ctx.target, AiTargetHint(AiTargetHint::PREFER_A100));
    node.desc.target_hint = AiTargetHint(AiTargetHint::PREFER_CPU);
    assert!(matches!(
        prepare(&node),
        Ok((_, ctx)) if ctx.target == AiTargetHint(AiTargetHint::PREFER_CPU)
    ));
    node.desc.target_hint = AiTargetHint(99);
    assert_eq!(k3_run_kernel(&mut node, &run), -5);
    node.desc.target_hint = AiTargetHint(AiTargetHint::AUTO);
    node.state.error_flag = 0;
    assert_eq!(k3_run_kernel(&mut node, &run), 0);
    assert_eq!(node.state.complete, 1);
    assert_eq!(node.state.error_flag, 0);
    let fail = |_: Kernel, _: &CallContext| Err(BackendErr::ExecutionFailed);
    assert_eq!(k3_run_kernel(&mut node, &fail), -6);
    assert_eq!(node.state.error_flag, 6);
}

fn matmul_attr(m: u32, n: u32, k: u32) -> MatMulAttr {
    let mut attr = MatMulAttr::default();
    attr.m = DimSize::new(m);
    attr.n = DimSize::new(n);
    attr.k = DimSize::new(k);
    attr.batch = DimSize::new(1);
    attr.lhs_row_stride = ElemStride::new(k);
    attr.lhs_col_stride = ElemStride::new(1);
    attr.lhs_batch_stride = ElemStride::new(m * k);
    attr.rhs_row_stride = ElemStride::new(n);
    attr.rhs_col_stride = ElemStride::new(1);
    attr.rhs_batch_stride = ElemStride::new(k * n);
    attr.out_row_stride = ElemStride::new(n);
    attr.out_col_stride = ElemStride::new(1);
    attr.out_batch_stride = ElemStride::new(m * n);
    attr.accum_dtype = AiDtype(AiDtype::F32);
    attr
}

#[test]
fn matmul_a100_f16_matches_cpu() {
    let lhs = halves(&[1.0, -2.0, 3.0, 4.0, 0.5, -1.0]);
    let rhs = halves(&[2.0, 1.0, -1.0, 3.0, 0.5, -2.0]);
    let mut cpu = [0_u16; 4];
    let mut a100 = [0_u16; 4];
    let attr = matmul_attr(2, 2, 3);
    matmul::validate_bounds(&attr, 6, 6, 4).unwrap();
    matmul::compute_f16_cpu(&attr, &lhs, &rhs, &mut cpu, &mul_add, &narrow);
    matmul::compute_f16_a100(
        &attr,
        &lhs,
        &rhs,
        &mut a100,
        &tile_product,
        &add_parts,
        &narrow,
    );
    assert_eq!(cpu, a100);
    assert_eq!(cpu.to_vec(), halves(&[5.5, -11.0, 7.0, 7.5]));
}

#[test]
fn large_products_are_the_same_on_both_paths() {
    let (m, n, k) = (9_u32, 10_u32, 17_u32);
    let attr = matmul_attr(m, n, k);
    let lhs: Vec<f32> = (0..m * k).map(|i| (i % 5) as f32 - 2.0).collect();
    let rhs: Vec<f32> = (0..k * n).map(|i| (i % 7) as f32 - 3.0).collect();
    let (lhs, rhs) = (halves(&lhs), halves(&rhs));
    let mut cpu = vec![0_u16; 90];
    let mut a100 = vec![0_u16; 90];
    matmul::compute_f16_cpu(&attr, &lhs, &rhs, &mut cpu, &mul_add, &narrow);
    matmul::compute_f16_a100(
        &attr,
        &lhs,
        &rhs,
        &mut a100,
        &tile_product,
        &add_parts,
        &narrow,
    );
    assert_eq!(cpu, a100);
}

#[test]
fn caller_rejects_non_f16_tensors() {
    let attr = matmul_attr(1, 1, 1);
    for dtype in [AiDtype::F32, AiDtype::I8, AiDtype::Q8_0] {
        let mut first = BackendTensorView::default();
        first.data = 0x1000;
        first.byte_len = ByteSize::new(4);
        first.dtype = AiDtype(dtype);
        first.layout = AiTensorLayout(AiTensorLayout::DENSE);
        let mut second = first;
        second.data = 0x2000;
        second.byte_len = ByteSize::new(2);
        second.dtype = AiDtype(AiDtype::F16);
        let call = call(
            KernelOp::MAT_MUL,
            AiTargetHint::PREFER_CPU,
            vec![first, second],
            vec![second],
            &attr,
        );
        let ctx = match CallContext::from_call(Some(call)) {
            Ok(ctx) => ctx,
            Err(_) => panic!("call should be accepted"),
        };
        assert_eq!(
            MatMulKernel::check(&ctx),
            Err(BackendErr::UnsupportedDtype)
        );
    }
}

#[test]
fn products_must_fit_their_buffers() {
    let attr = matmul_attr(2, 2, 3);
    assert_eq!(
        matmul::validate_bounds(&attr, 5, 6, 4),
        Err(BackendErr::InvalidTensor)
    );
    let f16 = |data: u64, count: u32| view(data, AiDtype::F16, &[count]);
    let ctx = context(
        AiTargetHint::PREFER_CPU,
        vec![f16(0x100, 6), f16(0x200, 6)],
        vec![f16(0x300, 4)],
        &attr,
    );
    let plan = check_matmul(&ctx).unwrap();
    assert_eq!(plan.path, ProductPath::Cpu);
    assert_eq!(plan.lhs_len, 6);
}

fn softmax_row(row: Vec<u32>, scale: &u32) -> Vec<u32> {
    let scale = f32::from_bits(*scale);
    let values: Vec<f32> = as_floats(&row).iter().map(|value| value * scale).collect();
    let top = values.iter().copied().fold(f32::NEG_INFINITY, f32::max);
    let powers: Vec<f32> = values.iter().map(|value| libm::expf(value - top)).collect();
    let sum: f32 = powers.iter().sum();
    powers.iter().map(|power| (power / sum).to_bits()).collect()
}

#[test]
fn softmax_is_normalized() {
    let output = softmax_lanes(
        &floats(&[1.0, 2.0, 3.0, -1.0, 0.0, 1.0]),
        &meta(&[2, 3], 4),
        1,
        1.0_f32.to_bits(),
        &softmax_row,
    )
    .unwrap();
    let output = as_floats(&output);
    assert!((output[..3].iter().sum::<f32>() - 1.0).abs() < 5.0e-4);
    assert!((output[3..].iter().sum::<f32>() - 1.0).abs() < 5.0e-4);
}

#[test]
fn softmax_runs_along_its_axis() {
    let mut attr = SoftmaxAttr::default();
    attr.axis = TensorAxis(0);
    attr.scale = FloatBits(1.0_f32.to_bits());
    let ctx = context(
        AiTargetHint::PREFER_A100,
        vec![view(0x1000, AiDtype::F16, &[2, 2])],
        vec![view(0x2000, AiDtype::F16, &[2, 2])],
        &attr,
    );
    let plan = check_softmax(&ctx).unwrap();
    let raw = half_bytes(&[0.0, 1.0, 0.0, 1.0]);
    let mut output = vec![0_u8; 8];
    run_softmax(&plan, &raw, &mut output, &widen, &softmax_row, &narrow).unwrap();
    assert_eq!(read_halves(&output), vec![0.5, 0.5, 0.5, 0.5]);
    let mut wrong = ctx;
    wrong.inputs[0].dtype = AiDtype(AiDtype::F32);
    assert!(check_softmax(&wrong).is_err());
}

fn norm_row(row: Vec<u32>, parameters: &RmsParameters) -> Vec<u32> {
    let values = as_floats(&row);
    let mean = values.iter().map(|value| value * value).sum::<f32>() / values.len() as f32;
    let scale = 1.0 / libm::sqrtf(mean + f32::from_bits(parameters.epsilon));
    values
        .iter()
        .zip(as_floats(&parameters.weight))
        .map(|(value, weight)| (value * scale * weight).to_bits())
        .collect()
}

#[test]
fn rms_norm_matches_reference() {
    let parameters = RmsParameters {
        weight: floats(&[1.0, 1.0]),
        epsilon: 1.0e-5_f32.to_bits(),
    };
    let output = rms_norm_rows(
        &floats(&[1.0, 2.0, 3.0, 4.0]),
        &meta(&[2, 2], 4),
        &parameters,
        &norm_row,
    );
    let output = as_floats(&output);
    let scale = 1.0 / libm::sqrtf(2.5 + 1.0e-5);
    assert!((output[0] - scale).abs() < 1.0e-5);
    assert!((output[1] - 2.0 * scale).abs() < 1.0e-5);
}

#[test]
fn rotation_pairs_entries_half_a_head_apart() {
    let geom = RopeGeom {
        batch: 1,
        sequence: 2,
        heads: 1,
        head_dim: 4,
        n_dims: 4,
        mode: RopeAttr::MODE_NEOX,
        base: 10_000.0_f32.to_bits(),
        frequency_scale: 1.0_f32.to_bits(),
        attention_scale: 1.0_f32.to_bits(),
    };
    let mark = |angle: RopeAngle, first: u32, second: u32| {
        (first + 1000 * angle.position as u32 + 100 * angle.pair as u32, second)
    };
    let values: Vec<u32> = (0..8).collect();
    let output = rope_rows(&values, &geom, None, &mark);
    assert_eq!(output, vec![0, 101, 2, 3, 1004, 1105, 6, 7]);
    let positions = vec![5_i64, 0];
    let output = rope_rows(&values, &geom, Some(&positions), &mark);
    assert_eq!(output, vec![5000, 5101, 2, 3, 4, 105, 6, 7]);

    let mut attr = RopeAttr::default();
    attr.n_dims = DimSize(4);
    attr.mode = RopeAttr::MODE_NEOX;
    attr.head_count = DimSize(1);
    let ctx = context(
        AiTargetHint::PREFER_A100,
        vec![view(0x1000, AiDtype::F16, &[1, 2, 1, 4])],
        vec![view(0x2000, AiDtype::F16, &[1, 2, 1, 4])],
        &attr,
    );
    let plan = check_rope(&ctx).unwrap();
    assert_eq!(plan.geom.sequence, 2);
    assert_eq!(plan.geom.head_dim, 4);
}

#[test]
fn top_k_is_stable_for_ties() {
    let (values, indices) = top_k(&floats(&[3.0, 5.0, 5.0, 1.0]), 1, 4, 1, 2, true);
    assert_eq!(as_floats(&values), [5.0, 5.0]);
    assert_eq!(indices, [1, 2]);
}

#[test]
fn top_k_orders_bit_patterns() {
    let values = floats(&[-1.0, 0.0, -3.5, 2.0]);
    assert_eq!(choose_top(&values, 4, true), vec![3, 1, 0, 2]);
    assert_eq!(choose_top(&values, 2, false), vec![2, 0]);
    assert!(ordinal_of((-0.0_f32).to_bits()) < ordinal_of(0.0_f32.to_bits()));
    let mut attr = TopKAttr::default();
    attr.axis = TensorAxis(-1);
    attr.k = DimSize(2);
    attr.largest = 1;
    let ctx = context(
        AiTargetHint::PREFER_A100,
        vec![view(0x1000, AiDtype::F16, &[2, 3])],
        vec![
            view(0x2000, AiDtype::F16, &[2, 2]),
            view(0x3000, AiDtype::I64, &[2, 2]),
        ],
        &attr,
    );
    let plan = check_top_k(&ctx).unwrap();
    let raw = half_bytes(&[1.0, 3.0, 2.0, 6.0, 4.0, 6.0]);
    let mut output = vec![0_u8; 8];
    let indices = run_top_k(&plan, &raw, &mut output, &widen, &narrow).unwrap();
    assert_eq!(read_halves(&output), vec![3.0, 2.0, 6.0, 6.0]);
    assert_eq!(indices, vec![1, 2, 0, 2]);
    let mut stored = vec![0_u8; 32];
    write_indices(&indices, &mut stored, &plan.indices).unwrap();
    assert_eq!(stored, long_bytes(&[1, 2, 0, 2]));
    let mut values = vec![0_u8; 8];
    let mut positions = vec![0_u8; 32];
    run_top_k_with_indices(&plan, &raw, &mut values, &mut positions, &widen, &narrow).unwrap();
    assert_eq!(values, output);
    assert_eq!(positions, stored);
}

#[test]
fn reduce_max_handles_multiple_axes() {
    let shape = ReduceShape {
        input: meta(&[2, 2, 2], 4),
        output: meta(&[2], 4),
        reduced: [false, true, true, false, false, false, false, false],
    };
    let output = reduce_max(
        &floats(&[1.0, 2.0, 3.0, 4.0, 8.0, 7.0, 6.0, 5.0]),
        &shape,
        &maximum,
    )
    .unwrap();
    assert_eq!(as_floats(&output), [4.0, 8.0]);
}

#[test]
fn reduction_checks_its_axes() {
    let mut attr = ReduceMaxAttr::default();
    attr.axis_count = DimCount(1);
    attr.axes[0] = TensorAxis(-1);
    attr.flags = OpFlags(ReduceMaxAttr::KEEP_DIMS);
    let ctx = context(
        AiTargetHint::PREFER_A100,
        vec![view(0x1000, AiDtype::F16, &[2, 3])],
        vec![view(0x2000, AiDtype::F16, &[2, 1])],
        &attr,
    );
    let plan = check_reduce_max(&ctx).unwrap();
    let raw = half_bytes(&[1.0, 5.0, 3.0, -2.0, -1.0, -4.0]);
    let mut output = vec![0_u8; 4];
    run_reduce_max(&plan, &raw, &mut output, &widen, &maximum, &narrow).unwrap();
    assert_eq!(read_halves(&output), vec![5.0, -1.0]);
    attr.axes[0] = TensorAxis(2);
    let wrong = context(
        AiTargetHint::PREFER_A100,
        vec![view(0x1000, AiDtype::F16, &[2, 3])],
        vec![view(0x2000, AiDtype::F16, &[2, 1])],
        &attr,
    );
    assert!(check_reduce_max(&wrong).is_err());
}

#[test]
fn pooling_takes_the_first_of_the_largest() {
    let geom = PoolGeom {
        planes: 1,
        ih: 3,
        iw: 3,
        oh: 2,
        ow: 2,
        kh: 2,
        kw: 2,
        sh: 1,
        sw: 1,
        dh: 1,
        dw: 1,
        ph: 0,
        pw: 0,
    };
    let input = floats(&[1.0, 7.0, 7.0, 4.0, 5.0, 6.0, 9.0, 8.0, 7.0]);
    let (values, indices) = max_pool(&input, &geom, &maximum, &same);
    assert_eq!(as_floats(&values), vec![7.0, 7.0, 9.0, 8.0]);
    assert_eq!(indices, vec![1, 1, 6, 7]);
    assert_eq!(pool_output_dim(5, 2, 2, 1, 0, 0, false), Ok(2));
    assert_eq!(pool_output_dim(5, 2, 2, 1, 0, 0, true), Ok(3));
    assert_eq!(pool_output_dim(1, 3, 1, 1, 0, 0, false), Ok(0));
    assert!(pool_output_dim(usize::MAX, 3, 1, 1, 1, 0, false).is_err());

    let mut attr = Pool2dAttr::default();
    attr.kernel_h = DimSize(2);
    attr.kernel_w = DimSize(2);
    attr.stride_h = KernelStride(1);
    attr.stride_w = KernelStride(1);
    attr.dilation_h = KernelStride(1);
    attr.dilation_w = KernelStride(1);
    let ctx = context(
        AiTargetHint::PREFER_A100,
        vec![view(0x1000, AiDtype::F16, &[1, 1, 3, 3])],
        vec![view(0x2000, AiDtype::F16, &[1, 1, 2, 2])],
        &attr,
    );
    let plan = check_max_pool(&ctx).unwrap();
    let raw = half_bytes(&[1.0, 7.0, 7.0, 4.0, 5.0, 6.0, 9.0, 8.0, 7.0]);
    let mut output = vec![0_u8; 8];
    run_max_pool(&plan, &raw, &mut output, &widen, &maximum, &same, &narrow).unwrap();
    assert_eq!(read_halves(&output), vec![7.0, 7.0, 9.0, 8.0]);

    let mut untouched = vec![7_u8; 3];
    run_max_pool_with_indices(
        &plan, &raw, &mut output, &mut untouched, &widen, &maximum, &same, &narrow,
    )
    .unwrap();
    assert_eq!(untouched, vec![7, 7, 7]);
    let both = context(
        AiTargetHint::PREFER_A100,
        vec![view(0x1000, AiDtype::F16, &[1, 1, 3, 3])],
        vec![
            view(0x2000, AiDtype::F16, &[1, 1, 2, 2]),
            view(0x3000, AiDtype::I64, &[1, 1, 2, 2]),
        ],
        &attr,
    );
    let plan = check_max_pool(&both).unwrap();
    let mut values = vec![0_u8; 8];
    let mut positions = vec![0_u8; 32];
    run_max_pool_with_indices(
        &plan, &raw, &mut values, &mut positions, &widen, &maximum, &same, &narrow,
    )
    .unwrap();
    assert_eq!(read_halves(&values), vec![7.0, 7.0, 9.0, 8.0]);
    assert_eq!(positions, long_bytes(&[1, 1, 6, 7]));
}

#[test]
fn gather_logical_reorders_elements() {
    let source = [1_u8, 2, 3, 4];
    let output = gather_logical(
        &source,
        &[3, 1, 0],
        1,
        AiTargetHint(AiTargetHint::PREFER_A100),
    )
    .unwrap();
    assert_eq!(output, [4, 2, 1]);
}

#[test]
fn gathering_past_the_end_fails() {
    let source = [1_u8, 2, 3, 4];
    for target in [AiTargetHint::PREFER_A100, AiTargetHint::PREFER_CPU] {
        assert!(gather_logical(&source, &[4], 1, AiTargetHint(target)).is_err());
    }
}

#[test]
fn concat_contiguous_copies_axis_blocks() {
    let c = [1.0_f32, 2.0, 3.0, 4.0];
    let b = [10.0_f32, 11.0, 12.0, 13.0, 20.0, 21.0, 22.0, 23.0];
    let bytes = |values: &[f32]| -> Vec<u8> {
        values
            .iter()
            .flat_map(|value| value.to_le_bytes())
            .collect()
    };
    let mut attr = ConcatAttr::default();
    attr.axis = TensorAxis::new(1);
    let ctx = context(
        AiTargetHint::PREFER_CPU,
        vec![
            view(0x1000, AiDtype::F32, &[2, 1, 2]),
            view(0x2000, AiDtype::F32, &[2, 2, 2]),
        ],
        vec![view(0x3000, AiDtype::F32, &[2, 3, 2])],
        &attr,
    );
    let plan = match check_concat(&ctx) {
        Ok(plan) => plan,
        Err(_) => panic!("call should be accepted"),
    };
    let (c, b) = (bytes(&c), bytes(&b));
    let mut y = vec![0_u8; 48];
    run_concat(&plan, &[&c, &b], &mut y).unwrap();
    let y: Vec<f32> = y
        .chunks_exact(4)
        .map(|word| f32::from_le_bytes([word[0], word[1], word[2], word[3]]))
        .collect();
    assert_eq!(
        y,
        [1.0, 2.0, 10.0, 11.0, 12.0, 13.0, 3.0, 4.0, 20.0, 21.0, 22.0, 23.0]
    );
}

fn conversions() -> Conversions<
    fn(u16) -> u32,
    fn(u32) -> u16,
    fn(i64) -> u32,
    fn(u32) -> i64,
    fn(u32) -> i32,
> {
    Conversions {
        widen,
        narrow,
        to_float: |value| (value as f32).to_bits(),
        to_long: |bits| f32::from_bits(bits) as i64,
        to_int: |bits| f32::from_bits(bits) as i32,
    }
}

#[test]
fn cast_common_numeric_types() {
    let input: Vec<u8> = [1.5_f32, -2.25]
        .iter()
        .flat_map(|value| value.to_le_bytes())
        .collect();
    let f32_type = AiDtype(AiDtype::F32);
    let f16_type = AiDtype(AiDtype::F16);
    let with = conversions();
    let half = cast_logical(&input, f32_type, f16_type, 2, &with).unwrap();
    let restored = cast_logical(&half, f16_type, f32_type, 2, &with).unwrap();
    let first = f32::from_le_bytes([restored[0], restored[1], restored[2], restored[3]]);
    assert!((first - 1.5).abs() < 1.0e-3);
    let integers = cast_logical(&input, f32_type, AiDtype(AiDtype::I32), 2, &with).unwrap();
    let integers: Vec<i32> = integers
        .chunks_exact(4)
        .map(|word| i32::from_le_bytes([word[0], word[1], word[2], word[3]]))
        .collect();
    assert_eq!(integers, [1, -2]);
}

fn source_coordinate(point: ResizePoint) -> f32 {
    let (index, input, output) = (point.index as f32, point.input as f32, point.output as f32);
    match point.coordinate_mode {
        Resize2dAttr::COORD_HALF_PIXEL => (index + 0.5) * input / output - 0.5,
        Resize2dAttr::COORD_ASYMMETRIC => index * input / output,
        Resize2dAttr::COORD_ALIGN_CORNERS if point.output > 1 => {
            index * (input - 1.0) / (output - 1.0)
        }
        _ => 0.0,
    }
}

fn locate(point: ResizePoint) -> (usize, u32) {
    let at = source_coordinate(point).max(0.0).min(point.input as f32 - 1.0);
    let low = libm::floorf(at);
    (low as usize, (at - low).to_bits())
}

fn blend(patch: ResizePatch) -> u32 {
    let f = f32::from_bits;
    let top = f(patch.p00) * (1.0 - f(patch.wx)) + f(patch.p01) * f(patch.wx);
    let bottom = f(patch.p10) * (1.0 - f(patch.wx)) + f(patch.p11) * f(patch.wx);
    (top * (1.0 - f(patch.wy)) + bottom * f(patch.wy)).to_bits()
}

#[test]
fn linear_resize_preserves_corners() {
    let geom = ResizeGeom {
        planes: 1,
        ih: 2,
        iw: 2,
        oh: 3,
        ow: 3,
        coordinate_mode: Resize2dAttr::COORD_ALIGN_CORNERS,
        nearest_mode: 0,
    };
    let output = resize_linear(&floats(&[1.0, 2.0, 3.0, 4.0]), &geom, &locate, &blend);
    let output = as_floats(&output);
    assert_eq!(output[0], 1.0);
    assert_eq!(output[2], 2.0);
    assert_eq!(output[6], 3.0);
    assert_eq!(output[8], 4.0);
    assert_eq!(output[4], 2.5);
    let asymmetric = ResizeGeom {
        coordinate_mode: Resize2dAttr::COORD_ASYMMETRIC,
        ..geom
    };
    let output = resize_linear(&floats(&[1.0, 4.0, 1.0, 4.0]), &asymmetric, &locate, &blend);
    assert_eq!(as_floats(&output)[0], 1.0);
    assert!((as_floats(&output)[1] - 3.0).abs() < 1.0e-5);
    assert_eq!(as_floats(&output)[2], 4.0);
    let nearest = |point: ResizePoint| point.index * point.input / point.output;
    let output = resize_nearest(&floats(&[1.0, 2.0, 3.0, 4.0]), &geom, &nearest);
    assert_eq!(
        as_floats(&output),
        vec![1.0, 1.0, 2.0, 1.0, 1.0, 2.0, 3.0, 3.0, 4.0]
    );
}

fn sigmoid(value: f32) -> f32 {
    1.0 / (1.0 + libm::expf(-value))
}

fn apply(kind: UnaryKind, alpha: f32, beta: f32, value: f32) -> f32 {
    match kind {
        UnaryKind::Silu => value * sigmoid(value),
        UnaryKind::Sigmoid => sigmoid(value),
        UnaryKind::Scale => alpha * value + beta,
    }
}

#[test]
fn f16_silu_matches_reference() {
    let values = [-2.0_f32, 0.5, 4.0];
    let input = halves(&values);
    let mut output = [0_u16; 3];
    let op = |bits: u16| {
        f16::from_f32(apply(UnaryKind::Silu, 0.0, 0.0, f16::from_bits(bits).to_f32())).to_bits()
    };
    run_unary(&input, &mut output, &op);
    for (value, output) in values.iter().zip(output) {
        let expected = *value / (1.0 + libm::expf(-*value));
        assert!((f16::from_bits(output).to_f32() - expected).abs() < 1e-2);
    }
}

#[test]
fn f16_rvv_unary_matches_reference() {
    let values = [-2.0_f32, 0.5, 4.0];
    let input = halves(&values);
    for (kind, alpha, beta) in [
        (UnaryKind::Silu, 0.0, 0.0),
        (UnaryKind::Sigmoid, 0.0, 0.0),
        (UnaryKind::Scale, 1.5, -0.25),
    ] {
        let mut output = [0_u16; 3];
        let op = |bits: u16| {
            f16::from_f32(apply(kind, alpha, beta, f16::from_bits(bits).to_f32())).to_bits()
        };
        run_unary(&input, &mut output, &op);
        for (output, expected) in output
            .into_iter()
            .zip(values.map(|value| apply(kind, alpha, beta, value)))
        {
            assert!((f16::from_bits(output).to_f32() - expected).abs() < 2.0e-3);
        }
    }
}

#[test]
fn unary_calls_are_checked() {
    let attr = UnaryAttr::default();
    let ctx = context(
        AiTargetHint::PREFER_A100,
        vec![view(0x1000, AiDtype::F16, &[3])],
        vec![view(0x2000, AiDtype::F16, &[3])],
        &attr,
    );
    assert_eq!(check_unary(&ctx).unwrap().1, 3);
    let short = context(
        AiTargetHint::PREFER_A100,
        vec![view(0x1000, AiDtype::F16, &[3])],
        vec![view(0x2000, AiDtype::F16, &[2])],
        &attr,
    );
    assert_eq!(check_unary(&short).err(), Some(BackendErr::InvalidTensor));
}

#[test]
fn transposing_swaps_axes() {
    let mut attr = TransposeAttr::default();
    attr.rank = DimCount(2);
    attr.perm[0] = TensorAxis(1);
    attr.perm[1] = TensorAxis(0);
    let ctx = context(
        AiTargetHint::PREFER_A100,
        vec![view(0x1000, AiDtype::I32, &[2, 3])],
        vec![view(0x2000, AiDtype::I32, &[3, 2])],
        &attr,
    );
    let (plan, permutation) = match check_transpose(&ctx) {
        Ok(checked) => checked,
        Err(_) => panic!("call should be accepted"),
    };
    let raw: Vec<u8> = (0..6_i32).flat_map(|value| value.to_le_bytes()).collect();
    let mut output = vec![0_u8; 24];
    run_transpose(&plan, &permutation, &raw, &mut output).unwrap();
    let first: Vec<u8> = output.chunks_exact(4).map(|word| word[0]).collect();
    assert_eq!(first, vec![0, 3, 1, 4, 2, 5]);
    attr.perm[1] = TensorAxis(1);
    let twice = context(
        AiTargetHint::PREFER_A100,
        vec![view(0x1000, AiDtype::I32, &[2, 3])],
        vec![view(0x2000, AiDtype::I32, &[3, 2])],
        &attr,
    );
    assert!(check_transpose(&twice).is_err());
}

#[test]
fn expanding_tiling_and_copying() {
    let input = view(0x1000, AiDtype::U8, &[1, 2]);
    let mut attr = ExpandAttr::default();
    attr.rank = DimCount(2);
    attr.target_shape[0] = DimSize(2);
    attr.target_shape[1] = DimSize(2);
    let ctx = context(
        AiTargetHint::PREFER_A100,
        vec![input],
        vec![view(0x2000, AiDtype::U8, &[2, 2])],
        &attr,
    );
    let plan = check_expand(&ctx).unwrap();
    let mut output = vec![0_u8; 4];
    run_expand(&plan, &[7, 8], &mut output).unwrap();
    assert_eq!(output, vec![7, 8, 7, 8]);

    let mut attr = TileAttr::default();
    attr.rank = DimCount(2);
    attr.repeats[0] = DimSize(1);
    attr.repeats[1] = DimSize(2);
    let ctx = context(
        AiTargetHint::PREFER_A100,
        vec![input],
        vec![view(0x2000, AiDtype::U8, &[1, 4])],
        &attr,
    );
    let plan = check_tile(&ctx).unwrap();
    run_tile(&plan, &[7, 8], &mut output).unwrap();
    assert_eq!(output, vec![7, 8, 7, 8]);

    let ctx = context(
        AiTargetHint::PREFER_A100,
        vec![view(0x1000, AiDtype::U8, &[2, 2])],
        vec![view(0x2000, AiDtype::U8, &[4])],
        &CopyAttr::default(),
    );
    let plan = check_copy(&ctx).unwrap().unwrap();
    run_copy(&plan, &[1, 2, 3, 4], &mut output).unwrap();
    assert_eq!(output, vec![1, 2, 3, 4]);
    let ctx = context(
        AiTargetHint::PREFER_A100,
        vec![view(0x1000, AiDtype::U8, &[2, 2])],
        vec![view(0x1000, AiDtype::U8, &[4])],
        &CopyAttr::default(),
    );
    assert!(matches!(check_copy(&ctx), Ok(None)));
}

#[test]
fn gathering_picks_slices_and_elements() {
    let mut attr = GatherAttr::default();
    attr.axis = TensorAxis(0);
    let ctx = context(
        AiTargetHint::PREFER_A100,
        vec![
            view(0x1000, AiDtype::U8, &[3, 2]),
            view(0x2000, AiDtype::I64, &[2]),
        ],
        vec![view(0x3000, AiDtype::U8, &[2, 2])],
        &attr,
    );
    let plan = check_gather(&ctx).unwrap();
    let data = [1_u8, 2, 3, 4, 5, 6];
    let mut output = vec![0_u8; 4];
    run_gather(&plan, &data, &long_bytes(&[2, -3]), &mut output).unwrap();
    assert_eq!(output, vec![5, 6, 1, 2]);
    assert!(run_gather(&plan, &data, &long_bytes(&[3, 0]), &mut output).is_err());

    let mut attr = GatherElementsAttr::default();
    attr.axis = TensorAxis(1);
    let ctx = context(
        AiTargetHint::PREFER_A100,
        vec![
            view(0x1000, AiDtype::U8, &[3, 2]),
            view(0x2000, AiDtype::I64, &[3, 1]),
        ],
        vec![view(0x3000, AiDtype::U8, &[3, 1])],
        &attr,
    );
    let plan = check_gather_elements(&ctx).unwrap();
    let mut output = vec![0_u8; 3];
    run_gather_elements(&plan, &data, &long_bytes(&[1, 0, -1]), &mut output).unwrap();
    assert_eq!(output, vec![2, 3, 6]);
    assert_eq!(normalize_index(-1, 5), Ok(4));
    assert!(normalize_index(5, 5).is_err());
}

#[test]
fn logical_order_survives_strides() {
    let mut meta = meta(&[2, 2], 1);
    meta.strides[0] = 1;
    meta.strides[1] = 2;
    let raw = [1_u8, 2, 3, 4];
    let logical = read_logical_bytes(&raw, &meta).unwrap();
    assert_eq!(logical, vec![1, 3, 2, 4]);
    let mut back = vec![0_u8; 4];
    write_logical_bytes(&logical, &mut back, &meta).unwrap();
    assert_eq!(back, raw.to_vec());
}

fn glu_context(attr: &GluAttr, dtype: u32, up: &[u32]) -> CallContext {
    context(
        AiTargetHint::PREFER_A100,
        vec![view(0x1000, dtype, &[2, 2]), view(0x2000, dtype, up)],
        vec![view(0x3000, dtype, &[2, 2])],
        attr,
    )
}

#[test]
fn gated_units_multiply_with_the_silu_of_the_first_operand() {
    let mut attr = GluAttr::default();
    attr.op = GluAttr::OP_SWIGLU;
    let silu = |bits: u32| {
        let x = f32::from_bits(bits);
        (x / (1.0 + (-x).exp())).to_bits()
    };
    let times = |a: u32, b: u32| (f32::from_bits(a) * f32::from_bits(b)).to_bits();
    let gate = halves(&[0.0, 1.0, -1.0, 8.0]);
    let mut output = [0_u16; 4];
    let plan = check_glu(&glu_context(&attr, AiDtype::F16, &[2, 2])).unwrap();
    let up = halves(&[3.0, 2.0, 4.0, 0.5]);
    run_glu(&plan, &gate, &up, &mut output, &widen, &silu, &times, &narrow).unwrap();
    assert_eq!(output.to_vec(), halves(&[0.0, 1.462_117_2, -1.075_765_7, 3.998_658_7]));

    let plan = check_glu(&glu_context(&attr, AiDtype::F16, &[2])).unwrap();
    let up = halves(&[3.0, 2.0]);
    let same = |bits: u32| bits;
    run_glu(&plan, &gate, &up, &mut output, &widen, &same, &times, &narrow).unwrap();
    assert_eq!(output.to_vec(), halves(&[0.0, 2.0, -3.0, 16.0]));
}

#[test]
fn gated_units_are_checked_like_binary_operators() {
    let mut attr = GluAttr::default();
    assert_eq!(
        check_glu(&glu_context(&attr, AiDtype::F16, &[2, 2])).err(),
        Some(BackendErr::InvalidAttr)
    );
    attr.op = GluAttr::OP_SWIGLU;
    attr.swapped = 1;
    assert!(check_glu(&glu_context(&attr, AiDtype::F16, &[2, 2])).is_ok());
    assert_eq!(
        check_glu(&glu_context(&attr, AiDtype::F32, &[2, 2])).err(),
        Some(BackendErr::UnsupportedDtype)
    );
    assert_eq!(
        check_glu(&glu_context(&attr, AiDtype::F16, &[3])).err(),
        Some(BackendErr::InvalidTensor)
    );
    attr.flags = OpFlags(1);
    assert_eq!(
        check_glu(&glu_context(&attr, AiDtype::F16, &[2, 2])).err(),
        Some(BackendErr::InvalidAttr)
    );
    attr.flags = OpFlags(0);
    let mut single = glu_context(&attr, AiDtype::F16, &[2, 2]);
    single.inputs.pop();
    assert_eq!(check_glu(&single).err(), Some(BackendErr::InvalidInput));
}
