use vs1::bias_act_cuda::{self, BiasPlan};
use vs1::cua_s1::causal_conv_cuda::convolve_causally_with_silu;
use vs1::cua_s1::delta_rule_cuda::{
    apply_delta_rule, apply_delta_rule_with_state, split_output_and_state,
};
use vs1::cua_s1::gated_rms_norm_cuda::normalize_rms_gated;
use vs1::cua_s1::rms_norm_cuda::normalize_rms;
use vs1::cua_s1::swiglu_cuda::{project_swiglu, read_status};
use vs1::cutlass_geglu;
use vs1::device::{DType, Device};
use vs1::geglu_cuda::{self, GegluPlan};
use vs1::gemm_cuda::{
    algorithms, choose_algorithm, config, Attribute, Engine, Retile, RetileAction, Shape, DEVICE_NAME,
};
use vs1::parallel_cuda::{
    self, known_support, needs_lanes, project, supported_device, Projection, Supported,
};
use vs1::residual_norm_cuda;
use vs1::rope_cuda;
use vs1::tensor::{count_elements, Span, TensorInfo};
use vs1::SystemOneError;

fn on(device: Device, dims: &[usize], dtype: DType) -> TensorInfo {
    let mut strides = vec![1; dims.len()];
    for i in (0..dims.len().saturating_sub(1)).rev() {
        strides[i] = strides[i + 1] * dims[i + 1];
    }
    TensorInfo {
        dims: dims.to_vec(),
        strides,
        contiguous: true,
        dtype,
        device,
        gpu: 0,
        device_id: 0,
        offset: 0,
    }
}

fn cuda(dims: &[usize], dtype: DType) -> TensorInfo {
    on(Device::Cuda, dims, dtype)
}

fn bf16(dims: &[usize]) -> TensorInfo {
    cuda(dims, DType::BF16)
}

fn message<T>(result: Result<T, SystemOneError>) -> String {
    match result {
        Ok(_) => panic!("expected a refusal"),
        Err(SystemOneError::Candle(m)) => m,
        Err(e) => e.message(),
    }
}

#[test]
fn rejects_unsupported_delta_rule_inputs() {
    let f = |dims: &[usize]| cuda(dims, DType::F32);
    let accepted = apply_delta_rule(
        &f(&[2, 2, 128]),
        &f(&[2, 2, 128]),
        &f(&[2, 2, 128]),
        f(&[2, 2]),
        f(&[2, 2]),
    );
    assert!(accepted.is_ok());
    let mut split = f(&[2, 2, 128]);
    split.contiguous = false;
    let narrowed = |dims: &[usize]| f(dims);
    for (index, invalid) in [
        (0, narrowed(&[0, 2, 128])),
        (0, narrowed(&[2, 0, 128])),
        (0, narrowed(&[2, 2, 64])),
        (1, narrowed(&[1, 2, 128])),
        (2, narrowed(&[2, 2, 0])),
        (2, f(&[2, 2, 1025])),
        (3, f(&[1, 2])),
        (4, f(&[2, 1])),
        (0, split),
        (2, bf16(&[2, 2, 128])),
        (4, on(Device::Cpu, &[2, 2], DType::F32)),
    ] {
        let mut inputs = vec![
            f(&[2, 2, 128]),
            f(&[2, 2, 128]),
            f(&[2, 2, 128]),
            f(&[2, 2]),
            f(&[2, 2]),
        ];
        inputs[index] = invalid;
        let decay = inputs.pop().unwrap();
        let beta = inputs.pop().unwrap();
        assert!(
            apply_delta_rule(&inputs[0], &inputs[1], &inputs[2], beta, decay).is_err(),
            "accepted unsupported input {index}"
        );
    }
    let flat = apply_delta_rule(
        &f(&[2, 2, 128]),
        &f(&[2, 2, 128]),
        &f(&[2, 2]),
        f(&[2, 2]),
        f(&[2, 2]),
    );
    assert_eq!(message(flat), "dim: dimension index 2 out of range for shape [2, 2]");
}

#[test]
fn delta_rule_launches_cover_heads_and_columns() {
    let f = |dims: &[usize]| cuda(dims, DType::F32);
    let (q, v) = (f(&[3, 2, 128]), f(&[3, 2, 128]));
    let rule = apply_delta_rule(&q, &q, &v, f(&[3, 2]), f(&[3, 2])).unwrap();
    assert_eq!(rule.kernel(), "apply_delta_rule_parallel_f32");
    let plan = rule.cuda_fwd(&q, &q, &v, 1024).unwrap();
    assert_eq!(plan.launch.grid.blocks, (2, 4, 1));
    assert_eq!(plan.launch.grid.threads, (256, 1, 1));
    assert_eq!(plan.launch.output, 768);
    assert_eq!(plan.launch.numbers, [3, 2, 128, 0]);
    assert_eq!(plan.shape, [3, 2, 128]);
    assert_eq!(
        message(rule.cuda_fwd(&q, &q, &v, 128)),
        "delta-rule block size 256 exceeds the kernel's block limit 128"
    );
    let w = f(&[3, 2, 5]);
    let serial = apply_delta_rule(&q, &q, &w, f(&[3, 2]), f(&[3, 2])).unwrap();
    assert_eq!(serial.kernel(), "apply_delta_rule_f32");
    let plan = serial.cuda_fwd(&q, &q, &w, 1024).unwrap();
    assert_eq!(plan.launch.grid.blocks, (2, 1, 1));
    assert_eq!(plan.launch.grid.threads, (5, 1, 1));
}

#[test]
fn saved_states_stand_behind_the_output() {
    let f = |dims: &[usize]| cuda(dims, DType::F32);
    let (q, v) = (f(&[3, 2, 128]), f(&[3, 2, 4]));
    let start = f(&[2, 128, 4]);
    let rule =
        apply_delta_rule_with_state(&q, &q, &v, f(&[3, 2]), f(&[3, 2]), Some(start)).unwrap();
    let plan = rule.cuda_fwd(&q, &q, &v, 1024).unwrap();
    assert_eq!(plan.launch.output, 24 + 1024);
    assert_eq!(plan.shape, [1048]);
    assert_eq!(plan.initial_state, Some(Span { start: 0, end: 1024 }));
    assert_eq!(plan.launch.numbers[3], 1);
    let parts = split_output_and_state(&v, 128);
    assert_eq!(parts.output, Span { start: 0, end: 24 });
    assert_eq!(parts.state, Span { start: 24, end: 1048 });
    assert_eq!(parts.state_dims, [2, 128, 4]);
    let wrong = f(&[2, 4, 128]);
    assert_eq!(
        message(apply_delta_rule_with_state(&q, &q, &v, f(&[3, 2]), f(&[3, 2]), Some(wrong))),
        "delta-rule state has incompatible shape, dtype or device"
    );
}

#[test]
fn convolutions_get_a_thread_for_every_element() {
    let launch = convolve_causally_with_silu(&bf16(&[3, 100]), &bf16(&[100, 1, 4])).unwrap();
    assert_eq!(launch.kernel, "convolve_causally_with_silu_bf16");
    assert_eq!(launch.inputs, [Span { start: 0, end: 300 }, Span { start: 0, end: 400 }]);
    assert_eq!(launch.numbers, [300, 100, 4]);
    assert_eq!(launch.grid.blocks, (2, 1, 1));
    assert!(convolve_causally_with_silu(&bf16(&[3, 100]), &bf16(&[99, 1, 4])).is_none());
    assert!(convolve_causally_with_silu(&bf16(&[0, 100]), &bf16(&[100, 1, 4])).is_none());
    assert!(convolve_causally_with_silu(
        &on(Device::Cpu, &[3, 100], DType::BF16),
        &bf16(&[100, 1, 4])
    )
    .is_none());
}

#[test]
fn gated_norms_take_rows_of_one_length() {
    let launch =
        normalize_rms_gated(&bf16(&[5, 2, 128]), &bf16(&[128]), &bf16(&[5, 2, 128])).unwrap();
    assert_eq!(launch.kernel, "normalize_rms_gated_bf16");
    assert_eq!(launch.grid.blocks, (10, 1, 1));
    assert_eq!(launch.output, 1280);
    let wide = cuda(&[128], DType::F32);
    let launch = normalize_rms_gated(&bf16(&[5, 128]), &wide, &bf16(&[5, 128])).unwrap();
    assert_eq!(launch.kernel, "normalize_rms_gated_bf16_f32_weight");
    assert!(normalize_rms_gated(&bf16(&[5, 64]), &bf16(&[64]), &bf16(&[5, 64])).is_none());
}

#[test]
fn norms_read_rows_that_are_spaced() {
    let launch = normalize_rms(&bf16(&[7, 2560]), &bf16(&[2560])).unwrap();
    assert_eq!(launch.numbers, [2560, 2560]);
    assert_eq!(launch.grid.blocks, (7, 1, 1));
    let mut query = bf16(&[3, 2, 256]);
    query.contiguous = false;
    query.strides = vec![1024, 512, 1];
    let launch = normalize_rms(&query, &bf16(&[256])).unwrap();
    assert_eq!(launch.numbers, [256, 512]);
    assert_eq!(launch.inputs[0], Span { start: 0, end: 5 * 512 + 256 });
    assert_eq!(launch.output, 1536);
    query.strides = vec![1025, 512, 1];
    assert!(normalize_rms(&query, &bf16(&[256])).is_none());
    assert!(normalize_rms(&bf16(&[7, 128]), &bf16(&[128])).is_none());
}

#[test]
fn gated_projections_need_the_models_shapes() {
    let (gate, up) = (bf16(&[9216, 2560]), bf16(&[9216, 2560]));
    let call = project_swiglu(&bf16(&[2, 3, 2560]), &gate, &up, false, 8).unwrap();
    assert_eq!((call.m, call.n, call.k), (6, 9216, 2560));
    assert_eq!(call.output, 6 * 9216);
    assert_eq!(call.shape, [2, 3, 9216]);
    assert!(project_swiglu(&bf16(&[6, 2560]), &gate, &up, true, 8).is_none());
    assert!(project_swiglu(&bf16(&[6, 2560]), &gate, &up, false, 7).is_none());
    assert!(project_swiglu(&bf16(&[2560]), &gate, &up, false, 8).is_none());
    let mut shifted = bf16(&[6, 2560]);
    shifted.offset = 4;
    assert!(project_swiglu(&shifted, &gate, &up, false, 8).is_none());
    assert_eq!(read_status(0).unwrap(), true);
    assert_eq!(read_status(-1).unwrap(), false);
    assert_eq!(message(read_status(-7)), "CUTLASS dual SwiGLU status -7");
}

#[test]
fn biases_are_added_in_groups_of_eight() {
    let launch = bias_act_cuda::forward(&bf16(&[10, 512]), &bf16(&[512]), true).unwrap();
    assert_eq!(launch.kernel, "bias_relu_bf16");
    assert_eq!(launch.numbers, [640, 64]);
    assert_eq!(launch.grid.blocks, (3, 1, 1));
    assert!(bias_act_cuda::forward(&bf16(&[10, 4]), &bf16(&[4]), false).is_none());
    let (product, bias) = (bf16(&[10, 512]), bf16(&[512]));
    assert!(matches!(bias_act_cuda::linear(2, &product, Some(&bias), false), BiasPlan::Kernel(l) if l.kernel == "bias_add_bf16"));
    assert!(matches!(bias_act_cuda::linear(2, &product, None, false), BiasPlan::Layer));
    assert!(matches!(bias_act_cuda::linear(3, &product, Some(&bias), false), BiasPlan::Layer));
    let cpu = on(Device::Cpu, &[10, 512], DType::BF16);
    assert!(matches!(bias_act_cuda::linear(2, &cpu, Some(&bias), false), BiasPlan::Broadcast));
}

#[test]
fn rotations_write_queries_before_keys() {
    let (q, table) = (bf16(&[7, 3, 80]), bf16(&[7, 40]));
    let launch = rope_cuda::forward(&q, &q, &table, &table).unwrap();
    assert_eq!(launch.output, 2 * 1680);
    assert_eq!(launch.numbers, [1680, 3, 80]);
    assert_eq!(launch.grid.blocks, (4, 1, 1));
    assert_eq!(launch.inputs[2], Span { start: 0, end: 280 });
    assert_eq!(
        message(rope_cuda::forward(&q, &q, &table, &bf16(&[7, 41]))),
        "invalid packed BF16 rotary inputs"
    );
    let cpu = |dims: &[usize]| on(Device::Cpu, dims, DType::BF16);
    assert_eq!(
        message(rope_cuda::forward(
            &cpu(&[7, 3, 80]),
            &cpu(&[7, 3, 80]),
            &cpu(&[7, 40]),
            &cpu(&[7, 40])
        )),
        "paired rotary requires CUDA"
    );
    assert_eq!(
        message(rope_cuda::forward(&table, &q, &table, &table)),
        "unexpected rank, expected: 3, got: 2 ([7, 40])"
    );
}

#[test]
fn gated_activations_are_read_in_pairs_where_they_can_be() {
    let a = bf16(&[5, 101]);
    let Ok(GegluPlan::Kernel(launch)) = geglu_cuda::forward(&a, &a) else { panic!("kernel") };
    assert_eq!(launch.kernel, "geglu_bf16_pair");
    assert_eq!(launch.grid.unwrap().blocks, (1, 1, 1));
    let mut odd = bf16(&[5, 101]);
    odd.offset = 1;
    let Ok(GegluPlan::Kernel(launch)) = geglu_cuda::forward(&a, &odd) else { panic!("kernel") };
    assert_eq!(launch.kernel, "geglu_bf16");
    assert!(launch.grid.is_none());
    assert_eq!(launch.gate, Span { start: 1, end: 506 });
    let wide = cuda(&[5, 101], DType::F32);
    assert!(matches!(geglu_cuda::forward(&wide, &wide), Ok(GegluPlan::Separately)));
    assert_eq!(
        message(geglu_cuda::forward(&a, &bf16(&[101, 5]))),
        "fused GeGLU requires contiguous, equally shaped inputs"
    );
}

#[test]
fn residual_norms_write_sums_before_norms() {
    let x = bf16(&[6, 1024]);
    let launch = residual_norm_cuda::forward(&x, &x, &bf16(&[1024])).unwrap();
    assert_eq!(launch.output, 2 * 6144);
    assert_eq!(launch.grid.threads, (1024, 1, 1));
    let y = bf16(&[6, 768]);
    let launch = residual_norm_cuda::forward(&y, &y, &bf16(&[768])).unwrap();
    assert_eq!(launch.grid.threads, (32, 1, 1));
    assert_eq!(launch.grid.blocks, (6, 1, 1));
    let wide = bf16(&[6, 1025]);
    assert_eq!(
        message(residual_norm_cuda::forward(&wide, &wide, &bf16(&[1025]))),
        "invalid BF16 residual norm inputs"
    );
    let cpu = on(Device::Cpu, &[6, 8], DType::BF16);
    assert_eq!(
        message(residual_norm_cuda::forward(&cpu, &cpu, &on(Device::Cpu, &[8], DType::BF16))),
        "fused residual norm requires CUDA"
    );
}

fn algorithm(tile: u32, last: u32) -> Option<Vec<u32>> {
    Some(vec![21, tile, 4, 4, 12, 0, 0, 1, last])
}

#[test]
fn only_the_tile_of_a_known_algorithm_is_exchanged() {
    let configs = vec![algorithm(18, 2), algorithm(15, 3), None, algorithm(15, 2), algorithm(15, 2)];
    assert_eq!(choose_algorithm(&configs), Some(3));
    assert_eq!(choose_algorithm(&configs[..3].to_vec()), None);
    assert_eq!(choose_algorithm(&vec![algorithm(20, 2), algorithm(15, 2)]), None);
    assert_eq!(choose_algorithm(&vec![]), None);
    let mut attributes: Vec<Attribute> =
        (0..9).map(|i| Attribute { value: i, written: if i < 7 { 4 } else { 2 } }).collect();
    assert_eq!(config(&attributes), Some((0..9).collect::<Vec<u32>>()));
    attributes[8].written = 4;
    assert_eq!(config(&attributes), None);
    assert_eq!(algorithms(&vec![true, false, true]), [0, 2]);
}

#[test]
fn short_products_are_planned_once_per_shape() {
    let mut retile = Retile::new();
    let (xs, weight) = (bf16(&[130, 1024]), bf16(&[1024, 1024]));
    let shape = Shape { m: 130, n: 1024, k: 1024 };
    assert_eq!(retile.linear(&xs, &weight, false).unwrap(), RetileAction::Inspect(shape));
    assert_eq!(retile.inspected(DEVICE_NAME, 120901, shape), RetileAction::Prepare(shape));
    assert_eq!(retile.linear(&xs, &weight, false).unwrap(), RetileAction::Inspect(shape));
    assert_eq!(retile.inspected(DEVICE_NAME, 120901, shape), RetileAction::Prepare(shape));
    assert_eq!(retile.prepared(shape), RetileAction::Configure(shape));
    let configs = vec![algorithm(18, 2), algorithm(15, 2)];
    assert_eq!(retile.configured(shape, &configs), RetileAction::Run(shape, 1));
    assert_eq!(retile.linear(&xs, &weight, false).unwrap(), RetileAction::Run(shape, 1));
    let other = Shape { m: 131, n: 1024, k: 1024 };
    let ys = bf16(&[131, 1024]);
    assert_eq!(retile.linear(&ys, &weight, false).unwrap(), RetileAction::Configure(other));
    assert_eq!(retile.configured(other, &vec![]), RetileAction::Apply);
    assert_eq!(retile.linear(&ys, &weight, false).unwrap(), RetileAction::Apply);
    assert_eq!(retile.linear(&xs, &weight, false).unwrap(), RetileAction::Run(shape, 1));
    assert_eq!(retile.linear(&xs, &weight, true).unwrap(), RetileAction::Apply);
    assert_eq!(retile.linear(&bf16(&[128, 1024]), &weight, false).unwrap(), RetileAction::Apply);
    let mut shifted = bf16(&[130, 1024]);
    shifted.offset = 64;
    assert_eq!(retile.linear(&shifted, &weight, false).unwrap(), RetileAction::Apply);
    assert!(retile.linear(&xs, &bf16(&[]), false).is_err());
}

#[test]
fn other_devices_keep_ordinary_products() {
    let mut retile = Retile::new();
    let (xs, weight) = (bf16(&[130, 1024]), bf16(&[1024, 1024]));
    let shape = Shape { m: 130, n: 1024, k: 1024 };
    assert_eq!(retile.inspected("another device", 120901, shape), RetileAction::Apply);
    assert!(retile.disabled);
    assert_eq!(retile.linear(&xs, &weight, false).unwrap(), RetileAction::Apply);
}

#[test]
fn threads_wait_for_each_others_scratch_memory() {
    let mut engine = Engine { last_thread: None };
    assert!(!engine.in_use());
    let shape = Shape { m: 130, n: 1024, k: 1024 };
    let (x, w) = (bf16(&[130, 1024]), bf16(&[1024, 1024]));
    let step = engine.cuda_fwd(shape, &x, &w, 1).unwrap();
    assert!(!step.wait);
    assert_eq!(step.product.output, 130 * 1024);
    engine.record(1);
    assert!(engine.in_use());
    assert!(!engine.cuda_fwd(shape, &x, &w, 1).unwrap().wait);
    assert!(engine.cuda_fwd(shape, &x, &w, 2).unwrap().wait);
    assert_eq!(message(engine.cuda_fwd(shape, &w, &x, 2)), "invalid GEMM layouts");
    let wide = cuda(&[130, 1024], DType::F32);
    assert_eq!(message(engine.cuda_fwd(shape, &wide, &w, 2)), "BF16 only");
}

#[test]
fn large_inputs_are_projected_side_by_side() {
    assert!(parallel_cuda::enabled("qkv", &bf16(&[1536, 1024]), false));
    assert!(!parallel_cuda::enabled("ffn", &bf16(&[1536, 1024]), false));
    assert!(parallel_cuda::enabled("ffn", &bf16(&[2048, 1024]), false));
    assert!(!parallel_cuda::enabled("qkv", &bf16(&[1536, 1024]), true));
    assert!(!parallel_cuda::enabled("qkv", &bf16(&[1536, 768]), false));
    let found = supported_device(5, Some((DEVICE_NAME, 120901)));
    assert!(found.value);
    assert_eq!(known_support(Some(found), 5), Some(true));
    assert_eq!(known_support(Some(found), 6), None);
    assert_eq!(known_support(None, 5), None);
    assert!(!supported_device(5, None).value);
    assert!(!supported_device(5, Some((DEVICE_NAME, 120900))).value);
    let other = Supported { context: 5, value: false };
    assert_eq!(known_support(Some(other), 5), Some(false));
    assert!(needs_lanes(None, 5));
    assert!(needs_lanes(Some(4), 5));
    assert!(!needs_lanes(Some(5), 5));
}

#[test]
fn projection_groups_have_one_to_three_plain_matrices() {
    let xs = bf16(&[4, 8]);
    let plain = |n: usize| Projection { weight: bf16(&[n, 8]), has_bias: false };
    let products = project(&xs, &vec![plain(3), plain(5)]).unwrap();
    assert_eq!(products.len(), 2);
    assert_eq!(products[1].output, 20);
    assert_eq!(products[1].weight, Span { start: 0, end: 40 });
    assert_eq!(
        message(project(&xs, &vec![])),
        "projection group must contain one to three matrices"
    );
    assert!(project(&xs, &vec![plain(1), plain(1), plain(1), plain(1)]).is_err());
    let biased = Projection { weight: bf16(&[3, 8]), has_bias: true };
    assert_eq!(message(project(&xs, &vec![plain(3), biased])), "bias unsupported");
    let narrow = Projection { weight: bf16(&[3, 7]), has_bias: false };
    assert_eq!(message(project(&xs, &vec![narrow])), "projection layout");
}

#[test]
fn large_gated_products_are_one_kernel() {
    let (xs, weight) = (bf16(&[2048, 1024]), bf16(&[2624, 1024]));
    assert!(cutlass_geglu::dual_enabled());
    assert!(cutlass_geglu::enabled(&xs, &weight, false, true));
    assert!(!cutlass_geglu::enabled(&xs, &weight, false, false));
    assert!(!cutlass_geglu::enabled(&bf16(&[2047, 1024]), &weight, false, true));
    let call = cutlass_geglu::dual_forward(&xs, &weight, &weight).unwrap();
    assert_eq!((call.m, call.n, call.k), (2048, 2624, 1024));
    assert_eq!(call.output, 2048 * 2624);
    assert_eq!(
        message(cutlass_geglu::dual_forward(&xs, &weight, &bf16(&[2623, 1024]))),
        "dual GeGLU weights must match"
    );
    let gate = bf16(&[2048, 2624]);
    assert_eq!(cutlass_geglu::forward(&xs, &weight, &gate).unwrap().second.end, 2048 * 2624);
    assert_eq!(
        message(cutlass_geglu::forward(&xs, &weight, &weight)),
        "invalid fused GEMM layouts"
    );
    assert!(cutlass_geglu::read_status(0, true).is_ok());
    assert_eq!(message(cutlass_geglu::read_status(3, true)), "CUTLASS dual status 3");
    assert_eq!(message(cutlass_geglu::read_status(-3, false)), "CUTLASS status -3");
}

#[test]
fn elements_are_counted_while_the_count_fits() {
    assert_eq!(count_elements(&vec![]), Some(1));
    assert_eq!(count_elements(&vec![3, 4, 5]), Some(60));
    assert_eq!(count_elements(&vec![usize::MAX, 0]), Some(0));
    assert_eq!(count_elements(&vec![usize::MAX, 2]), None);
}

#[test]
fn kernels_refuse_operands_at_other_places() {
    let (x, w) = (bf16(&[4, 8]), bf16(&[8, 8]));
    let far = TensorInfo { gpu: 1, device_id: 1, ..bf16(&[8, 8]) };
    let cpu = |dims: &[usize]| on(Device::Cpu, dims, DType::BF16);
    let metal = |dims: &[usize]| on(Device::Metal, dims, DType::BF16);
    assert_eq!(
        message(cutlass_geglu::dual_forward(&cpu(&[4, 8]), &cpu(&[8, 8]), &cpu(&[8, 8]))),
        "CUDA only"
    );
    assert_eq!(
        message(cutlass_geglu::dual_forward(&x, &w, &far)),
        "device mismatch in vs1_cutlass_dual_geglu, lhs: Cuda { gpu_id: 0 }, rhs: Cuda { gpu_id: 1 }"
    );
    assert_eq!(
        message(cutlass_geglu::forward(&x, &cpu(&[8, 8]), &x)),
        "device mismatch in vs1_cutlass_geglu, lhs: Cuda { gpu_id: 0 }, rhs: Cpu"
    );
    assert_eq!(
        message(cutlass_geglu::forward(&metal(&[4, 8]), &metal(&[8, 8]), &metal(&[4, 8]))),
        "Metal error no metal implementation for vs1_cutlass_geglu"
    );
    assert_eq!(
        message(parallel_cuda::cuda_fwd(&cpu(&[4, 8]), &cpu(&[8, 8]))),
        "CUDA only"
    );
    let projection = |weight| vec![Projection { weight, has_bias: false }];
    assert_eq!(
        message(project(&cpu(&[4, 8]), &projection(cpu(&[8, 8])))),
        "expected a cuda device, got cpu"
    );
    assert_eq!(
        message(project(&x, &projection(far))),
        "device mismatch in vs1_parallel_projection, lhs: Cuda { gpu_id: 0 }, rhs: Cuda { gpu_id: 1 }"
    );
    let gate = TensorInfo { gpu: 1, ..bf16(&[4, 8]) };
    assert_eq!(
        message(geglu_cuda::forward(&x, &gate)),
        "device mismatch in vs1_geglu_bf16, lhs: Cuda { gpu_id: 0 }, rhs: Cuda { gpu_id: 1 }"
    );
    assert_eq!(
        message(residual_norm_cuda::forward(&metal(&[2, 8]), &metal(&[2, 8]), &metal(&[8]))),
        "Metal error no metal implementation for vs1_residual_norm"
    );
    let engine = Engine { last_thread: None };
    let shape = Shape { m: 4, n: 8, k: 8 };
    assert_eq!(message(engine.cuda_fwd(shape, &cpu(&[4, 8]), &cpu(&[8, 8]), 1)), "CUDA only");
}
