//! What the decoder's kernels accept and how their launches cover the
//! operands.
use crate::cua_s1::causal_conv_cuda;
use crate::cua_s1::delta_rule_cuda::{DeltaLaunch, DeltaRule};
use crate::cua_s1::gated_rms_norm_cuda;
use crate::cua_s1::rms_norm_cuda;
use crate::cua_s1::swiglu_cuda;
use crate::device::{DType, Device};
use crate::kernel_laws::{covers, reads};
use crate::tensor::{elements, elements_one, elements_three, elements_two, Launch, TensorInfo};
use crate::tensor_laws::groups_hold_everything;
use vstd::prelude::*;

verus! {

/// Both tensors are contiguous, of this type, and on one device.
pub open spec fn alike(t: &TensorInfo, x: &TensorInfo, dtype: DType) -> bool {
    &&& t.contiguous && x.contiguous
    &&& t.dtype == dtype && x.dtype == dtype
    &&& t.device == x.device && t.device_id == x.device_id
}

/// A causal convolution takes rows of channels and the same taps for each
/// channel.
pub proof fn convolutions_have_taps_for_every_channel(x: &TensorInfo, weight: &TensorInfo)
    ensures
        causal_conv_cuda::applies(x, weight) <==> {
            &&& x.device == Device::Cuda && alike(weight, x, DType::BF16)
            &&& x.dims@.len() == 2 && weight.dims@.len() == 3
            &&& x.dims@[0] > 0 && x.dims@[1] > 0 && weight.dims@[2] > 0
            &&& weight.dims@[0] == x.dims@[1] && weight.dims@[1] == 1
            &&& x.dims@[0] * x.dims@[1] <= u32::MAX
            &&& weight.dims@[0] * weight.dims@[2] <= u32::MAX
        },
{
    if x.dims@.len() == 2 && weight.dims@.len() == 3 {
        elements_two(x.dims@);
        elements_three(weight.dims@);
        let (c, k) = (weight.dims@[0] as int, weight.dims@[2] as int);
        assert(c * 1 * k == c * k) by (nonlinear_arith);
    }
}

/// Each value of a convolution has a thread.
pub proof fn convolutions_reach_every_value(x: &TensorInfo, weight: &TensorInfo, launch: Launch)
    requires
        x.wf(),
        weight.wf(),
        causal_conv_cuda::applies(x, weight),
        causal_conv_cuda::launches(x, weight, launch),
    ensures
        launch.kernel@ == "convolve_causally_with_silu_bf16"@,
        launch.inputs@.len() == 2,
        reads(launch.inputs@[0], x, x.dims@[0] * x.dims@[1]),
        reads(launch.inputs@[1], weight, x.dims@[1] * weight.dims@[2]),
        launch.output == x.dims@[0] * x.dims@[1],
        launch.numbers@.len() == 3,
        launch.numbers@[0] == x.dims@[0] * x.dims@[1],
        launch.numbers@[1] == x.dims@[1],
        launch.numbers@[2] == weight.dims@[2],
        covers(launch, 1, x.dims@[0] * x.dims@[1]),
{
    elements_two(x.dims@);
    elements_three(weight.dims@);
    let (s, c, k) = (x.dims@[0] as int, x.dims@[1] as int, weight.dims@[2] as int);
    assert(c * 1 * k == c * k) by (nonlinear_arith);
    assert(c <= s * c) by (nonlinear_arith)
        requires
            s > 0,
            c > 0,
    ;
    assert(k <= c * k) by (nonlinear_arith)
        requires
            c > 0,
            k > 0,
    ;
    groups_hold_everything(s * c, 256);
}

/// A gated norm takes rows of 128 BF16 values with a gate of the same shape
/// and a weight for every column.
pub proof fn gated_norms_take_rows_of_128(x: &TensorInfo, weight: &TensorInfo, gate: &TensorInfo)
    ensures
        gated_rms_norm_cuda::applies(x, weight, gate) <==> {
            &&& x.device == Device::Cuda && alike(gate, x, DType::BF16)
            &&& weight.device == Device::Cuda && weight.device_id == x.device_id
            &&& weight.contiguous
            &&& weight.dtype == DType::BF16 || weight.dtype == DType::F32
            &&& x.dims@.len() > 0 && x.dims@[x.dims@.len() - 1] == 128
            &&& weight.dims@.len() == 1 && weight.dims@[0] == 128
            &&& gate.dims@ == x.dims@
            &&& elements(x.dims@) != 0 && elements(x.dims@) <= u32::MAX
        },
{
    if weight.dims@.len() == 1 && weight.dims@[0] == 128 {
        assert(weight.dims@ =~= seq![128usize]);
    }
}

/// A gated norm has a block for every row and a thread for every value.
pub proof fn gated_norms_reach_every_value(
    x: &TensorInfo,
    weight: &TensorInfo,
    gate: &TensorInfo,
    launch: Launch,
)
    requires
        x.wf(),
        weight.wf(),
        gate.wf(),
        gated_rms_norm_cuda::applies(x, weight, gate),
        gated_rms_norm_cuda::launches(x, weight, gate, launch),
    ensures
        weight.dtype == DType::BF16 ==> launch.kernel@ == "normalize_rms_gated_bf16"@,
        weight.dtype == DType::F32 ==> launch.kernel@ == "normalize_rms_gated_bf16_f32_weight"@,
        launch.inputs@.len() == 3,
        reads(launch.inputs@[0], x, elements(x.dims@) as int),
        reads(launch.inputs@[1], gate, elements(x.dims@) as int),
        reads(launch.inputs@[2], weight, 128),
        launch.output == elements(x.dims@),
        launch.numbers@.len() == 0,
        launch.grid.threads == (128u32, 1u32, 1u32),
        launch.grid.blocks.0 * 128 == elements(x.dims@),
        launch.grid.blocks.0 == elements(x.dims@.drop_last()),
{
    elements_one(weight.dims@);
    let rest = elements(x.dims@.drop_last()) as int;
    assert(elements(x.dims@) == rest * 128);
}

/// A norm takes BF16 rows of 256 or 2560 values on CUDA with a weight for every
/// column.
pub proof fn norms_take_rows_of_two_widths(x: &TensorInfo, weight: &TensorInfo)
    ensures
        rms_norm_cuda::operands_fit(x, weight) <==> {
            &&& x.device == Device::Cuda && weight.device == Device::Cuda
            &&& weight.device_id == x.device_id
            &&& x.dtype == DType::BF16 && weight.dtype == DType::BF16 && weight.contiguous
            &&& x.dims@.len() > 0
            &&& x.dims@[x.dims@.len() - 1] == 256 || x.dims@[x.dims@.len() - 1] == 2560
            &&& weight.dims@.len() == 1 && weight.dims@[0] == x.dims@[x.dims@.len() - 1]
            &&& elements(x.dims@) != 0 && elements(x.dims@) <= u32::MAX
        },
{
    if x.dims@.len() > 0 && weight.dims@.len() == 1 && weight.dims@[0] == x.dims@.last() {
        assert(weight.dims@ =~= seq![x.dims@.last()]);
    }
}

/// The rows of a contiguous tensor stand side by side; those of a view stand as
/// far apart as its second dimension says, if the first continues it.
pub proof fn rows_are_evenly_spaced(x: &TensorInfo, cols: usize)
    requires
        x.wf(),
        x.dims@.len() > 0,
        cols == x.dims@[x.dims@.len() - 1],
    ensures
        x.contiguous ==> rms_norm_cuda::row_stride(x) == Some(cols),
        !x.contiguous && x.dims@.len() != 3 ==> rms_norm_cuda::row_stride(x) is None,
        !x.contiguous && x.dims@.len() == 3 && x.strides@[2] == 1 && x.strides@[1] >= cols
            && x.strides@[0] == x.dims@[1] * x.strides@[1] ==> rms_norm_cuda::row_stride(x) == Some(
            x.strides@[1],
        ),
        !x.contiguous && x.dims@.len() == 3 && !(x.strides@[2] == 1 && x.strides@[1] >= cols
            && x.strides@[0] == x.dims@[1] * x.strides@[1]) ==> rms_norm_cuda::row_stride(x) is None,
        rms_norm_cuda::row_stride(x) matches Some(stride) ==> stride >= cols,
{
}

/// A norm has a block for every row, and reads from the first value of the
/// first row to the last value of the last.
pub proof fn norms_reach_every_row(
    x: &TensorInfo,
    weight: &TensorInfo,
    rows: int,
    cols: int,
    stride: usize,
    launch: Launch,
)
    requires
        x.wf(),
        weight.wf(),
        rms_norm_cuda::applies(x, weight),
        rms_norm_cuda::launches(x, weight, launch),
        rms_norm_cuda::row_stride(x) == Some(stride),
        rows == elements(x.dims@.drop_last()),
        cols == x.dims@[x.dims@.len() - 1],
        x.offset + (rows - 1) * stride + cols <= usize::MAX,
    ensures
        launch.kernel@ == "normalize_rms_bf16"@,
        launch.inputs@.len() == 2,
        reads(launch.inputs@[0], x, (rows - 1) * stride + cols),
        reads(launch.inputs@[1], weight, cols),
        launch.output == rows * cols,
        launch.numbers@.len() == 2,
        launch.numbers@[0] == cols,
        launch.numbers@[1] == stride,
        launch.grid.blocks.0 == rows,
        launch.grid.blocks == (rows as u32, 1u32, 1u32),
        launch.grid.threads == (256u32, 1u32, 1u32),
{
    elements_one(weight.dims@);
    assert(elements(x.dims@) == rows * cols);
    assert(rows * cols / cols == rows && 0 < rows && rows <= rows * cols) by (nonlinear_arith)
        requires
            cols > 0,
            rows >= 0,
            rows * cols > 0,
    ;
    assert((rows - 1) * stride >= 0) by (nonlinear_arith)
        requires
            rows > 0,
            stride >= 0,
    ;
}

/// The gated projections take BF16 rows of 2560 values and two weights of 9216
/// rows, at well placed operands.
pub proof fn gated_projections_take_rows_of_2560(
    x: &TensorInfo,
    gate: &TensorInfo,
    up: &TensorInfo,
    reduced_precision: bool,
)
    ensures
        swiglu_cuda::operands_fit(x, gate, up, reduced_precision) <==> {
            &&& x.device == Device::Cuda
            &&& alike(gate, x, DType::BF16) && alike(up, x, DType::BF16)
            &&& x.offset % 8 == 0 && gate.offset % 8 == 0 && up.offset % 8 == 0
            &&& x.dims@.len() > 1 && x.dims@.len() < 5
            &&& x.dims@[x.dims@.len() - 1] == 2560
            &&& gate.dims@.len() == 2 && gate.dims@[0] == 9216 && gate.dims@[1] == 2560
            &&& up.dims@ == gate.dims@
            &&& elements(x.dims@) != 0
            &&& elements(x.dims@) as int / 2560 <= 2147483647int / 9216
            &&& !reduced_precision
        },
{
    if gate.dims@.len() == 2 && gate.dims@[0] == 9216 && gate.dims@[1] == 2560 {
        assert(gate.dims@ =~= seq![9216usize, 2560]);
    }
}

/// Each row of the input gives a row of 9216 values, and the shape is kept but
/// for the last dimension.
pub proof fn gated_projections_keep_the_rows(
    x: &TensorInfo,
    gate: &TensorInfo,
    up: &TensorInfo,
    rows: int,
    call: swiglu_cuda::SwiGluCall,
)
    requires
        x.wf(),
        gate.wf(),
        up.wf(),
        swiglu_cuda::operands_fit(x, gate, up, false),
        swiglu_cuda::calls(x, gate, up, call),
        rows == elements(x.dims@.drop_last()),
    ensures
        reads(call.x, x, rows * 2560),
        reads(call.gate, gate, 9216int * 2560),
        reads(call.up, up, 9216int * 2560),
        call.m == rows,
        call.n == 9216,
        call.k == 2560,
        call.output == rows * 9216,
        elements(call.shape@) == call.output,
        call.shape@.len() == x.dims@.len(),
        forall|i: int| 0 <= i < x.dims@.len() - 1 ==> #[trigger] call.shape@[i] == x.dims@[i],
{
    assert(elements(x.dims@) == rows * 2560);
    elements_two(gate.dims@);
    elements_two(up.dims@);
    assert(call.shape@.drop_last() =~= x.dims@.drop_last());
    assert(call.shape@.last() == 9216);
}

/// A recurrence takes queries, keys and values of as many tokens and heads as
/// its gates have, with 128 key dimensions and at most 1024 value dimensions.
pub proof fn recurrences_need_matching_operands(
    rule: DeltaRule,
    query: &TensorInfo,
    key: &TensorInfo,
    value: &TensorInfo,
    tokens: usize,
    heads: usize,
    width: usize,
)
    requires
        query.dims@.len() == 3,
        value.dims@.len() == 3,
        query.dims@[0] == tokens,
        query.dims@[1] == heads,
        value.dims@[2] == width,
    ensures
        rule.failure(query, key, value) is None <==> {
            &&& tokens > 0 && heads > 0
            &&& query.dims@[2] == 128
            &&& width > 0 && width <= 1024
            &&& rule.is_parallel ==> width == 128
            &&& key.dims@ == query.dims@
            &&& value.dims@[0] == tokens && value.dims@[1] == heads
            &&& rule.beta.dims@.len() == 2 && rule.beta.dims@[0] == tokens && rule.beta.dims@[1]
                == heads
            &&& rule.decay.dims@ == rule.beta.dims@
            &&& tokens * heads * 128 <= u32::MAX
            &&& (tokens + 128) * heads * width <= u32::MAX
            &&& query.device == Device::Cuda
            &&& alike(query, key, DType::F32) && alike(query, value, DType::F32) && alike(
                query,
                &rule.beta,
                DType::F32,
            ) && alike(query, &rule.decay, DType::F32)
            &&& rule.initial_state matches Some(state) ==> {
                &&& alike(query, &state, DType::F32)
                &&& state.dims@.len() == 3 && state.dims@[0] == heads && state.dims@[1] == 128
                    && state.dims@[2] == width
            }
        },
{
    elements_three(query.dims@);
    let gates = seq![tokens, heads];
    if rule.beta.dims@.len() == 2 && rule.beta.dims@[0] == tokens && rule.beta.dims@[1] == heads {
        assert(rule.beta.dims@ =~= gates);
    }
    if let Some(state) = rule.initial_state {
        if state.dims@.len() == 3 && state.dims@[0] == heads && state.dims@[1] == query.dims@[2]
            && state.dims@[2] == width {
            assert(state.dims@ =~= seq![heads, query.dims@[2], width]);
        }
    }
}

/// Each head of a recurrence has its blocks, together the blocks hold every
/// value dimension, and the state is written behind the output where it is to
/// be saved.
pub proof fn recurrences_reach_every_head(
    rule: DeltaRule,
    query: &TensorInfo,
    key: &TensorInfo,
    value: &TensorInfo,
    plan: DeltaLaunch,
    tokens: usize,
    heads: usize,
    width: usize,
)
    requires
        rule.wf(),
        query.wf(),
        key.wf(),
        value.wf(),
        rule.failure(query, key, value) is None,
        rule.launches(query, key, value, plan),
        query.dims@[0] == tokens,
        query.dims@[1] == heads,
        value.dims@[2] == width,
    ensures
        rule.is_parallel ==> plan.launch.kernel@ == "apply_delta_rule_parallel_f32"@,
        !rule.is_parallel ==> plan.launch.kernel@ == "apply_delta_rule_f32"@,
        plan.launch.inputs@.len() == 5,
        reads(plan.launch.inputs@[0], query, tokens * heads * 128),
        reads(plan.launch.inputs@[1], key, tokens * heads * 128),
        reads(plan.launch.inputs@[2], value, tokens * heads * width),
        reads(plan.launch.inputs@[3], &rule.beta, tokens * heads),
        reads(plan.launch.inputs@[4], &rule.decay, tokens * heads),
        rule.should_save_state ==> plan.launch.output == tokens * heads * width + heads * 128
            * width,
        !rule.should_save_state ==> plan.launch.output == tokens * heads * width,
        plan.launch.numbers@.len() == 4,
        plan.launch.numbers@[0] == tokens,
        plan.launch.numbers@[1] == heads,
        plan.launch.numbers@[2] == width,
        plan.launch.numbers@[3] == 1 <==> rule.should_save_state,
        plan.launch.numbers@[3] <= 1,
        ({
            let (across, down, deep) = plan.launch.grid.blocks;
            let (threads, second, third) = plan.launch.grid.threads;
            &&& across == heads && deep == 1 && second == 1 && third == 1
            &&& rule.is_parallel ==> down * 32 == width && threads == 32 * 8
            &&& !rule.is_parallel ==> down == 1 && threads == width
        }),
        rule.initial_state is None ==> plan.initial_state is None,
        rule.initial_state matches Some(state) ==> plan.initial_state matches Some(span) && reads(
            span,
            &state,
            heads * 128 * width,
        ),
        elements(plan.shape@) == plan.launch.output,
        !rule.should_save_state ==> plan.shape@ == value.dims@,
{
    recurrences_need_matching_operands(rule, query, key, value, tokens, heads, width);
    elements_three(query.dims@);
    elements_three(key.dims@);
    elements_three(value.dims@);
    elements_two(rule.beta.dims@);
    elements_two(rule.decay.dims@);
    if let Some(state) = rule.initial_state {
        elements_three(state.dims@);
    }
    let (t, h, w) = (tokens as int, heads as int, width as int);
    assert((t + 128) * h * w == t * h * w + h * 128 * w) by (nonlinear_arith);
    assert(t <= t * h * 128 && h <= t * h * 128) by (nonlinear_arith)
        requires
            t > 0,
            h > 0,
    ;
    assert(w / w == 1) by (nonlinear_arith)
        requires
            w > 0,
    ;
    let columns = rule.columns(width) as int;
    if rule.is_parallel {
        assert(w / columns == 4) by (nonlinear_arith)
            requires
                w == 128,
                columns == 32,
        ;
    } else {
        assert(columns == w);
    }
    if rule.should_save_state {
        elements_one(plan.shape@);
    }
}

} // verus!
