//! What the kernels accept and how their launches cover the operands.
use crate::bias_act_cuda;
use crate::cutlass_geglu;
use crate::device::{DType, Device};
use crate::error::Failure;
use crate::geglu_cuda;
use crate::parallel_cuda;
use crate::residual_norm_cuda;
use crate::rope_cuda;
use crate::tensor::{
    elements, elements_one, elements_three, elements_two, Launch, Span, TensorInfo,
};
use crate::tensor_laws::groups_hold_everything;
use vstd::prelude::*;

verus! {

/// The span holds the first `n` values of the tensor.
pub open spec fn reads(span: Span, t: &TensorInfo, n: int) -> bool {
    span.start == t.offset && span.end == t.offset + n
}

/// A line of threads, each for `each` values, holds `n` values, and the last
/// block is not idle.
pub open spec fn covers(launch: Launch, each: int, n: int) -> bool {
    let (width, height, depth) = launch.grid.blocks;
    let (threads, second, third) = launch.grid.threads;
    &&& height == 1 && depth == 1 && second == 1 && third == 1
    &&& width * threads * each >= n
    &&& (width - 1) * threads * each < n
}

proof fn blocks_of_256(n: int) -> (g: int)
    requires
        0 <= n <= u32::MAX,
    ensures
        g == crate::tensor::groups_of(n, 256),
        0 <= g <= u32::MAX,
        g * 256 >= n,
        (g - 1) * 256 < n,
{
    groups_hold_everything(n, 256);
    crate::tensor::groups_of(n, 256)
}

/// A bias is added, or added and rectified, to BF16 rows on CUDA whose width is
/// a multiple of eight.
pub proof fn biases_are_added_to_rows_of_eights(x: &TensorInfo, bias: &TensorInfo)
    ensures
        bias_act_cuda::applies(x, bias) ==> {
            &&& x.device == Device::Cuda && bias.device == Device::Cuda
            &&& x.device_id == bias.device_id
            &&& x.dtype == DType::BF16 && bias.dtype == DType::BF16
            &&& x.contiguous && bias.contiguous
            &&& x.offset % 8 == 0 && bias.offset % 8 == 0
            &&& x.dims@.len() == 2 && bias.dims@.len() == 1
            &&& bias.dims@[0] == x.dims@[1]
            &&& x.dims@[1] % 8 == 0 && x.dims@[0] > 0
            &&& x.dims@[0] * x.dims@[1] <= u32::MAX
        },
        x.device == Device::Cuda && x.beside(bias) && x.dtype == DType::BF16 && bias.dtype
            == DType::BF16 && x.contiguous && bias.contiguous && x.offset % 8 == 0 && bias.offset
            % 8 == 0 && x.dims@.len() == 2 && bias.dims@.len() == 1 && bias.dims@[0] == x.dims@[1]
            && x.dims@[1] % 8 == 0 && x.dims@[0] > 0 && x.dims@[0] * x.dims@[1] <= u32::MAX
            ==> bias_act_cuda::applies(x, bias),
{
    if x.dims@.len() == 2 {
        elements_two(x.dims@);
        if bias.dims@.len() == 1 && bias.dims@[0] == x.dims@[1] {
            assert(bias.dims@ =~= seq![x.dims@[1]]);
        }
    }
}

/// A thread takes eight values of the rows, all values are taken, and the
/// kernel learns how many groups of eight there are, in all and in a row.
pub proof fn biases_reach_every_value(
    x: &TensorInfo,
    bias: &TensorInfo,
    relu: bool,
    launch: Launch,
)
    requires
        x.wf(),
        bias.wf(),
        bias_act_cuda::applies(x, bias),
        bias_act_cuda::launches(x, bias, relu, launch),
    ensures
        relu ==> launch.kernel@ == "bias_relu_bf16"@,
        !relu ==> launch.kernel@ == "bias_add_bf16"@,
        launch.inputs@.len() == 2,
        reads(launch.inputs@[0], x, x.dims@[0] * x.dims@[1]),
        reads(launch.inputs@[1], bias, x.dims@[1] as int),
        launch.output == x.dims@[0] * x.dims@[1],
        launch.numbers@.len() == 2,
        launch.numbers@[0] * 8 == x.dims@[0] * x.dims@[1],
        launch.numbers@[1] * 8 == x.dims@[1],
        covers(launch, 8, x.dims@[0] * x.dims@[1]),
{
    elements_two(x.dims@);
    elements_one(bias.dims@);
    let (rows, cols) = (x.dims@[0] as int, x.dims@[1] as int);
    let n = rows * cols;
    let eights = cols / 8;
    assert(rows * cols == (rows * eights) * 8) by (nonlinear_arith)
        requires
            cols == eights * 8,
    ;
    assert(cols <= n) by (nonlinear_arith)
        requires
            n == rows * cols,
            rows > 0,
            cols >= 0,
    ;
    let g = blocks_of_256(n / 8);
}

/// Activation and gate are multiplied where both are contiguous BF16 on CUDA
/// and not empty.
pub proof fn gates_are_applied_to_plain_operands(activation: &TensorInfo, gate: &TensorInfo)
    ensures
        geglu_cuda::applies(activation, gate) <==> activation.device == Device::Cuda && (
        activation.dtype == DType::BF16 && gate.dtype == DType::BF16) && (activation.contiguous
            && gate.contiguous) && elements(activation.dims@) != 0 && elements(activation.dims@)
            <= 0xffff_ffff,
        geglu_cuda::failure(activation, gate) is None <==> activation.placed_with(gate)
            && activation.dims@ == gate.dims@,
{
}

/// Values are taken in pairs where both operands begin at an even place, and
/// then every value is reached.
pub proof fn gates_reach_every_value(
    activation: &TensorInfo,
    gate: &TensorInfo,
    launch: geglu_cuda::GegluLaunch,
)
    requires
        activation.wf(),
        gate.wf(),
        geglu_cuda::applies(activation, gate),
        activation.dims@ == gate.dims@,
        geglu_cuda::launches(activation, gate, launch),
    ensures
        launch.kernel@ == "geglu_bf16_pair"@ <==> activation.offset % 2 == 0 && gate.offset % 2
            == 0,
        launch.kernel@ == "geglu_bf16_pair"@ || launch.kernel@ == "geglu_bf16"@,
        reads(launch.activation, activation, elements(activation.dims@) as int),
        reads(launch.gate, gate, elements(activation.dims@) as int),
        launch.count == elements(activation.dims@),
        launch.grid is Some <==> activation.offset % 2 == 0 && gate.offset % 2 == 0,
        launch.grid matches Some(grid) ==> {
            let (width, height, depth) = grid.blocks;
            let (threads, second, third) = grid.threads;
            &&& height == 1 && depth == 1 && second == 1 && third == 1
            &&& threads == 256
            &&& width * threads * 2 >= elements(activation.dims@)
            &&& (width - 1) * threads * 2 < elements(activation.dims@)
        },
{
    reveal_strlit("geglu_bf16_pair");
    reveal_strlit("geglu_bf16");
    assert("geglu_bf16_pair"@.len() == 15 && "geglu_bf16"@.len() == 10);
    let n = elements(activation.dims@) as int;
    groups_hold_everything(n, 2);
    let g = blocks_of_256(crate::tensor::groups_of(n, 2));
}

/// Two inputs are added and normalised where they are plain BF16 rows of one
/// shape, at most 1024 wide, with a weight for every column.
pub proof fn sums_are_normalised_over_plain_rows(
    x: &TensorInfo,
    y: &TensorInfo,
    weight: &TensorInfo,
)
    ensures
        residual_norm_cuda::failure(x, y, weight) is None <==> {
            &&& x.dims@.len() == 2
            &&& 0 < x.dims@[0]
            &&& 0 < x.dims@[1] && x.dims@[1] <= 1024
            &&& x.dims@[0] * x.dims@[1] <= 2147483647
            &&& y.dims@ == x.dims@
            &&& weight.dims@.len() == 1 && weight.dims@[0] == x.dims@[1]
            &&& x.contiguous && y.contiguous && weight.contiguous
            &&& x.dtype == DType::BF16 && y.dtype == DType::BF16 && weight.dtype == DType::BF16
            &&& x.device == Device::Cuda && y.device == Device::Cuda && weight.device
                == Device::Cuda
            &&& y.device_id == x.device_id && weight.device_id == x.device_id
        },
{
    if x.dims@.len() == 2 {
        elements_two(x.dims@);
        if weight.dims@.len() == 1 && weight.dims@[0] == x.dims@[1] {
            assert(weight.dims@ =~= seq![x.dims@[1]]);
        }
    }
}

/// Each row has a block of its own, and the sums are written in front of the
/// normalised sums.
pub proof fn sums_have_a_block_per_row(
    x: &TensorInfo,
    y: &TensorInfo,
    weight: &TensorInfo,
    launch: Launch,
)
    requires
        x.wf(),
        y.wf(),
        weight.wf(),
        residual_norm_cuda::failure(x, y, weight) is None,
        residual_norm_cuda::launches(x, y, weight, launch),
    ensures
        launch.kernel@ == "residual_norm_bf16"@,
        launch.inputs@.len() == 3,
        reads(launch.inputs@[0], x, x.dims@[0] * x.dims@[1]),
        reads(launch.inputs@[1], y, x.dims@[0] * x.dims@[1]),
        reads(launch.inputs@[2], weight, x.dims@[1] as int),
        launch.output == x.dims@[0] * x.dims@[1] + x.dims@[0] * x.dims@[1],
        launch.numbers@.len() == 2,
        launch.numbers@[0] == x.dims@[0] * x.dims@[1],
        launch.numbers@[1] == x.dims@[1],
        launch.grid.blocks == (x.dims@[0] as u32, 1u32, 1u32),
        launch.grid.blocks.0 == x.dims@[0],
        x.dims@[1] < 1024 ==> launch.grid.threads == (32u32, 1u32, 1u32),
        x.dims@[1] == 1024 ==> launch.grid.threads == (1024u32, 1u32, 1u32),
{
    elements_two(x.dims@);
    elements_one(weight.dims@);
    let (rows, cols) = (x.dims@[0] as int, x.dims@[1] as int);
    assert(rows <= rows * cols && cols <= rows * cols) by (nonlinear_arith)
        requires
            rows > 0,
            cols > 0,
    ;
}

/// Queries and keys are rotated where they are plain BF16 of one shape with an
/// even head width, and each pair of a token has its cosine and sine.
pub proof fn rotations_need_an_angle_per_pair(
    q: &TensorInfo,
    k: &TensorInfo,
    cos: &TensorInfo,
    sin: &TensorInfo,
)
    ensures
        rope_cuda::failure(q, k, cos, sin) is None <==> {
            &&& q.dims@.len() == 3
            &&& 0 < q.dims@[0] && 0 < q.dims@[1] && 0 < q.dims@[2]
            &&& q.dims@[2] % 2 == 0
            &&& q.dims@[0] * q.dims@[1] * q.dims@[2] <= 2147483647
            &&& k.dims@ == q.dims@
            &&& cos.dims@.len() == 2
            &&& cos.dims@[0] == q.dims@[0]
            &&& cos.dims@[1] * 2 == q.dims@[2]
            &&& sin.dims@ == cos.dims@
            &&& q.contiguous && k.contiguous && cos.contiguous && sin.contiguous
            &&& q.dtype == DType::BF16 && k.dtype == DType::BF16 && cos.dtype == DType::BF16
                && sin.dtype == DType::BF16
            &&& q.device == Device::Cuda && k.device == Device::Cuda && cos.device == Device::Cuda
                && sin.device == Device::Cuda
            &&& k.device_id == q.device_id && cos.device_id == q.device_id && sin.device_id
                == q.device_id
        },
{
    if q.dims@.len() == 3 {
        elements_three(q.dims@);
        if cos.dims@.len() == 2 && cos.dims@[0] == q.dims@[0] && cos.dims@[1] * 2 == q.dims@[2] {
            assert(cos.dims@ =~= seq![q.dims@[0], (q.dims@[2] as int / 2) as usize]);
        }
    }
}

/// A thread takes a pair of values, every pair is taken, and the rotated
/// queries are written in front of the rotated keys.
pub proof fn rotations_reach_every_pair(
    q: &TensorInfo,
    k: &TensorInfo,
    cos: &TensorInfo,
    sin: &TensorInfo,
    launch: Launch,
)
    requires
        q.wf(),
        k.wf(),
        cos.wf(),
        sin.wf(),
        rope_cuda::failure(q, k, cos, sin) is None,
        rope_cuda::launches(q, k, cos, sin, launch),
    ensures
        launch.kernel@ == "rope_pair_bf16"@,
        launch.inputs@.len() == 4,
        reads(launch.inputs@[0], q, q.dims@[0] * q.dims@[1] * q.dims@[2]),
        reads(launch.inputs@[1], k, q.dims@[0] * q.dims@[1] * q.dims@[2]),
        reads(launch.inputs@[2], cos, q.dims@[0] * cos.dims@[1]),
        reads(launch.inputs@[3], sin, q.dims@[0] * cos.dims@[1]),
        launch.output == q.dims@[0] * q.dims@[1] * q.dims@[2] + k.dims@[0] * k.dims@[1]
            * k.dims@[2],
        launch.numbers@.len() == 3,
        launch.numbers@[0] == q.dims@[0] * q.dims@[1] * q.dims@[2],
        launch.numbers@[1] == q.dims@[1],
        launch.numbers@[2] == q.dims@[2],
        covers(launch, 2, q.dims@[0] * q.dims@[1] * q.dims@[2]),
{
    elements_three(q.dims@);
    elements_two(cos.dims@);
    elements_two(sin.dims@);
    let (t, h, d) = (q.dims@[0] as int, q.dims@[1] as int, q.dims@[2] as int);
    let n = t * h * d;
    let half = d / 2;
    assert(t * h * d == (t * h * half) * 2) by (nonlinear_arith)
        requires
            d == half * 2,
    ;
    assert(h <= t * h * d && d <= t * h * d) by (nonlinear_arith)
        requires
            t > 0,
            h > 0,
            d > 0,
    ;
    let g = blocks_of_256(n / 2);
}

/// Side by side, inputs are projected that are 1024 wide and have many rows:
/// queries, keys and values from 1536 rows on, others from 2048.
pub proof fn many_rows_are_projected_side_by_side(
    kind: Seq<char>,
    xs: &TensorInfo,
    reduced_precision: bool,
)
    ensures
        parallel_cuda::worthwhile("qkv"@, xs, reduced_precision) <==> {
            &&& xs.dims@.len() == 2 && xs.dims@[0] >= 1536 && xs.dims@[1] == 1024
            &&& xs.device == Device::Cuda && xs.dtype == DType::BF16 && xs.contiguous
            &&& !reduced_precision
        },
        kind != "qkv"@ ==> (parallel_cuda::worthwhile(kind, xs, reduced_precision) <==> {
            &&& xs.dims@.len() == 2 && xs.dims@[0] >= 2048 && xs.dims@[1] == 1024
            &&& xs.device == Device::Cuda && xs.dtype == DType::BF16 && xs.contiguous
            &&& !reduced_precision
        }),
{
}

/// A projection is taken where two contiguous BF16 matrices on one GPU are
/// equally wide.
pub proof fn projections_need_equal_widths(x: &TensorInfo, weight: &TensorInfo)
    ensures
        parallel_cuda::projection_failure(x, weight) is None <==> {
            &&& x.device == Device::Cuda && weight.device == Device::Cuda && x.gpu == weight.gpu
            &&& x.dims@.len() == 2 && weight.dims@.len() == 2
            &&& x.dims@[1] == weight.dims@[1]
            &&& x.contiguous && weight.contiguous
            &&& x.dtype == DType::BF16 && weight.dtype == DType::BF16
        },
{
}

/// The first `n` projections can be taken exactly where each of them can; else
/// the first that cannot be taken says why.
pub proof fn the_first_refused_projection_says_why(
    xs: &TensorInfo,
    weights: Seq<parallel_cuda::Projection>,
    n: nat,
)
    requires
        n <= weights.len(),
    ensures
        parallel_cuda::first_failure(xs, weights, n) is None <==> forall|i: int|
            0 <= i < n ==> !(#[trigger] weights[i]).has_bias && parallel_cuda::projection_failure(
                xs,
                &weights[i].weight,
            ) is None,
        parallel_cuda::first_failure(xs, weights, n) matches Some(why) ==> exists|i: int|
            0 <= i < n && (if (#[trigger] weights[i]).has_bias {
                why == Failure::Candle("bias unsupported"@)
            } else {
                parallel_cuda::projection_failure(xs, &weights[i].weight) == Some(why)
            }) && parallel_cuda::first_failure(xs, weights, i as nat) is None,
    decreases n,
{
    if n > 0 {
        the_first_refused_projection_says_why(xs, weights, (n - 1) as nat);
        let last = weights[n - 1];
    }
}

/// One to three projections on CUDA are taken together.
pub proof fn groups_hold_one_to_three_projections(
    xs: &TensorInfo,
    weights: Seq<parallel_cuda::Projection>,
)
    ensures
        parallel_cuda::group_failure(xs, weights) is None <==> {
            &&& 1 <= weights.len() && weights.len() <= 3
            &&& xs.device == Device::Cuda
            &&& forall|i: int|
                0 <= i < weights.len() ==> !(#[trigger] weights[i]).has_bias
                    && parallel_cuda::projection_failure(xs, &weights[i].weight) is None
        },
        weights.len() == 0 || weights.len() > 3 ==> parallel_cuda::group_failure(xs, weights)
            == Some(Failure::Candle("projection group must contain one to three matrices"@)),
{
    the_first_refused_projection_says_why(xs, weights, weights.len());
}

/// The large kernels take 2048 to 32768 rows of 1024 BF16 values.
pub proof fn large_kernels_take_many_rows(
    xs: &TensorInfo,
    weight: &TensorInfo,
    reduced_precision: bool,
)
    ensures
        cutlass_geglu::worthwhile(xs, weight, reduced_precision) <==> {
            &&& xs.dims@.len() == 2 && weight.dims@.len() == 2
            &&& 2048 <= xs.dims@[0] && xs.dims@[0] <= 32768
            &&& xs.dims@[1] == 1024 && weight.dims@[1] == 1024
            &&& weight.dims@[0] == 2624
            &&& xs.contiguous && weight.contiguous
            &&& xs.device == Device::Cuda && xs.dtype == DType::BF16
            &&& !reduced_precision
        },
{
    if weight.dims@.len() == 2 && weight.dims@[0] == 2624 && weight.dims@[1] == 1024 {
        assert(weight.dims@ =~= seq![2624usize, 1024]);
    }
}

/// Both projections are taken by one kernel where the weights are alike and as
/// wide as the input, and all sizes can be told to the kernel.
pub proof fn two_projections_are_taken_at_once(
    xs: &TensorInfo,
    act: &TensorInfo,
    gate: &TensorInfo,
)
    ensures
        cutlass_geglu::dual_failure(xs, act, gate) is None <==> {
            &&& xs.device == Device::Cuda && act.device == Device::Cuda && gate.device
                == Device::Cuda
            &&& xs.gpu == act.gpu && xs.gpu == gate.gpu
            &&& xs.contiguous && act.contiguous && gate.contiguous
            &&& xs.dtype == DType::BF16 && act.dtype == DType::BF16 && gate.dtype == DType::BF16
            &&& xs.dims@.len() == 2 && act.dims@.len() == 2
            &&& gate.dims@ == act.dims@
            &&& xs.dims@[1] == act.dims@[1]
            &&& xs.dims@[0] <= 2147483647 && act.dims@[0] <= 2147483647 && xs.dims@[1]
                <= 2147483647
        },
{
}

/// A product and its gate are taken by one kernel where both have one shape.
pub proof fn a_product_is_gated_at_once(xs: &TensorInfo, weight: &TensorInfo, gate: &TensorInfo)
    ensures
        cutlass_geglu::fused_failure(xs, weight, gate) is None <==> {
            &&& xs.device == Device::Cuda && weight.device == Device::Cuda && gate.device
                == Device::Cuda
            &&& xs.gpu == weight.gpu && xs.gpu == gate.gpu
            &&& xs.contiguous && weight.contiguous && gate.contiguous
            &&& xs.dtype == DType::BF16 && weight.dtype == DType::BF16 && gate.dtype == DType::BF16
            &&& xs.dims@.len() == 2 && weight.dims@.len() == 2 && gate.dims@.len() == 2
            &&& xs.dims@[1] == weight.dims@[1]
            &&& gate.dims@[0] == xs.dims@[0] && gate.dims@[1] == weight.dims@[0]
            &&& xs.dims@[0] <= 2147483647 && weight.dims@[0] <= 2147483647 && xs.dims@[1]
                <= 2147483647
        },
{
    if xs.dims@.len() == 2 && weight.dims@.len() == 2 && gate.dims@.len() == 2 && gate.dims@[0]
        == xs.dims@[0] && gate.dims@[1] == weight.dims@[0] {
        assert(gate.dims@ =~= seq![xs.dims@[0], weight.dims@[0]]);
    }
}

/// A gated call reads the operands whole, in their order, and its result has a
/// row for each row of the input and a column for each row of the weight.
pub proof fn gated_calls_read_their_operands(
    x: &TensorInfo,
    a: &TensorInfo,
    b: &TensorInfo,
    call: cutlass_geglu::GegluCall,
)
    requires
        x.wf(),
        a.wf(),
        b.wf(),
        cutlass_geglu::calls(x, a, b, call),
    ensures
        reads(call.x, x, elements(x.dims@) as int),
        reads(call.first, a, elements(a.dims@) as int),
        reads(call.second, b, elements(b.dims@) as int),
        call.m * call.n == call.output,
        call.m == x.dims@[0],
        call.n == a.dims@[0],
        call.k == x.dims@[1],
{
}

} // verus!
