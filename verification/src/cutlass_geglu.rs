//! Gated products of large encoder batches, in one or two kernels.
use crate::device::{DType, Device};
use crate::error::{tensor_error, Failure, SystemOneError};
use crate::tensor::{
    check_ternary, rank_error, rank_failure, ternary_failure, Span, TensorInfo,
};
use crate::text::{signed, signed_text};
use vstd::prelude::*;
use vstd::string::StringExecFns;

verus! {

/// The kernel that takes both projections.
pub const DUAL_KERNEL: &'static str = "vs1_cutlass_dual_geglu";

/// The kernel that takes one projection and a gate.
pub const FUSED_KERNEL: &'static str = "vs1_cutlass_geglu";

/// What a kernel is called on: an input, and two operands besides.
#[derive(Clone, Copy, Debug, PartialEq, Eq, Structural)]
pub struct GegluCall {
    pub x: Span,
    pub first: Span,
    pub second: Span,
    pub m: i32,
    pub n: i32,
    pub k: i32,
    pub output: usize,
}

/// The input may go through the large kernels, device aside.
pub open spec fn worthwhile(xs: &TensorInfo, weight: &TensorInfo, reduced_precision: bool) -> bool {
    &&& xs.device == Device::Cuda
    &&& xs.dtype == DType::BF16
    &&& xs.contiguous
    &&& xs.dims@.len() == 2
    &&& 2048 <= xs.dims@[0] <= 32768
    &&& xs.dims@[1] == 1024
    &&& weight.dims@ == seq![2624usize, 1024]
    &&& weight.contiguous
    &&& !reduced_precision
}

/// Whether the input goes through the large kernels. `supported` says whether
/// the device is one that they were compared on.
pub fn enabled(xs: &TensorInfo, weight: &TensorInfo, reduced_precision: bool, supported: bool) -> (yes:
    bool)
    ensures
        yes == (worthwhile(xs, weight, reduced_precision) && supported),
{
    xs.device == Device::Cuda && xs.dtype == DType::BF16 && xs.contiguous && xs.dims.len() == 2
        && 2048 <= xs.dims[0] && xs.dims[0] <= 32768 && xs.dims[1] == 1024 && weight.is_matrix(
        2624,
        1024,
    ) && weight.contiguous && !reduced_precision && supported
}

/// Whether both projections are taken by one kernel.
pub fn dual_enabled() -> (yes: bool)
    ensures
        yes,
{
    true
}

/// What is said of a size that the kernels cannot take.
pub open spec fn too_large() -> Failure {
    Failure::Candle("out of range integral type conversion attempted"@)
}

/// Every operand is BF16.
pub open spec fn all_bf16(x: &TensorInfo, a: &TensorInfo, b: &TensorInfo) -> bool {
    x.dtype == DType::BF16 && a.dtype == DType::BF16 && b.dtype == DType::BF16
}

/// The sizes that a kernel is called with fit.
pub open spec fn sizes_fit(x: &TensorInfo, a: &TensorInfo) -> bool {
    x.dims@[0] <= i32::MAX && a.dims@[0] <= i32::MAX && x.dims@[1] <= i32::MAX
}

/// A call over the whole of the operands.
pub open spec fn calls(x: &TensorInfo, a: &TensorInfo, b: &TensorInfo, call: GegluCall) -> bool {
    &&& call.x == x.span(x.count())
    &&& call.first == a.span(a.count())
    &&& call.second == b.span(b.count())
    &&& call.m == x.dims@[0]
    &&& call.n == a.dims@[0]
    &&& call.k == x.dims@[1]
    &&& call.output == x.dims@[0] * a.dims@[0]
}

/// Why two projections cannot be taken by one kernel.
pub open spec fn dual_failure(xs: &TensorInfo, act: &TensorInfo, gate: &TensorInfo) -> Option<Failure> {
    if gate.dims@ != act.dims@ || !gate.contiguous {
        Some(Failure::Candle("dual GeGLU weights must match"@))
    } else if ternary_failure(DUAL_KERNEL@, "CUDA only"@, xs, act, gate) is Some {
        ternary_failure(DUAL_KERNEL@, "CUDA only"@, xs, act, gate)
    } else if xs.dims@.len() != 2 {
        Some(rank_failure(2, xs.dims@))
    } else if act.dims@.len() != 2 {
        Some(rank_failure(2, act.dims@))
    } else if act.dims@[1] != xs.dims@[1] || !xs.contiguous || !act.contiguous {
        Some(Failure::Candle("invalid dual GEMM layouts"@))
    } else if !all_bf16(xs, act, gate) {
        Some(Failure::Candle("BF16 only"@))
    } else if !sizes_fit(xs, act) {
        Some(too_large())
    } else {
        None
    }
}

/// Why a product and its gate cannot be taken by one kernel.
pub open spec fn fused_failure(xs: &TensorInfo, weight: &TensorInfo, gate: &TensorInfo) -> Option<
    Failure,
> {
    if ternary_failure(FUSED_KERNEL@, "CUDA only"@, xs, weight, gate) is Some {
        ternary_failure(FUSED_KERNEL@, "CUDA only"@, xs, weight, gate)
    } else if xs.dims@.len() != 2 {
        Some(rank_failure(2, xs.dims@))
    } else if weight.dims@.len() != 2 {
        Some(rank_failure(2, weight.dims@))
    } else if weight.dims@[1] != xs.dims@[1] || gate.dims@ != seq![xs.dims@[0], weight.dims@[0]]
        || !xs.contiguous || !weight.contiguous || !gate.contiguous {
        Some(Failure::Candle("invalid fused GEMM layouts"@))
    } else if !all_bf16(xs, weight, gate) {
        Some(Failure::Candle("BF16 only"@))
    } else if !sizes_fit(xs, weight) {
        Some(too_large())
    } else {
        None
    }
}

/// Lays out a call over the whole of the operands.
fn lay_out_call(x: &TensorInfo, a: &TensorInfo, b: &TensorInfo) -> (result: Result<
    GegluCall,
    SystemOneError,
>)
    requires
        x.wf(),
        a.wf(),
        b.wf(),
        x.dims@.len() == 2,
        a.dims@.len() == 2,
        x.dims@[0] * a.dims@[0] <= usize::MAX,
    ensures
        match result {
            Ok(call) => sizes_fit(x, a) && calls(x, a, b, call),
            Err(e) => !sizes_fit(x, a) && e@ == too_large(),
        },
{
    let m: usize = x.dims[0];
    let k: usize = x.dims[1];
    let n: usize = a.dims[0];
    let limit: usize = 0x7fff_ffff;
    if m > limit || n > limit || k > limit {
        return Err(tensor_error("out of range integral type conversion attempted"));
    }
    Ok(
        GegluCall {
            x: x.first(x.elem_count()),
            first: a.first(a.elem_count()),
            second: b.first(b.elem_count()),
            m: m as i32,
            n: n as i32,
            k: k as i32,
            output: m * n,
        },
    )
}

/// Lays out both projections of an input and their gated product as one
/// kernel.
pub fn dual_forward(xs: &TensorInfo, act: &TensorInfo, gate: &TensorInfo) -> (result: Result<
    GegluCall,
    SystemOneError,
>)
    requires
        xs.wf(),
        act.wf(),
        gate.wf(),
        xs.dims@.len() == 2 && act.dims@.len() == 2 ==> xs.dims@[0] * act.dims@[0] <= usize::MAX,
    ensures
        match result {
            Ok(call) => dual_failure(xs, act, gate) is None && calls(xs, act, gate, call),
            Err(e) => dual_failure(xs, act, gate) == Some(e@),
        },
{
    if !gate.same_dims(act) || !gate.contiguous {
        return Err(tensor_error("dual GeGLU weights must match"));
    }
    match check_ternary(DUAL_KERNEL, "CUDA only", xs, act, gate) {
        Ok(_) => {},
        Err(e) => {
            return Err(e);
        },
    }
    if xs.dims.len() != 2 {
        return Err(rank_error(2, &xs.dims));
    }
    if act.dims.len() != 2 {
        return Err(rank_error(2, &act.dims));
    }
    if act.dims[1] != xs.dims[1] || !xs.contiguous || !act.contiguous {
        return Err(tensor_error("invalid dual GEMM layouts"));
    }
    if xs.dtype != DType::BF16 || act.dtype != DType::BF16 || gate.dtype != DType::BF16 {
        return Err(tensor_error("BF16 only"));
    }
    lay_out_call(xs, act, gate)
}

/// Lays out a projection of an input and its product with a gate as one
/// kernel.
pub fn forward(xs: &TensorInfo, weight: &TensorInfo, gate: &TensorInfo) -> (result: Result<
    GegluCall,
    SystemOneError,
>)
    requires
        xs.wf(),
        weight.wf(),
        gate.wf(),
        xs.dims@.len() == 2 && weight.dims@.len() == 2 ==> xs.dims@[0] * weight.dims@[0]
            <= usize::MAX,
    ensures
        match result {
            Ok(call) => fused_failure(xs, weight, gate) is None && calls(xs, weight, gate, call),
            Err(e) => fused_failure(xs, weight, gate) == Some(e@),
        },
{
    match check_ternary(FUSED_KERNEL, "CUDA only", xs, weight, gate) {
        Ok(_) => {},
        Err(e) => {
            return Err(e);
        },
    }
    if xs.dims.len() != 2 {
        return Err(rank_error(2, &xs.dims));
    }
    if weight.dims.len() != 2 {
        return Err(rank_error(2, &weight.dims));
    }
    if weight.dims[1] != xs.dims[1] || !gate.is_matrix(xs.dims[0], weight.dims[0])
        || !xs.contiguous || !weight.contiguous || !gate.contiguous {
        return Err(tensor_error("invalid fused GEMM layouts"));
    }
    if xs.dtype != DType::BF16 || weight.dtype != DType::BF16 || gate.dtype != DType::BF16 {
        return Err(tensor_error("BF16 only"));
    }
    lay_out_call(xs, weight, gate)
}

/// Reads what a kernel reported. `dual` says which of the two it was.
pub fn read_status(status: i32, dual: bool) -> (result: Result<(), SystemOneError>)
    ensures
        match result {
            Ok(_) => status == 0,
            Err(e) => status != 0 && e@ == Failure::Candle(
                if dual {
                    "CUTLASS dual status "@
                } else {
                    "CUTLASS status "@
                } + signed(status as int),
            ),
        },
{
    if status == 0 {
        return Ok(());
    }
    let mut message = if dual {
        "CUTLASS dual status ".to_owned()
    } else {
        "CUTLASS status ".to_owned()
    };
    message.append(signed_text(status).as_str());
    Err(tensor_error(message.as_str()))
}

/// Where the large kernels are used, their operands always fit.
pub proof fn enabled_inputs_fit(
    xs: &TensorInfo,
    act: &TensorInfo,
    gate: &TensorInfo,
    reduced_precision: bool,
)
    requires
        worthwhile(xs, act, reduced_precision),
        gate.dims@ == act.dims@,
        gate.contiguous,
        all_bf16(xs, act, gate),
        xs.placed_with(act),
        xs.placed_with(gate),
    ensures
        dual_failure(xs, act, gate) is None,
{
}

} // verus!
