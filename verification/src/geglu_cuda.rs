//! GELU followed by a gate, as one kernel.
use crate::device::{DType, Device};
use crate::error::{tensor_error, Failure, SystemOneError};
use crate::tensor::{
    check_places, groups_of, groups_of_256, line, place_failure, Grid, Span, TensorInfo,
};
use vstd::prelude::*;

verus! {

/// The operation.
pub const KERNEL: &'static str = "vs1_geglu_bf16";

/// A launch over an activation and its gate. Without a grid there is a thread
/// for every element, in blocks of the driver's choice.
#[derive(Debug)]
pub struct GegluLaunch {
    pub kernel: &'static str,
    pub activation: Span,
    pub gate: Span,
    pub count: u32,
    pub grid: Option<Grid>,
}

/// How a gated activation is computed.
#[derive(Debug)]
pub enum GegluPlan {
    /// In one kernel.
    Kernel(GegluLaunch),
    /// Activation and product one after the other.
    Separately,
}

/// The kernel is the one to use.
pub open spec fn applies(activation: &TensorInfo, gate: &TensorInfo) -> bool {
    &&& activation.device == Device::Cuda
    &&& activation.dtype == DType::BF16
    &&& gate.dtype == DType::BF16
    &&& activation.contiguous
    &&& gate.contiguous
    &&& 0 < activation.count() <= u32::MAX
}

/// Why the kernel, where it is the one to use, cannot take a gate.
pub open spec fn failure(activation: &TensorInfo, gate: &TensorInfo) -> Option<Failure> {
    if place_failure(KERNEL@, activation, gate) is Some {
        place_failure(KERNEL@, activation, gate)
    } else if gate.dims@ != activation.dims@ {
        Some(Failure::Candle("fused GeGLU requires contiguous, equally shaped inputs"@))
    } else {
        None
    }
}

/// Both operands start at an even place, so that values can be read in pairs.
pub open spec fn paired(activation: &TensorInfo, gate: &TensorInfo) -> bool {
    activation.offset % 2 == 0 && gate.offset % 2 == 0
}

/// A launch over all elements, in pairs where that is possible.
pub open spec fn launches(activation: &TensorInfo, gate: &TensorInfo, launch: GegluLaunch) -> bool {
    let count = activation.count();
    &&& launch.kernel@ == if paired(activation, gate) {
        "geglu_bf16_pair"@
    } else {
        "geglu_bf16"@
    }
    &&& launch.activation == activation.span(count)
    &&& launch.gate == gate.span(count)
    &&& launch.count == count
    &&& launch.grid == if paired(activation, gate) {
        Some(line(groups_of(groups_of(count as int, 2), 256), 256))
    } else {
        None
    }
}

/// Lays out a launch over operands of one shape.
fn cuda_fwd(activation: &TensorInfo, gate: &TensorInfo) -> (launch: GegluLaunch)
    requires
        activation.wf(),
        gate.wf(),
        applies(activation, gate),
        gate.dims@ == activation.dims@,
    ensures
        launches(activation, gate, launch),
{
    let pairs = activation.offset % 2 == 0 && gate.offset % 2 == 0;
    let count: usize = activation.elem_count();
    let n: u32 = count as u32;
    let half: u32 = n / 2 + n % 2;
    let grid: Option<Grid> = if pairs {
        Some(Grid { blocks: (groups_of_256(half), 1, 1), threads: (256, 1, 1) })
    } else {
        None
    };
    GegluLaunch {
        kernel: if pairs {
            "geglu_bf16_pair"
        } else {
            "geglu_bf16"
        },
        activation: activation.first(count),
        gate: gate.first(count),
        count: n,
        grid,
    }
}

/// Decides how a gated activation is computed.
pub fn forward(activation: &TensorInfo, gate: &TensorInfo) -> (result: Result<
    GegluPlan,
    SystemOneError,
>)
    requires
        activation.wf(),
        gate.wf(),
    ensures
        match result {
            Ok(GegluPlan::Kernel(launch)) => applies(activation, gate) && failure(
                activation,
                gate,
            ) is None && launches(activation, gate, launch),
            Ok(GegluPlan::Separately) => !applies(activation, gate),
            Err(e) => applies(activation, gate) && failure(activation, gate) == Some(e@),
        },
{
    if activation.device != Device::Cuda || activation.dtype != DType::BF16 || gate.dtype
        != DType::BF16 || !activation.contiguous || !gate.contiguous {
        return Ok(GegluPlan::Separately);
    }
    let count: usize = activation.elem_count();
    if count == 0 || count as u64 > u32::MAX as u64 {
        return Ok(GegluPlan::Separately);
    }
    match check_places(KERNEL, activation, gate) {
        Ok(_) => {},
        Err(e) => {
            return Err(e);
        },
    }
    if !gate.same_dims(activation) {
        return Err(tensor_error("fused GeGLU requires contiguous, equally shaped inputs"));
    }
    Ok(GegluPlan::Kernel(cuda_fwd(activation, gate)))
}

/// Reading in pairs, every element has a thread.
pub proof fn pairs_cover_every_element(
    activation: &TensorInfo,
    gate: &TensorInfo,
    launch: GegluLaunch,
)
    requires
        applies(activation, gate),
        launches(activation, gate, launch),
        paired(activation, gate),
    ensures
        launch.grid->0.blocks.0 * launch.grid->0.threads.0 * 2 >= activation.count(),
{
    let count = activation.count() as int;
    crate::tensor::groups_cover(count, 2);
    crate::tensor::groups_cover(groups_of(count, 2), 256);
}

} // verus!
