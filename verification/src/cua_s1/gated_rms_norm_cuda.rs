//! Gated RMS norm as one kernel over rows of 128 values.
use crate::device::{DType, Device};
use crate::tensor::{elements, line, Grid, Launch, Span, TensorInfo};
use vstd::prelude::*;

verus! {

/// How many values a row has.
pub const ROW: usize = 128;

/// The kernel applies to these operands.
pub open spec fn applies(x: &TensorInfo, weight: &TensorInfo, gate: &TensorInfo) -> bool {
    &&& x.device == Device::Cuda
    &&& x.dtype == DType::BF16
    &&& gate.dtype == DType::BF16
    &&& weight.dtype == DType::BF16 || weight.dtype == DType::F32
    &&& x.dims@.len() > 0
    &&& x.dims@.last() == ROW
    &&& weight.dims@ == seq![ROW]
    &&& gate.dims@ == x.dims@
    &&& 0 < x.count() <= u32::MAX
    &&& x.contiguous
    &&& weight.contiguous && weight.beside(x)
    &&& gate.contiguous && gate.beside(x)
}

/// The kernel for weights of this type.
pub open spec fn kernel_name(dtype: DType) -> Seq<char> {
    if dtype == DType::BF16 {
        "normalize_rms_gated_bf16"@
    } else {
        "normalize_rms_gated_bf16_f32_weight"@
    }
}

/// A launch with a block for every row and a thread for every value of it.
pub open spec fn launches(
    x: &TensorInfo,
    weight: &TensorInfo,
    gate: &TensorInfo,
    launch: Launch,
) -> bool {
    launch.has(
        kernel_name(weight.dtype),
        seq![x.span(x.count()), gate.span(x.count()), weight.span(ROW as nat)],
        x.count(),
        seq![],
        line(x.count() as int / 128, 128),
    )
}

/// Lays out a launch over operands that the kernel applies to.
fn cuda_fwd(x: &TensorInfo, weight: &TensorInfo, gate: &TensorInfo) -> (launch: Launch)
    requires
        x.wf(),
        weight.wf(),
        gate.wf(),
        applies(x, weight, gate),
    ensures
        launches(x, weight, gate, launch),
{
    let kernel = if weight.dtype == DType::BF16 {
        "normalize_rms_gated_bf16"
    } else {
        "normalize_rms_gated_bf16_f32_weight"
    };
    let count: usize = x.elem_count();
    proof {
        crate::tensor::elements_one(weight.dims@);
    }
    let inputs: Vec<Span> = vec![x.first(count), gate.first(count), weight.first(128)];
    let launch = Launch {
        kernel,
        inputs,
        output: count,
        numbers: Vec::new(),
        grid: Grid { blocks: ((count / 128) as u32, 1, 1), threads: (128, 1, 1) },
    };
    assert(launch.inputs@ =~= seq![
        x.span(x.count()),
        gate.span(x.count()),
        weight.span(ROW as nat),
    ]);
    launch
}

/// Lays out the kernel, where it applies.
pub fn normalize_rms_gated(x: &TensorInfo, weight: &TensorInfo, gate: &TensorInfo) -> (plan: Option<
    Launch,
>)
    requires
        x.wf(),
        weight.wf(),
        gate.wf(),
    ensures
        match plan {
            Some(launch) => applies(x, weight, gate) && launches(x, weight, gate, launch),
            None => !applies(x, weight, gate),
        },
{
    let rank: usize = x.dims.len();
    if x.device != Device::Cuda || x.dtype != DType::BF16 || gate.dtype != DType::BF16 || !(
    weight.dtype == DType::BF16 || weight.dtype == DType::F32) || rank == 0 || x.dims[rank - 1]
        != ROW || !weight.is_vector(ROW) || !gate.same_dims(x) {
        return None;
    }
    let count: usize = x.elem_count();
    if count == 0 || count as u64 > u32::MAX as u64 || !x.contiguous || !weight.contiguous
        || !weight.same_device(x) || !gate.contiguous || !gate.same_device(x) {
        return None;
    }
    Some(cuda_fwd(x, weight, gate))
}

/// The blocks take up exactly the rows: no value is left over.
pub proof fn blocks_take_whole_rows(
    x: &TensorInfo,
    weight: &TensorInfo,
    gate: &TensorInfo,
    launch: Launch,
)
    requires
        applies(x, weight, gate),
        launches(x, weight, gate, launch),
    ensures
        launch.grid.blocks.0 * launch.grid.threads.0 == x.count(),
{
    let rest = elements(x.dims@.drop_last()) as int;
    assert(x.count() == rest * 128);
    assert(rest * 128 / 128 == rest);
}

} // verus!
