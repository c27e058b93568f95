//! Causal convolution and SiLU as one kernel.
use crate::device::{DType, Device};
use crate::tensor::{
    elements_three, elements_two, groups_cover, groups_of, groups_of_256, line, Grid, Launch, Span,
    TensorInfo,
};
use vstd::prelude::*;

verus! {

/// The operand is one that the kernel reads.
pub open spec fn readable(t: &TensorInfo, x: &TensorInfo) -> bool {
    t.plain(DType::BF16, x) && t.count() <= u32::MAX
}

/// The kernel applies to these operands.
pub open spec fn applies(x: &TensorInfo, weight: &TensorInfo) -> bool {
    &&& x.dims@.len() == 2
    &&& weight.dims@.len() == 3
    &&& x.device == Device::Cuda
    &&& x.dims@[0] > 0
    &&& x.dims@[1] > 0
    &&& weight.dims@[2] > 0
    &&& weight.dims@[0] == x.dims@[1]
    &&& weight.dims@[1] == 1
    &&& readable(x, x)
    &&& readable(weight, x)
}

/// A launch with a thread for every element of the inputs.
pub open spec fn launches(x: &TensorInfo, weight: &TensorInfo, launch: Launch) -> bool {
    launch.has(
        "convolve_causally_with_silu_bf16"@,
        seq![x.span(x.count()), weight.span(weight.count())],
        x.count(),
        seq![x.count() as u32, x.dims@[1] as u32, weight.dims@[2] as u32],
        line(groups_of(x.count() as int, 256), 256),
    )
}

/// Whether the operand is one that the kernel reads.
fn is_readable(t: &TensorInfo, x: &TensorInfo) -> (yes: bool)
    requires
        t.wf(),
    ensures
        yes == readable(t, x),
{
    t.is_plain(DType::BF16, x) && t.elem_count() as u64 <= u32::MAX as u64
}

/// Lays out a launch over operands that the kernel applies to.
fn cuda_fwd(x: &TensorInfo, weight: &TensorInfo) -> (launch: Launch)
    requires
        x.wf(),
        weight.wf(),
        applies(x, weight),
    ensures
        launches(x, weight, launch),
{
    let channels: usize = x.dims[1];
    let kernel: usize = weight.dims[2];
    let count: usize = x.elem_count();
    proof {
        elements_two(x.dims@);
        elements_three(weight.dims@);
        let (s, c, k) = (x.dims@[0] as int, channels as int, kernel as int);
        assert(c * 1 * k == c * k) by (nonlinear_arith);
        assert(c <= s * c) by (nonlinear_arith)
            requires
                s > 0,
                c >= 0,
        ;
        assert(k <= c * k) by (nonlinear_arith)
            requires
                c > 0,
                k >= 0,
        ;
        groups_cover(count as int, 256);
    }
    let taps: usize = channels * kernel;
    let inputs: Vec<Span> = vec![x.first(count), weight.first(taps)];
    let numbers: Vec<u32> = vec![count as u32, channels as u32, kernel as u32];
    let launch = Launch {
        kernel: "convolve_causally_with_silu_bf16",
        inputs,
        output: count,
        numbers,
        grid: Grid { blocks: (groups_of_256(count as u32), 1, 1), threads: (256, 1, 1) },
    };
    assert(launch.inputs@ =~= seq![x.span(x.count()), weight.span(weight.count())]);
    assert(launch.numbers@ =~= seq![
        x.count() as u32,
        x.dims@[1] as u32,
        weight.dims@[2] as u32,
    ]);
    launch
}

/// Lays out the kernel, where it applies.
pub fn convolve_causally_with_silu(x: &TensorInfo, weight: &TensorInfo) -> (plan: Option<Launch>)
    requires
        x.wf(),
        weight.wf(),
    ensures
        match plan {
            Some(launch) => applies(x, weight) && launches(x, weight, launch),
            None => !applies(x, weight),
        },
{
    if x.dims.len() != 2 || weight.dims.len() != 3 {
        return None;
    }
    if x.device != Device::Cuda || x.dims[0] == 0 || x.dims[1] == 0 || weight.dims[2] == 0
        || weight.dims[0] != x.dims[1] || weight.dims[1] != 1 || !is_readable(x, x)
        || !is_readable(weight, x) {
        return None;
    }
    Some(cuda_fwd(x, weight))
}

/// Every element has a thread, and the last block is in use.
pub proof fn threads_cover_every_element(x: &TensorInfo, weight: &TensorInfo, launch: Launch)
    requires
        applies(x, weight),
        launches(x, weight, launch),
    ensures
        launch.grid.blocks.0 * 256 >= x.count(),
        (launch.grid.blocks.0 - 1) * 256 < x.count(),
{
    crate::tensor::elements_positive(x.dims@);
    groups_cover(x.count() as int, 256);
}

} // verus!
