//! Adding a bias, with or without a ReLU behind it, as one kernel over groups
//! of eight values.
use crate::device::{DType, Device};
use crate::tensor::{
    elements_one, elements_two, groups_of, groups_of_256, line, Grid, Launch, Span, TensorInfo,
};
use vstd::prelude::*;

verus! {

/// The operand is one that the kernel reads.
pub open spec fn aligned(t: &TensorInfo, x: &TensorInfo) -> bool {
    t.plain(DType::BF16, x) && t.offset % 8 == 0
}

/// The kernel applies to these operands.
pub open spec fn applies(x: &TensorInfo, bias: &TensorInfo) -> bool {
    &&& x.dims@.len() == 2
    &&& x.device == Device::Cuda
    &&& aligned(x, x)
    &&& aligned(bias, x)
    &&& x.dims@[0] > 0
    &&& x.dims@[1] % 8 == 0
    &&& bias.dims@ == seq![x.dims@[1]]
    &&& x.count() <= u32::MAX
}

/// The kernel's name.
pub open spec fn kernel_name(relu: bool) -> Seq<char> {
    if relu {
        "bias_relu_bf16"@
    } else {
        "bias_add_bf16"@
    }
}

/// A launch with a thread for every eight values.
pub open spec fn launches(x: &TensorInfo, bias: &TensorInfo, relu: bool, launch: Launch) -> bool {
    let count8 = x.count() as int / 8;
    launch.has(
        kernel_name(relu),
        seq![x.span(x.count()), bias.span(x.dims@[1] as nat)],
        x.count(),
        seq![count8 as u32, (x.dims@[1] as int / 8) as u32],
        line(groups_of(count8, 256), 256),
    )
}

/// Whether the operand is one that the kernel reads.
fn is_aligned(t: &TensorInfo, x: &TensorInfo) -> (yes: bool)
    ensures
        yes == aligned(t, x),
{
    t.is_plain(DType::BF16, x) && t.offset % 8 == 0
}

/// Lays out a launch over operands that the kernel applies to.
fn cuda_fwd(x: &TensorInfo, bias: &TensorInfo, relu: bool) -> (launch: Launch)
    requires
        x.wf(),
        bias.wf(),
        applies(x, bias),
    ensures
        launches(x, bias, relu, launch),
{
    let cols: usize = x.dims[1];
    let count: usize = x.elem_count();
    proof {
        elements_two(x.dims@);
        elements_one(bias.dims@);
        let (r, c) = (x.dims@[0] as int, cols as int);
        assert(c <= r * c) by (nonlinear_arith)
            requires
                r > 0,
                c >= 0,
        ;
    }
    let count8: u32 = (count / 8) as u32;
    let cols8: u32 = (cols / 8) as u32;
    let inputs: Vec<Span> = vec![x.first(count), bias.first(cols)];
    let numbers: Vec<u32> = vec![count8, cols8];
    let launch = Launch {
        kernel: if relu {
            "bias_relu_bf16"
        } else {
            "bias_add_bf16"
        },
        inputs,
        output: count,
        numbers,
        grid: Grid { blocks: (groups_of_256(count8), 1, 1), threads: (256, 1, 1) },
    };
    assert(launch.inputs@ =~= seq![x.span(x.count()), bias.span(x.dims@[1] as nat)]);
    assert(launch.numbers@ =~= seq![
        (x.count() as int / 8) as u32,
        (x.dims@[1] as int / 8) as u32,
    ]);
    launch
}

/// Lays out the kernel, where it applies.
pub fn forward(x: &TensorInfo, bias: &TensorInfo, relu: bool) -> (plan: Option<Launch>)
    requires
        x.wf(),
        bias.wf(),
    ensures
        match plan {
            Some(launch) => applies(x, bias) && launches(x, bias, relu, launch),
            None => !applies(x, bias),
        },
{
    if x.dims.len() != 2 {
        return None;
    }
    let rows: usize = x.dims[0];
    let cols: usize = x.dims[1];
    if x.device != Device::Cuda || !is_aligned(x, x) || !is_aligned(bias, x) || rows == 0 || cols
        % 8 != 0 || !bias.is_vector(cols) || x.elem_count() as u64 > u32::MAX as u64 {
        return None;
    }
    Some(cuda_fwd(x, bias, relu))
}

/// How a linear layer's bias is added.
#[derive(Debug)]
pub enum BiasPlan {
    /// The layer does it.
    Layer,
    /// By the kernel, on the product.
    Kernel(Launch),
    /// By a broadcast, on the product.
    Broadcast,
}

/// Decides how a linear layer's bias is added: inputs of two dimensions are
/// multiplied first, and the product, laid out as `product`, gets the bias.
pub fn linear(rank: usize, product: &TensorInfo, bias: Option<&TensorInfo>, relu: bool) -> (plan:
    BiasPlan)
    requires
        product.wf(),
        bias matches Some(b) ==> b.wf(),
    ensures
        match plan {
            BiasPlan::Layer => rank != 2 || bias is None,
            BiasPlan::Kernel(launch) => rank == 2 && bias is Some && applies(product, bias->0)
                && launches(product, bias->0, relu, launch),
            BiasPlan::Broadcast => rank == 2 && bias is Some && !applies(product, bias->0),
        },
{
    if rank != 2 {
        return BiasPlan::Layer;
    }
    match bias {
        Some(bias) => match forward(product, bias, relu) {
            Some(launch) => BiasPlan::Kernel(launch),
            None => BiasPlan::Broadcast,
        },
        None => BiasPlan::Layer,
    }
}

/// Every value has a thread, and no thread reaches across the end of a row.
pub proof fn groups_stay_in_rows(x: &TensorInfo, bias: &TensorInfo, relu: bool, launch: Launch)
    requires
        applies(x, bias),
        launches(x, bias, relu, launch),
    ensures
        x.count() % 8 == 0,
        launch.grid.blocks.0 * launch.grid.threads.0 * 8 >= x.count(),
        (x.dims@[1] as int / 8) * 8 == x.dims@[1],
{
    elements_two(x.dims@);
    let (r, c) = (x.dims@[0] as int, x.dims@[1] as int);
    let e = c / 8;
    assert(r * c == (r * e) * 8) by (nonlinear_arith)
        requires
            c == e * 8,
    ;
    crate::tensor::groups_cover(x.count() as int / 8, 256);
}

} // verus!
