//! Adding a residual and normalising the sum, as one kernel.
use crate::device::DType;
use crate::error::{tensor_error, Failure, SystemOneError};
use crate::tensor::{
    check_cuda, cuda_failure, elements_one, elements_two, line, rank_error, rank_failure, Grid, Launch,
    Span, TensorInfo,
};
use vstd::prelude::*;

verus! {

/// The operation.
pub const KERNEL: &'static str = "vs1_residual_norm";

/// The operands belong together and the kernel can handle them.
pub open spec fn inputs_fit(x: &TensorInfo, y: &TensorInfo, weight: &TensorInfo) -> bool {
    let (rows, cols) = (x.dims@[0], x.dims@[1]);
    &&& rows > 0
    &&& 0 < cols <= 1024
    &&& x.count() <= 0x7fff_ffff
    &&& y.dims@ == x.dims@
    &&& weight.dims@ == seq![cols]
    &&& x.plain(DType::BF16, x)
    &&& y.plain(DType::BF16, x)
    &&& weight.plain(DType::BF16, x)
}

/// Why the kernel cannot be applied.
pub open spec fn failure(x: &TensorInfo, y: &TensorInfo, weight: &TensorInfo) -> Option<Failure> {
    if x.dims@.len() != 2 {
        Some(rank_failure(2, x.dims@))
    } else if !inputs_fit(x, y, weight) {
        Some(Failure::Candle("invalid BF16 residual norm inputs"@))
    } else {
        cuda_failure(KERNEL@, x.device, "fused residual norm requires CUDA"@)
    }
}

/// A launch with a block for every row. The sums are written before the
/// normalised sums.
pub open spec fn launches(x: &TensorInfo, y: &TensorInfo, weight: &TensorInfo, launch: Launch) -> bool {
    let cols = x.dims@[1];
    launch.has(
        "residual_norm_bf16"@,
        seq![x.span(x.count()), y.span(y.count()), weight.span(cols as nat)],
        2 * x.count(),
        seq![x.count() as u32, cols as u32],
        line(
            x.dims@[0] as int,
            if cols < 1024 {
                32
            } else {
                1024
            },
        ),
    )
}

/// Lays out a launch over operands that belong together.
fn cuda_fwd(x: &TensorInfo, y: &TensorInfo, weight: &TensorInfo) -> (launch: Launch)
    requires
        x.wf(),
        y.wf(),
        weight.wf(),
        x.dims@.len() == 2,
        inputs_fit(x, y, weight),
    ensures
        launches(x, y, weight, launch),
{
    let rows: usize = x.dims[0];
    let cols: usize = x.dims[1];
    let count: usize = x.elem_count();
    proof {
        elements_two(x.dims@);
        elements_one(weight.dims@);
        let (r, c) = (rows as int, cols as int);
        assert(r <= r * c) by (nonlinear_arith)
            requires
                r > 0,
                c > 0,
        ;
    }
    let inputs: Vec<Span> = vec![x.first(count), y.first(count), weight.first(cols)];
    let numbers: Vec<u32> = vec![count as u32, cols as u32];
    let threads: u32 = if cols < 1024 {
        32
    } else {
        1024
    };
    let launch = Launch {
        kernel: "residual_norm_bf16",
        inputs,
        output: 2 * count,
        numbers,
        grid: Grid { blocks: (rows as u32, 1, 1), threads: (threads, 1, 1) },
    };
    assert(launch.inputs@ =~= seq![
        x.span(x.count()),
        y.span(y.count()),
        weight.span(cols as nat),
    ]);
    assert(launch.numbers@ =~= seq![x.count() as u32, cols as u32]);
    launch
}

/// Lays out the kernel over operands that it can handle. The weight belongs to
/// a layer norm whose bias is zero.
pub fn forward(x: &TensorInfo, y: &TensorInfo, weight: &TensorInfo) -> (result: Result<
    Launch,
    SystemOneError,
>)
    requires
        x.wf(),
        y.wf(),
        weight.wf(),
    ensures
        match result {
            Ok(launch) => failure(x, y, weight) is None && launches(x, y, weight, launch),
            Err(e) => failure(x, y, weight) == Some(e@),
        },
{
    if x.dims.len() != 2 {
        return Err(rank_error(2, &x.dims));
    }
    let rows: usize = x.dims[0];
    let cols: usize = x.dims[1];
    if rows == 0 || cols == 0 || cols > 1024 || x.elem_count() as u64 > 0x7fff_ffff
        || !y.same_dims(x) || !weight.is_vector(cols) || !x.is_plain(DType::BF16, x) || !y.is_plain(
        DType::BF16,
        x,
    ) || !weight.is_plain(DType::BF16, x) {
        return Err(tensor_error("invalid BF16 residual norm inputs"));
    }
    match check_cuda(KERNEL, x.device, "fused residual norm requires CUDA") {
        Ok(_) => {},
        Err(e) => {
            return Err(e);
        },
    }
    Ok(cuda_fwd(x, y, weight))
}

} // verus!
