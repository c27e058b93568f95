//! Rotating queries and keys together in one kernel.
use crate::device::DType;
use crate::error::{tensor_error, Failure, SystemOneError};
use crate::tensor::{
    check_cuda, cuda_failure, elements_three, elements_two, groups_of, groups_of_256, line, rank_error,
    rank_failure, Grid, Launch, Span, TensorInfo,
};
use vstd::prelude::*;

verus! {

/// The operation.
pub const KERNEL: &'static str = "vs1_rope_pair";

/// Queries, keys and tables belong together and the kernel can handle them.
pub open spec fn inputs_fit(q: &TensorInfo, k: &TensorInfo, cos: &TensorInfo, sin: &TensorInfo) -> bool {
    let (tokens, heads, dim) = (q.dims@[0], q.dims@[1], q.dims@[2]);
    &&& tokens > 0
    &&& heads > 0
    &&& dim > 0
    &&& dim % 2 == 0
    &&& q.count() <= 0x7fff_ffff
    &&& k.dims@ == q.dims@
    &&& cos.dims@ == seq![tokens, (dim as int / 2) as usize]
    &&& sin.dims@ == cos.dims@
    &&& q.plain(DType::BF16, q)
    &&& k.plain(DType::BF16, q)
    &&& cos.plain(DType::BF16, q)
    &&& sin.plain(DType::BF16, q)
}

/// Why the kernel cannot be applied.
pub open spec fn failure(q: &TensorInfo, k: &TensorInfo, cos: &TensorInfo, sin: &TensorInfo) -> Option<
    Failure,
> {
    if q.dims@.len() != 3 {
        Some(rank_failure(3, q.dims@))
    } else if !inputs_fit(q, k, cos, sin) {
        Some(Failure::Candle("invalid packed BF16 rotary inputs"@))
    } else {
        cuda_failure(KERNEL@, q.device, "paired rotary requires CUDA"@)
    }
}

/// A launch with a thread for every pair of dimensions. The rotated queries
/// are written before the rotated keys.
pub open spec fn launches(
    q: &TensorInfo,
    k: &TensorInfo,
    cos: &TensorInfo,
    sin: &TensorInfo,
    launch: Launch,
) -> bool {
    launch.has(
        "rope_pair_bf16"@,
        seq![
            q.span(q.count()),
            k.span(k.count()),
            cos.span(cos.count()),
            sin.span(sin.count()),
        ],
        2 * q.count(),
        seq![q.count() as u32, q.dims@[1] as u32, q.dims@[2] as u32],
        line(groups_of(q.count() as int / 2, 256), 256),
    )
}

/// Lays out a launch over inputs that belong together.
fn cuda_fwd(q: &TensorInfo, k: &TensorInfo, cos: &TensorInfo, sin: &TensorInfo) -> (launch: Launch)
    requires
        q.wf(),
        k.wf(),
        cos.wf(),
        sin.wf(),
        q.dims@.len() == 3,
        inputs_fit(q, k, cos, sin),
    ensures
        launches(q, k, cos, sin, launch),
{
    let heads: usize = q.dims[1];
    let dim: usize = q.dims[2];
    let count: usize = q.elem_count();
    let table: usize = cos.elem_count();
    proof {
        elements_three(q.dims@);
        let (t, h, d) = (q.dims@[0] as int, heads as int, dim as int);
        assert(h <= t * h * d && d <= t * h * d) by (nonlinear_arith)
            requires
                t > 0,
                h > 0,
                d > 0,
        ;
    }
    let n: u32 = count as u32;
    let inputs: Vec<Span> = vec![q.first(count), k.first(count), cos.first(table), sin.first(table)];
    let numbers: Vec<u32> = vec![n, heads as u32, dim as u32];
    let launch = Launch {
        kernel: "rope_pair_bf16",
        inputs,
        output: 2 * count,
        numbers,
        grid: Grid { blocks: (groups_of_256(n / 2), 1, 1), threads: (256, 1, 1) },
    };
    assert(launch.inputs@ =~= seq![
        q.span(q.count()),
        k.span(k.count()),
        cos.span(cos.count()),
        sin.span(sin.count()),
    ]);
    assert(launch.numbers@ =~= seq![q.count() as u32, q.dims@[1] as u32, q.dims@[2] as u32]);
    launch
}

/// Lays out the kernel over inputs that it can handle.
pub fn forward(q: &TensorInfo, k: &TensorInfo, cos: &TensorInfo, sin: &TensorInfo) -> (result: Result<
    Launch,
    SystemOneError,
>)
    requires
        q.wf(),
        k.wf(),
        cos.wf(),
        sin.wf(),
    ensures
        match result {
            Ok(launch) => failure(q, k, cos, sin) is None && launches(q, k, cos, sin, launch),
            Err(e) => failure(q, k, cos, sin) == Some(e@),
        },
{
    if q.dims.len() != 3 {
        return Err(rank_error(3, &q.dims));
    }
    let tokens: usize = q.dims[0];
    let heads: usize = q.dims[1];
    let dim: usize = q.dims[2];
    if tokens == 0 || heads == 0 || dim == 0 || dim % 2 != 0 || q.elem_count() as u64 > 0x7fff_ffff
        || !k.same_dims(q) || !cos.is_matrix(tokens, dim / 2) || !sin.same_dims(cos)
        || !q.is_plain(DType::BF16, q) || !k.is_plain(DType::BF16, q) || !cos.is_plain(
        DType::BF16,
        q,
    ) || !sin.is_plain(DType::BF16, q) {
        return Err(tensor_error("invalid packed BF16 rotary inputs"));
    }
    match check_cuda(KERNEL, q.device, "paired rotary requires CUDA") {
        Ok(_) => {},
        Err(e) => {
            return Err(e);
        },
    }
    Ok(cuda_fwd(q, k, cos, sin))
}

/// Every pair of dimensions has a thread and an entry in the tables, and
/// queries and keys take up all that is written.
pub proof fn pairs_are_covered(
    q: &TensorInfo,
    k: &TensorInfo,
    cos: &TensorInfo,
    sin: &TensorInfo,
    launch: Launch,
)
    requires
        failure(q, k, cos, sin) is None,
        launches(q, k, cos, sin, launch),
    ensures
        launch.grid.blocks.0 * launch.grid.threads.0 * 2 >= q.count(),
        cos.count() * q.dims@[1] * 2 == q.count(),
        launch.output == q.count() + k.count(),
{
    elements_three(q.dims@);
    elements_two(cos.dims@);
    let (t, h, d) = (q.dims@[0] as int, q.dims@[1] as int, q.dims@[2] as int);
    let half = d / 2;
    assert(t * half * h * 2 == t * h * d) by (nonlinear_arith)
        requires
            d == half * 2,
    ;
    assert(q.count() % 2 == 0) by (nonlinear_arith)
        requires
            q.count() == t * half * h * 2,
    ;
    crate::tensor::groups_cover(q.count() as int / 2, 256);
}

} // verus!
