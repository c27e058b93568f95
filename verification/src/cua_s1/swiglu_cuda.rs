//! SwiGLU as one kernel over two projections.
use crate::device::{DType, Device};
use crate::error::{tensor_error, Failure, SystemOneError};
use crate::tensor::{copy_numbers, elements, elements_two, Span, TensorInfo};
use crate::text::{signed, signed_text};
use vstd::prelude::*;
use vstd::string::StringExecFns;

verus! {

/// How many values go into a projection.
pub const HIDDEN: usize = 2560;

/// How many values come out of a projection.
pub const INNER: usize = 9216;

/// The operand is one that the kernel reads.
pub open spec fn readable(t: &TensorInfo, x: &TensorInfo) -> bool {
    t.plain(DType::BF16, x) && t.offset % 8 == 0
}

/// The operands suit the kernel. `reduced_precision` says that products may be
/// accumulated in BF16.
pub open spec fn operands_fit(
    x: &TensorInfo,
    gate: &TensorInfo,
    up: &TensorInfo,
    reduced_precision: bool,
) -> bool {
    &&& x.device == Device::Cuda
    &&& 2 <= x.dims@.len() <= 4
    &&& x.dims@.last() == HIDDEN
    &&& gate.dims@ == seq![INNER, HIDDEN]
    &&& up.dims@ == gate.dims@
    &&& x.count() > 0
    &&& x.count() as int / 2560 <= i32::MAX as int / 9216
    &&& !reduced_precision
    &&& readable(x, x)
    &&& readable(gate, x)
    &&& readable(up, x)
}

/// What the kernel is called on.
#[derive(Debug)]
pub struct SwiGluCall {
    pub x: Span,
    pub gate: Span,
    pub up: Span,
    pub m: i32,
    pub n: i32,
    pub k: i32,
    pub output: usize,
    /// The shape of the result.
    pub shape: Vec<usize>,
}

/// A call over all rows of the operands, each giving a row of the result.
pub open spec fn calls(x: &TensorInfo, gate: &TensorInfo, up: &TensorInfo, call: SwiGluCall) -> bool {
    let rows = x.count() as int / 2560;
    &&& call.x == x.span(x.count())
    &&& call.gate == gate.span(gate.count())
    &&& call.up == up.span(up.count())
    &&& call.m == rows
    &&& call.n == INNER
    &&& call.k == HIDDEN
    &&& call.output == rows * 9216
    &&& call.shape@ == x.dims@.update(x.dims@.len() - 1, INNER)
}

/// Whether the operand is one that the kernel reads.
fn is_readable(t: &TensorInfo, x: &TensorInfo) -> (yes: bool)
    ensures
        yes == readable(t, x),
{
    t.is_plain(DType::BF16, x) && t.offset % 8 == 0
}

/// Lays out a call over operands that suit the kernel.
fn cuda_fwd(x: &TensorInfo, gate: &TensorInfo, up: &TensorInfo) -> (call: SwiGluCall)
    requires
        x.wf(),
        gate.wf(),
        up.wf(),
        operands_fit(x, gate, up, false),
    ensures
        calls(x, gate, up, call),
{
    let count: usize = x.elem_count();
    let rows: usize = count / 2560;
    proof {
        elements_two(gate.dims@);
        elements_two(up.dims@);
        let rest = elements(x.dims@.drop_last()) as int;
        assert(x.count() == rest * 2560);
        assert(rest * 2560 / 2560 == rest);
        assert(i32::MAX as int / 9216 == 233016);
        assert(INNER as int * HIDDEN as int == 23592960);
    }
    let mut shape = copy_numbers(&x.dims);
    let last: usize = shape.len() - 1;
    shape.set(last, INNER);
    SwiGluCall {
        x: x.first(count),
        gate: gate.first(23592960),
        up: up.first(23592960),
        m: rows as i32,
        n: 9216,
        k: 2560,
        output: rows * 9216,
        shape,
    }
}

/// Lays out the kernel, where it applies. `compute_major` is the device's
/// compute capability.
pub fn project_swiglu(
    x: &TensorInfo,
    gate: &TensorInfo,
    up: &TensorInfo,
    reduced_precision: bool,
    compute_major: i32,
) -> (plan: Option<SwiGluCall>)
    requires
        x.wf(),
        gate.wf(),
        up.wf(),
    ensures
        match plan {
            Some(call) => operands_fit(x, gate, up, reduced_precision) && compute_major >= 8
                && calls(x, gate, up, call),
            None => !(operands_fit(x, gate, up, reduced_precision) && compute_major >= 8),
        },
{
    let rank: usize = x.dims.len();
    if x.device != Device::Cuda || rank < 2 || rank > 4 || x.dims[rank - 1] != HIDDEN
        || !gate.is_matrix(INNER, HIDDEN) || !up.same_dims(gate) {
        return None;
    }
    let count: usize = x.elem_count();
    if count == 0 || (count / 2560) as u64 > 233016 || reduced_precision || !is_readable(x, x)
        || !is_readable(gate, x) || !is_readable(up, x) {
        assert(i32::MAX as int / 9216 == 233016);
        return None;
    }
    assert(i32::MAX as int / 9216 == 233016);
    if compute_major < 8 {
        return None;
    }
    Some(cuda_fwd(x, gate, up))
}

/// Reads what the kernel reported: operands that it cannot handle leave the
/// work to others, and any other failure is one.
pub fn read_status(status: i32) -> (result: Result<bool, SystemOneError>)
    ensures
        match result {
            Ok(done) => (status == 0 && done) || (status == -1 && !done),
            Err(e) => status != 0 && status != -1 && e@ == Failure::Candle(
                "CUTLASS dual SwiGLU status "@ + signed(status as int),
            ),
        },
{
    if status == -1 {
        return Ok(false);
    }
    if status != 0 {
        let mut message = "CUTLASS dual SwiGLU status ".to_owned();
        message.append(signed_text(status).as_str());
        return Err(tensor_error(message.as_str()));
    }
    Ok(true)
}

} // verus!
