//! Zero-centred RMS norm as one kernel over evenly spaced rows.
use crate::device::{DType, Device};
use crate::tensor::{elements, line, Grid, Launch, Span, TensorInfo};
use vstd::prelude::*;

verus! {

/// The operands suit the kernel but for how the rows are spaced.
pub open spec fn operands_fit(x: &TensorInfo, weight: &TensorInfo) -> bool {
    &&& x.dims@.len() > 0
    &&& x.device == Device::Cuda
    &&& x.dtype == DType::BF16
    &&& weight.plain(DType::BF16, x)
    &&& weight.dims@ == seq![x.dims@.last()]
    &&& x.dims@.last() == 256 || x.dims@.last() == 2560
    &&& 0 < x.count() <= u32::MAX
}

/// How far apart the rows start, where they are evenly spaced. Queries are
/// cut out of rows that hold a head's query and its gate.
pub open spec fn row_stride(x: &TensorInfo) -> Option<usize> {
    let cols = x.dims@.last();
    if x.contiguous {
        Some(cols)
    } else if x.dims@.len() == 3 && x.strides@[2] == 1 && x.strides@[1] >= cols && x.strides@[0]
        == x.dims@[1] * x.strides@[1] {
        Some(x.strides@[1])
    } else {
        None
    }
}

/// How many places there are from the first value of the first row to the
/// last value of the last row.
pub open spec fn input_count(x: &TensorInfo, stride: usize) -> int {
    (x.count() as int / x.dims@.last() as int - 1) * stride + x.dims@.last()
}

/// The kernel applies to these operands.
pub open spec fn applies(x: &TensorInfo, weight: &TensorInfo) -> bool {
    &&& operands_fit(x, weight)
    &&& row_stride(x) matches Some(stride)
    &&& stride <= u32::MAX
    &&& input_count(x, stride) <= u32::MAX
}

/// A launch with a block for every row.
pub open spec fn launches(x: &TensorInfo, weight: &TensorInfo, launch: Launch) -> bool {
    let cols = x.dims@.last();
    let stride = row_stride(x)->0;
    launch.has(
        "normalize_rms_bf16"@,
        seq![x.span(input_count(x, stride) as nat), weight.span(cols as nat)],
        x.count(),
        seq![cols as u32, stride as u32],
        line(x.count() as int / cols as int, 256),
    )
}

/// Lays out a launch over operands that the kernel applies to.
fn cuda_fwd(x: &TensorInfo, weight: &TensorInfo, stride: usize, span: usize) -> (launch: Launch)
    requires
        x.wf(),
        weight.wf(),
        applies(x, weight),
        row_stride(x) == Some(stride),
        span == input_count(x, stride),
        x.offset + span <= usize::MAX,
    ensures
        launches(x, weight, launch),
{
    let cols: usize = x.dims[x.dims.len() - 1];
    let count: usize = x.elem_count();
    let rows: usize = count / cols;
    proof {
        crate::tensor::elements_one(weight.dims@);
        let (n, c) = (count as int, cols as int);
        assert(0 <= n / c <= n) by (nonlinear_arith)
            requires
                n >= 0,
                c > 0,
        ;
    }
    let inputs: Vec<Span> = vec![x.first(span), weight.first(cols)];
    let numbers: Vec<u32> = vec![cols as u32, stride as u32];
    let launch = Launch {
        kernel: "normalize_rms_bf16",
        inputs,
        output: count,
        numbers,
        grid: Grid { blocks: (rows as u32, 1, 1), threads: (256, 1, 1) },
    };
    assert(launch.inputs@ =~= seq![
        x.span(input_count(x, stride) as nat),
        weight.span(cols as nat),
    ]);
    assert(launch.numbers@ =~= seq![cols as u32, stride as u32]);
    launch
}

/// Finds how far apart the rows start, where they are evenly spaced.
fn find_row_stride(x: &TensorInfo) -> (stride: Option<usize>)
    requires
        x.wf(),
        x.dims@.len() > 0,
    ensures
        stride == row_stride(x),
{
    let cols: usize = x.dims[x.dims.len() - 1];
    if x.contiguous {
        return Some(cols);
    }
    if x.dims.len() != 3 {
        return None;
    }
    let between: usize = x.strides[1];
    if x.strides[2] != 1 || between < cols {
        return None;
    }
    match x.dims[1].checked_mul(between) {
        Some(n) => if x.strides[0] == n {
            Some(between)
        } else {
            None
        },
        None => None,
    }
}

/// Lays out the kernel, where it applies.
pub fn normalize_rms(x: &TensorInfo, weight: &TensorInfo) -> (plan: Option<Launch>)
    requires
        x.wf(),
        weight.wf(),
        row_stride(x) matches Some(stride) ==> x.offset + input_count(x, stride) <= usize::MAX,
    ensures
        match plan {
            Some(launch) => applies(x, weight) && launches(x, weight, launch),
            None => !applies(x, weight),
        },
{
    let rank: usize = x.dims.len();
    if rank == 0 {
        return None;
    }
    let cols: usize = x.dims[rank - 1];
    if x.device != Device::Cuda || x.dtype != DType::BF16 || !weight.is_plain(DType::BF16, x)
        || !weight.is_vector(cols) || !(cols == 256 || cols == 2560) {
        return None;
    }
    let count: usize = x.elem_count();
    if count == 0 || count as u64 > u32::MAX as u64 {
        return None;
    }
    let stride: usize = match find_row_stride(x) {
        Some(stride) => stride,
        None => {
            return None;
        },
    };
    let rows: usize = count / cols;
    proof {
        rows_are_whole(x);
    }
    let span: usize = match (rows - 1).checked_mul(stride) {
        Some(n) => match n.checked_add(cols) {
            Some(m) => m,
            None => {
                return None;
            },
        },
        None => {
            return None;
        },
    };
    if span as u64 > u32::MAX as u64 || stride as u64 > u32::MAX as u64 {
        return None;
    }
    Some(cuda_fwd(x, weight, stride, span))
}

/// The values fall into whole rows, and there is a row where there is a
/// value.
pub proof fn rows_are_whole(x: &TensorInfo)
    requires
        x.dims@.len() > 0,
        x.dims@.last() > 0,
        x.count() > 0,
    ensures
        x.count() as int / x.dims@.last() as int >= 1,
        (x.count() as int / x.dims@.last() as int) * x.dims@.last() == x.count(),
{
    let rest = elements(x.dims@.drop_last()) as int;
    let c = x.dims@.last() as int;
    assert(x.count() == rest * c);
    assert(rest * c / c == rest) by (nonlinear_arith)
        requires
            c > 0,
    ;
    assert(rest >= 1) by (nonlinear_arith)
        requires
            rest >= 0,
            rest * c > 0,
    ;
}

/// Row `row` lies inside the places that a launch reads, and rows do not
/// overlap.
pub proof fn rows_lie_in_the_input(x: &TensorInfo, weight: &TensorInfo, row: int)
    requires
        applies(x, weight),
        0 <= row < x.count() as int / x.dims@.last() as int,
    ensures
        row * row_stride(x)->0 + x.dims@.last() <= input_count(x, row_stride(x)->0),
        x.dims@.last() <= row_stride(x)->0,
{
    let stride = row_stride(x)->0 as int;
    let last = x.count() as int / x.dims@.last() as int - 1;
    assert(row * stride <= last * stride) by (nonlinear_arith)
        requires
            row <= last,
            stride >= 0,
    ;
}

} // verus!
