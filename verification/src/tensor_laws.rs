//! What shapes, places and groups of threads come to.
use crate::device::Device;
use crate::error::Failure;
use crate::tensor::{
    binary_failure, cuda_failure, elements, elements_one, groups_of, line, place_failure,
    ternary_failure, TensorInfo,
};
use vstd::prelude::*;

verus! {

/// A shape that is put together from two has as many elements as the one has
/// for every element of the other; one dimension has its own length, and none
/// has a single element.
pub proof fn shapes_multiply(front: Seq<usize>, back: Seq<usize>, n: usize)
    ensures
        elements(front + back) == elements(front) * elements(back),
        elements(seq![n]) == n,
        elements(Seq::<usize>::empty()) == 1,
    decreases back.len(),
{
    elements_one(seq![n]);
    let whole = front + back;
    if back.len() == 0 {
        assert(whole =~= front);
        assert(elements(front) * 1 == elements(front)) by (nonlinear_arith);
    } else {
        assert(whole.drop_last() =~= front + back.drop_last());
        assert(whole.last() == back.last());
        shapes_multiply(front, back.drop_last(), n);
        let (a, b, c) = (elements(front), elements(back.drop_last()), back.last() as nat);
        assert(elements(whole) == (a * b) * c);
        assert(elements(back) == b * c);
        assert((a * b) * c == a * (b * c)) by (nonlinear_arith);
    }
}

/// The order of two dimensions does not change how many elements there are.
pub proof fn dimensions_can_be_exchanged(a: usize, b: usize, rest: Seq<usize>)
    ensures
        elements(seq![a, b] + rest) == elements(seq![b, a] + rest),
        elements(seq![a, b]) == a * b,
{
    shapes_multiply(seq![a], seq![b], b);
    shapes_multiply(seq![b], seq![a], a);
    elements_one(seq![a]);
    elements_one(seq![b]);
    assert(seq![a] + seq![b] =~= seq![a, b]);
    assert(seq![b] + seq![a] =~= seq![b, a]);
    shapes_multiply(seq![a, b], rest, a);
    shapes_multiply(seq![b, a], rest, a);
    assert(a as nat * b as nat == b as nat * a as nat) by (nonlinear_arith);
}

/// The first places of a tensor begin where the tensor does, and are as many
/// as were asked for.
pub proof fn spans_begin_with_the_tensor(t: &TensorInfo, n: nat)
    requires
        t.offset + n <= usize::MAX,
    ensures
        t.span(n).start == t.offset,
        t.span(n).end - t.span(n).start == n,
{
}

/// Groups are as many as are needed to hold everything, and no more.
pub proof fn groups_hold_everything(n: int, size: int)
    requires
        n >= 0,
        size > 0,
    ensures
        groups_of(n, size) * size >= n,
        (groups_of(n, size) - 1) * size < n,
        groups_of(n, size) >= 0,
{
    let g = groups_of(n, size);
    assert(g * size >= n && (g - 1) * size < n && g >= 0) by (nonlinear_arith)
        requires
            g == (n + size - 1) / size,
            n >= 0,
            size > 0,
    ;
}

/// A line of blocks has that many blocks of that many threads.
pub proof fn lines_are_one_block_high(blocks: u32, threads: u32)
    ensures
        line(blocks as int, threads as int).blocks == (blocks, 1u32, 1u32),
        line(blocks as int, threads as int).threads == (threads, 1u32, 1u32),
{
}

/// Two tensors are at one place if they are on the CPU, on the same GPU under
/// CUDA, or on the very same device under Metal.
pub proof fn tensors_meet_at_one_place(x: &TensorInfo, y: &TensorInfo)
    ensures
        x.placed_with(y) == y.placed_with(x),
        x.placed_with(x),
        x.placed_with(y) ==> x.device == y.device,
        x.device == Device::Cpu && y.device == Device::Cpu ==> x.placed_with(y),
        x.device == Device::Cuda && y.device == Device::Cuda ==> (x.placed_with(y) <==> x.gpu
            == y.gpu),
        x.device == Device::Metal && y.device == Device::Metal ==> (x.placed_with(y)
            <==> x.device_id == y.device_id),
        x.beside(y) <==> x.device == y.device && x.device_id == y.device_id,
{
}

/// An operation that only CUDA has takes two tensors, or three, exactly where
/// all are on one GPU.
pub proof fn operations_take_tensors_of_one_gpu(
    op: Seq<char>,
    on_cpu: Seq<char>,
    x: &TensorInfo,
    y: &TensorInfo,
    z: &TensorInfo,
)
    ensures
        place_failure(op, x, y) is None <==> x.placed_with(y),
        binary_failure(op, on_cpu, x, y) is None <==> x.device == Device::Cuda && y.device
            == Device::Cuda && x.gpu == y.gpu,
        ternary_failure(op, on_cpu, x, y, z) is None <==> x.device == Device::Cuda && y.device
            == Device::Cuda && z.device == Device::Cuda && x.gpu == y.gpu && x.gpu == z.gpu,
        x.device == Device::Cpu && y.device == Device::Cpu ==> binary_failure(op, on_cpu, x, y)
            == Some(Failure::Candle(on_cpu)),
        x.device == Device::Cpu && y.device == Device::Cuda ==> binary_failure(op, on_cpu, x, y)
            == Some(
            Failure::Candle(
                "device mismatch in "@ + op + ", lhs: "@ + "Cpu"@ + ", rhs: "@ + y.place_text(),
            ),
        ),
        cuda_failure(op, Device::Cuda, on_cpu) is None,
        cuda_failure(op, Device::Cpu, on_cpu) == Some(Failure::Candle(on_cpu)),
        cuda_failure(op, Device::Metal, on_cpu) == Some(
            Failure::Candle("Metal error no metal implementation for "@ + op),
        ),
{
}

} // verus!
