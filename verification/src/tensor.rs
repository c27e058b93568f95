//! What is known of a tensor besides its elements, and how kernels are
//! launched on tensors.
use crate::device::{DType, Device};
use crate::error::{tensor_error, Failure, SystemOneError};
use crate::text::{decimal, decimal_text, list_text, write_list};
use vstd::prelude::*;
use vstd::string::StringExecFns;

verus! {

/// How many elements a tensor of this shape has.
pub open spec fn elements(dims: Seq<usize>) -> nat
    decreases dims.len(),
{
    if dims.len() == 0 {
        1
    } else {
        elements(dims.drop_last()) * dims.last() as nat
    }
}

/// A shape without an empty dimension has an element.
pub proof fn elements_positive(dims: Seq<usize>)
    requires
        forall|i: int| 0 <= i < dims.len() ==> #[trigger] dims[i] > 0,
    ensures
        elements(dims) > 0,
    decreases dims.len(),
{
    if dims.len() > 0 {
        let rest = dims.drop_last();
        assert forall|i: int| 0 <= i < rest.len() implies #[trigger] rest[i] > 0 by {
            assert(rest[i] == dims[i]);
        }
        elements_positive(rest);
        assert(elements(rest) * dims.last() as nat > 0) by (nonlinear_arith)
            requires
                elements(rest) > 0,
                dims.last() > 0,
        ;
    }
}

/// A shape with an empty dimension has no element.
pub proof fn elements_zero(dims: Seq<usize>, i: int)
    requires
        0 <= i < dims.len(),
        dims[i] == 0,
    ensures
        elements(dims) == 0,
    decreases dims.len(),
{
    let rest = dims.drop_last();
    if i < rest.len() {
        elements_zero(rest, i);
        assert(elements(rest) * dims.last() as nat == 0) by (nonlinear_arith)
            requires
                elements(rest) == 0,
        ;
    } else {
        assert(elements(rest) * dims.last() as nat == 0) by (nonlinear_arith)
            requires
                dims.last() == 0,
        ;
    }
}

/// The elements of two dimensions.
pub proof fn elements_two(dims: Seq<usize>)
    requires
        dims.len() == 2,
    ensures
        elements(dims) == dims[0] as nat * dims[1] as nat,
{
    reveal_with_fuel(elements, 3);
    let one = dims.drop_last();
    assert(one.drop_last() =~= Seq::empty());
    assert(elements(one) == elements(one.drop_last()) * dims[0] as nat);
    assert(1 * dims[0] as nat == dims[0] as nat);
}

/// The elements of three dimensions.
pub proof fn elements_three(dims: Seq<usize>)
    requires
        dims.len() == 3,
    ensures
        elements(dims) == dims[0] as nat * dims[1] as nat * dims[2] as nat,
{
    let two = dims.drop_last();
    elements_two(two);
}

/// The elements of one dimension.
pub proof fn elements_one(dims: Seq<usize>)
    requires
        dims.len() == 1,
    ensures
        elements(dims) == dims[0],
{
    reveal_with_fuel(elements, 2);
    assert(dims.drop_last() =~= Seq::empty());
    assert(1 * dims[0] as nat == dims[0] as nat);
}

/// Counts the elements of a shape, where the count fits.
pub fn count_elements(dims: &Vec<usize>) -> (count: Option<usize>)
    ensures
        match count {
            Some(n) => n == elements(dims@),
            None => elements(dims@) > usize::MAX,
        },
{
    let mut i: usize = 0;
    while i < dims.len()
        invariant
            i <= dims.len(),
            forall|k: int| 0 <= k < i ==> #[trigger] dims@[k] > 0,
        decreases dims.len() - i,
    {
        if dims[i] == 0 {
            proof {
                elements_zero(dims@, i as int);
            }
            return Some(0);
        }
        i += 1;
    }
    let mut count: usize = 1;
    let mut j: usize = 0;
    while j < dims.len()
        invariant
            j <= dims.len(),
            forall|k: int| 0 <= k < dims.len() ==> #[trigger] dims@[k] > 0,
            count == elements(dims@.take(j as int)),
        decreases dims.len() - j,
    {
        let ghost head = dims@.take(j as int);
        proof {
            assert(dims@.take(j + 1).drop_last() =~= head);
            assert(dims@.take(j + 1).last() == dims@[j as int]);
            elements_grow(dims@, j + 1);
        }
        match count.checked_mul(dims[j]) {
            Some(n) => {
                count = n;
            },
            None => {
                return None;
            },
        }
        j += 1;
    }
    assert(dims@.take(dims@.len() as int) =~= dims@);
    Some(count)
}

/// Further dimensions that are not empty make a shape no smaller.
proof fn elements_grow(dims: Seq<usize>, m: int)
    requires
        0 <= m <= dims.len(),
        forall|i: int| 0 <= i < dims.len() ==> #[trigger] dims[i] > 0,
    ensures
        elements(dims.take(m)) <= elements(dims),
    decreases dims.len() - m,
{
    if m < dims.len() {
        elements_grow(dims, m + 1);
        let next = dims.take(m + 1);
        assert(next.drop_last() =~= dims.take(m));
        assert(next.last() == dims[m]);
        assert(elements(dims.take(m)) <= elements(dims.take(m)) * dims[m] as nat)
            by (nonlinear_arith)
            requires
                dims[m] > 0,
        ;
    } else {
        assert(dims.take(m) =~= dims);
    }
}

/// The shape, layout and place of a tensor.
#[derive(Debug)]
pub struct TensorInfo {
    pub dims: Vec<usize>,
    pub strides: Vec<usize>,
    pub contiguous: bool,
    pub dtype: DType,
    pub device: Device,
    /// The number of the device among those of its kind.
    pub gpu: usize,
    /// Tells devices apart that were opened separately.
    pub device_id: usize,
    /// Where the tensor starts in its storage.
    pub offset: usize,
}

impl TensorInfo {
    /// How many elements the tensor has.
    pub open spec fn count(&self) -> nat {
        elements(self.dims@)
    }

    /// The elements can be counted, and so can the places behind them.
    pub open spec fn wf(&self) -> bool {
        &&& self.offset + self.count() <= usize::MAX
        &&& self.strides@.len() == self.dims@.len()
    }

    /// Both tensors are on one device.
    pub open spec fn beside(&self, other: &TensorInfo) -> bool {
        self.device == other.device && self.device_id == other.device_id
    }

    /// An operation can take both tensors: they are at one place, and on Metal
    /// on one device.
    pub open spec fn placed_with(&self, other: &TensorInfo) -> bool {
        match self.device {
            Device::Cpu => other.device == Device::Cpu,
            Device::Cuda => other.device == Device::Cuda && self.gpu == other.gpu,
            Device::Metal => self.beside(other),
        }
    }

    /// Whether an operation can take both tensors.
    pub fn is_placed_with(&self, other: &TensorInfo) -> (yes: bool)
        ensures
            yes == self.placed_with(other),
    {
        match self.device {
            Device::Cpu => other.device == Device::Cpu,
            Device::Cuda => other.device == Device::Cuda && self.gpu == other.gpu,
            Device::Metal => self.same_device(other),
        }
    }

    /// Where the tensor is, written out.
    pub open spec fn place_text(&self) -> Seq<char> {
        match self.device {
            Device::Cpu => "Cpu"@,
            Device::Cuda => "Cuda { gpu_id: "@ + decimal(self.gpu as nat) + " }"@,
            Device::Metal => "Metal { gpu_id: "@ + decimal(self.gpu as nat) + " }"@,
        }
    }

    /// Writes out where the tensor is.
    fn write_place(&self) -> (text: String)
        ensures
            text@ == self.place_text(),
    {
        let mut text = match self.device {
            Device::Cpu => {
                return "Cpu".to_owned();
            },
            Device::Cuda => "Cuda { gpu_id: ".to_owned(),
            Device::Metal => "Metal { gpu_id: ".to_owned(),
        };
        text.append(decimal_text(self.gpu).as_str());
        text.append(" }");
        text
    }

    /// The tensor is contiguous, of this type, and on the device of `other`.
    pub open spec fn plain(&self, dtype: DType, other: &TensorInfo) -> bool {
        self.contiguous && self.dtype == dtype && self.beside(other)
    }

    /// How many elements the tensor has.
    pub fn elem_count(&self) -> (n: usize)
        requires
            self.wf(),
        ensures
            n == self.count(),
    {
        match count_elements(&self.dims) {
            Some(n) => n,
            None => 0,
        }
    }

    /// Whether both tensors are on one device.
    pub fn same_device(&self, other: &TensorInfo) -> (yes: bool)
        ensures
            yes == self.beside(other),
    {
        self.device == other.device && self.device_id == other.device_id
    }

    /// Whether the tensor is contiguous, of this type, and on the device of
    /// `other`.
    pub fn is_plain(&self, dtype: DType, other: &TensorInfo) -> (yes: bool)
        ensures
            yes == self.plain(dtype, other),
    {
        self.contiguous && self.dtype == dtype && self.same_device(other)
    }

    /// Whether the tensor has one dimension of this size.
    pub fn is_vector(&self, n: usize) -> (yes: bool)
        ensures
            yes == (self.dims@ == seq![n]),
    {
        let yes = self.dims.len() == 1 && self.dims[0] == n;
        assert(yes ==> self.dims@ =~= seq![n]);
        yes
    }

    /// Whether the tensor has two dimensions of these sizes.
    pub fn is_matrix(&self, m: usize, n: usize) -> (yes: bool)
        ensures
            yes == (self.dims@ == seq![m, n]),
    {
        let yes = self.dims.len() == 2 && self.dims[0] == m && self.dims[1] == n;
        assert(yes ==> self.dims@ =~= seq![m, n]);
        yes
    }

    /// Whether the tensor has three dimensions of these sizes.
    pub fn is_cube(&self, l: usize, m: usize, n: usize) -> (yes: bool)
        ensures
            yes == (self.dims@ == seq![l, m, n]),
    {
        let yes = self.dims.len() == 3 && self.dims[0] == l && self.dims[1] == m && self.dims[2]
            == n;
        assert(yes ==> self.dims@ =~= seq![l, m, n]);
        yes
    }

    /// Whether both tensors have one shape.
    pub fn same_dims(&self, other: &TensorInfo) -> (yes: bool)
        ensures
            yes == (self.dims@ == other.dims@),
    {
        crate::tokens::same_numbers(&self.dims, &other.dims)
    }

    /// The first `n` places of the tensor in its storage.
    pub open spec fn span(&self, n: nat) -> Span {
        Span { start: self.offset, end: (self.offset + n) as usize }
    }

    /// The first `n` places of the tensor in its storage.
    pub fn first(&self, n: usize) -> (span: Span)
        requires
            self.offset + n <= usize::MAX,
        ensures
            span == self.span(n as nat),
    {
        Span { start: self.offset, end: self.offset + n }
    }
}

/// Why a tensor is refused that has not the number of dimensions that was
/// expected.
pub open spec fn rank_failure(expected: nat, dims: Seq<usize>) -> Failure {
    Failure::Candle(
        "unexpected rank, expected: "@ + decimal(expected) + ", got: "@ + decimal(dims.len())
            + " ("@ + list_text(dims) + ")"@,
    )
}

/// Says that a tensor has not the number of dimensions that was expected.
pub fn rank_error(expected: usize, dims: &Vec<usize>) -> (error: SystemOneError)
    ensures
        error@ == rank_failure(expected as nat, dims@),
{
    let mut message = "unexpected rank, expected: ".to_owned();
    message.append(decimal_text(expected).as_str());
    message.append(", got: ");
    message.append(decimal_text(dims.len()).as_str());
    message.append(" (");
    message.append(write_list(dims).as_str());
    message.append(")");
    tensor_error(message.as_str())
}

/// Why a tensor is refused that has no dimension `dim`.
pub open spec fn dim_failure(dim: nat, dims: Seq<usize>) -> Failure {
    Failure::Candle(
        "dim: dimension index "@ + decimal(dim) + " out of range for shape "@ + list_text(dims),
    )
}

/// Says that a tensor has no dimension `dim`.
pub fn dim_error(dim: usize, dims: &Vec<usize>) -> (error: SystemOneError)
    ensures
        error@ == dim_failure(dim as nat, dims@),
{
    let mut message = "dim: dimension index ".to_owned();
    message.append(decimal_text(dim).as_str());
    message.append(" out of range for shape ");
    message.append(write_list(dims).as_str());
    tensor_error(message.as_str())
}

/// Why an operation cannot take two tensors that are at different places.
pub open spec fn place_failure(op: Seq<char>, x: &TensorInfo, y: &TensorInfo) -> Option<Failure> {
    if x.placed_with(y) {
        None
    } else {
        Some(
            Failure::Candle(
                "device mismatch in "@ + op + ", lhs: "@ + x.place_text() + ", rhs: "@
                    + y.place_text(),
            ),
        )
    }
}

/// Accepts two tensors that an operation can take.
pub fn check_places(op: &str, x: &TensorInfo, y: &TensorInfo) -> (result: Result<(), SystemOneError>)
    ensures
        match result {
            Ok(_) => place_failure(op@, x, y) is None,
            Err(e) => place_failure(op@, x, y) == Some(e@),
        },
{
    if x.is_placed_with(y) {
        return Ok(());
    }
    let mut message = "device mismatch in ".to_owned();
    message.append(op);
    message.append(", lhs: ");
    message.append(x.write_place().as_str());
    message.append(", rhs: ");
    message.append(y.write_place().as_str());
    Err(tensor_error(message.as_str()))
}

/// Why an operation that only CUDA has cannot be run on a device. `on_cpu` is
/// what the operation says of the CPU.
pub open spec fn cuda_failure(op: Seq<char>, device: Device, on_cpu: Seq<char>) -> Option<Failure> {
    match device {
        Device::Cpu => Some(Failure::Candle(on_cpu)),
        Device::Cuda => None,
        Device::Metal => Some(
            Failure::Candle("Metal error no metal implementation for "@ + op),
        ),
    }
}

/// Accepts a device that an operation which only CUDA has can be run on.
pub fn check_cuda(op: &str, device: Device, on_cpu: &str) -> (result: Result<(), SystemOneError>)
    ensures
        match result {
            Ok(_) => cuda_failure(op@, device, on_cpu@) is None,
            Err(e) => cuda_failure(op@, device, on_cpu@) == Some(e@),
        },
{
    match device {
        Device::Cpu => Err(tensor_error(on_cpu)),
        Device::Cuda => Ok(()),
        Device::Metal => {
            let mut message = "Metal error no metal implementation for ".to_owned();
            message.append(op);
            Err(tensor_error(message.as_str()))
        },
    }
}

/// Why an operation that only CUDA has cannot take two operands.
pub open spec fn binary_failure(
    op: Seq<char>,
    on_cpu: Seq<char>,
    x: &TensorInfo,
    y: &TensorInfo,
) -> Option<Failure> {
    if place_failure(op, x, y) is Some {
        place_failure(op, x, y)
    } else {
        cuda_failure(op, x.device, on_cpu)
    }
}

/// Accepts two operands of an operation that only CUDA has.
pub fn check_binary(op: &str, on_cpu: &str, x: &TensorInfo, y: &TensorInfo) -> (result: Result<
    (),
    SystemOneError,
>)
    ensures
        match result {
            Ok(_) => binary_failure(op@, on_cpu@, x, y) is None,
            Err(e) => binary_failure(op@, on_cpu@, x, y) == Some(e@),
        },
{
    match check_places(op, x, y) {
        Ok(_) => check_cuda(op, x.device, on_cpu),
        Err(e) => Err(e),
    }
}

/// Why an operation that only CUDA has cannot take three operands.
pub open spec fn ternary_failure(
    op: Seq<char>,
    on_cpu: Seq<char>,
    x: &TensorInfo,
    y: &TensorInfo,
    z: &TensorInfo,
) -> Option<Failure> {
    if place_failure(op, x, y) is Some {
        place_failure(op, x, y)
    } else {
        binary_failure(op, on_cpu, x, z)
    }
}

/// Accepts three operands of an operation that only CUDA has.
pub fn check_ternary(op: &str, on_cpu: &str, x: &TensorInfo, y: &TensorInfo, z: &TensorInfo) -> (result:
    Result<(), SystemOneError>)
    ensures
        match result {
            Ok(_) => ternary_failure(op@, on_cpu@, x, y, z) is None,
            Err(e) => ternary_failure(op@, on_cpu@, x, y, z) == Some(e@),
        },
{
    match check_places(op, x, y) {
        Ok(_) => check_binary(op, on_cpu, x, z),
        Err(e) => Err(e),
    }
}

/// Copies the numbers of a shape.
pub fn copy_numbers(numbers: &Vec<usize>) -> (copy: Vec<usize>)
    ensures
        copy@ == numbers@,
{
    let mut copy: Vec<usize> = Vec::new();
    let mut i: usize = 0;
    while i < numbers.len()
        invariant
            i <= numbers.len(),
            copy@ == numbers@.take(i as int),
        decreases numbers.len() - i,
    {
        copy.push(numbers[i]);
        assert(copy@ =~= numbers@.take(i + 1));
        i += 1;
    }
    assert(numbers@.take(numbers@.len() as int) =~= numbers@);
    copy
}

/// Places in a storage, from `start` up to but not at `end`.
#[derive(Clone, Copy, Debug, PartialEq, Eq, Structural)]
pub struct Span {
    pub start: usize,
    pub end: usize,
}

/// What a kernel is launched on: the parts of the storages that it reads, how
/// many elements it writes, and the numbers that it is handed.
#[derive(Debug)]
pub struct Launch {
    pub kernel: &'static str,
    pub inputs: Vec<Span>,
    pub output: usize,
    pub numbers: Vec<u32>,
    pub grid: Grid,
}

impl Launch {
    /// The launch has exactly these parts.
    pub open spec fn has(
        &self,
        kernel: Seq<char>,
        inputs: Seq<Span>,
        output: nat,
        numbers: Seq<u32>,
        grid: Grid,
    ) -> bool {
        &&& self.kernel@ == kernel
        &&& self.inputs@ == inputs
        &&& self.output == output
        &&& self.numbers@ == numbers
        &&& self.grid == grid
    }
}

/// Blocks and threads along one line.
pub open spec fn line(blocks: int, threads: int) -> Grid {
    Grid { blocks: (blocks as u32, 1, 1), threads: (threads as u32, 1, 1) }
}

/// How a kernel is launched.
#[derive(Clone, Copy, Debug, PartialEq, Eq)]
pub struct Grid {
    pub blocks: (u32, u32, u32),
    pub threads: (u32, u32, u32),
}

/// The least number of groups of `size` that hold `n`.
pub open spec fn groups_of(n: int, size: int) -> int
    recommends
        size > 0,
{
    (n + size - 1) / size
}

/// The groups hold everything, and no group is without use.
pub proof fn groups_cover(n: int, size: int)
    requires
        n >= 0,
        size > 0,
    ensures
        groups_of(n, size) * size >= n,
        groups_of(n, size) * size < n + size,
        groups_of(n, size) >= 0,
        n > 0 ==> (groups_of(n, size) - 1) * size < n,
{
    let g = groups_of(n, size);
    vstd::arithmetic::div_mod::lemma_fundamental_div_mod(n + size - 1, size);
    vstd::arithmetic::div_mod::lemma_mod_bound(n + size - 1, size);
    assert(size * g == g * size) by (nonlinear_arith);
    assert((g - 1) * size == g * size - size) by (nonlinear_arith);
    assert(g >= 0) by (nonlinear_arith)
        requires
            g * size >= n,
            n >= 0,
            size > 0,
    ;
}

/// Counts groups of 256.
pub fn groups_of_256(n: u32) -> (groups: u32)
    ensures
        groups == groups_of(n as int, 256),
{
    if n % 256 == 0 {
        n / 256
    } else {
        n / 256 + 1
    }
}

} // verus!
