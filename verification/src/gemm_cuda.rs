//! Short encoder products with another output tile, where that is known to
//! leave every bit of the result alone.
use crate::device::{DType, Device};
use crate::error::{tensor_error, Failure, SystemOneError};
use crate::tensor::{binary_failure, check_binary, dim_error, dim_failure, Span, TensorInfo};
use crate::text::same;
use vstd::prelude::*;

verus! {

/// Scratch memory of a product, in bytes.
pub const WORKSPACE: usize = 67108864;

/// The operation that takes a product in another tile.
pub const KERNEL: &'static str = "vs1_bf16_retiled_gemm";

/// The device that algorithms were compared on.
pub const DEVICE_NAME: &'static str = "NVIDIA GeForce RTX 3080 Ti";

/// The library release that algorithms were compared on.
pub const LIBRARY_VERSION: usize = 120901;

/// A product's sizes: rows of the input, columns of the output, columns of the
/// input.
#[derive(Clone, Copy, Debug, PartialEq, Eq, Structural)]
pub struct Shape {
    pub m: usize,
    pub n: usize,
    pub k: usize,
}

/// A product of an input with the transpose of a weight: what is read, and how
/// much is written.
#[derive(Clone, Copy, Debug, PartialEq, Eq, Structural)]
pub struct Product {
    pub shape: Shape,
    pub x: Span,
    pub weight: Span,
    pub output: usize,
}

/// The product reads both operands whole and writes every place of the result.
pub open spec fn multiplies(x: &TensorInfo, weight: &TensorInfo, product: Product) -> bool {
    &&& product.shape == (Shape { m: x.dims@[0], n: weight.dims@[0], k: x.dims@[1] })
    &&& product.x == x.span(x.count())
    &&& product.weight == weight.span(weight.count())
    &&& product.output == x.dims@[0] * weight.dims@[0]
}

/// Lays out a product of matrices that fit together.
pub fn lay_out_product(x: &TensorInfo, weight: &TensorInfo) -> (product: Product)
    requires
        x.wf(),
        weight.wf(),
        x.dims@.len() == 2,
        weight.dims@.len() == 2,
        weight.dims@[1] == x.dims@[1],
        x.dims@[0] * weight.dims@[0] <= usize::MAX,
    ensures
        multiplies(x, weight, product),
{
    let m: usize = x.dims[0];
    let k: usize = x.dims[1];
    let n: usize = weight.dims[0];
    Product {
        shape: Shape { m, n, k },
        x: x.first(x.elem_count()),
        weight: weight.first(weight.elem_count()),
        output: m * n,
    }
}

/// What is remembered of the scratch memory: the thread that used it last.
#[derive(Clone, Copy, Debug)]
pub struct Engine {
    pub last_thread: Option<u64>,
}

/// A product, and whether the last use of the scratch memory must be waited
/// for first.
#[derive(Clone, Copy, Debug, PartialEq, Eq, Structural)]
pub struct GemmStep {
    pub product: Product,
    pub wait: bool,
}

/// Why a product of this shape cannot be taken.
pub open spec fn op_failure(shape: Shape, x: &TensorInfo, weight: &TensorInfo) -> Option<Failure> {
    if binary_failure(KERNEL@, "CUDA only"@, x, weight) is Some {
        binary_failure(KERNEL@, "CUDA only"@, x, weight)
    } else if x.dtype != DType::BF16 || weight.dtype != DType::BF16 {
        Some(Failure::Candle("BF16 only"@))
    } else if !x.contiguous || !weight.contiguous || x.dims@ != seq![shape.m, shape.k]
        || weight.dims@ != seq![shape.n, shape.k] {
        Some(Failure::Candle("invalid GEMM layouts"@))
    } else {
        None
    }
}

impl Engine {
    /// Lays out a product of this shape that a thread is to take. Streams of
    /// different threads do not wait for each other, so one thread waits for
    /// another's use of the scratch memory.
    pub fn cuda_fwd(&self, shape: Shape, x: &TensorInfo, weight: &TensorInfo, thread: u64) -> (result:
        Result<GemmStep, SystemOneError>)
        requires
            x.wf(),
            weight.wf(),
            shape.m * shape.n <= usize::MAX,
        ensures
            match result {
                Ok(step) => {
                    &&& op_failure(shape, x, weight) is None
                    &&& multiplies(x, weight, step.product)
                    &&& step.wait == (self.last_thread is Some && self.last_thread->0 != thread)
                },
                Err(e) => op_failure(shape, x, weight) == Some(e@),
            },
    {
        match check_binary(KERNEL, "CUDA only", x, weight) {
            Ok(_) => {},
            Err(e) => {
                return Err(e);
            },
        }
        if x.dtype != DType::BF16 || weight.dtype != DType::BF16 {
            return Err(tensor_error("BF16 only"));
        }
        if !x.contiguous || !weight.contiguous || !x.is_matrix(shape.m, shape.k)
            || !weight.is_matrix(shape.n, shape.k) {
            return Err(tensor_error("invalid GEMM layouts"));
        }
        let wait = match self.last_thread {
            Some(last) => last != thread,
            None => false,
        };
        Ok(GemmStep { product: lay_out_product(x, weight), wait })
    }

    /// Whether the last use of the scratch memory must be waited for before it
    /// is given back: it was used at all.
    pub fn in_use(&self) -> (yes: bool)
        ensures
            yes == (self.last_thread is Some),
    {
        self.last_thread.is_some()
    }

    /// Notes that a thread used the scratch memory.
    pub fn record(&mut self, thread: u64)
        ensures
            final(self).last_thread == Some(thread),
    {
        self.last_thread = Some(thread);
    }
}

/// Where the good ones among the first `n` results are.
pub open spec fn good_places(good: Seq<bool>, n: nat) -> Seq<usize>
    decreases n,
{
    if n == 0 {
        Seq::empty()
    } else {
        let before = good_places(good, (n - 1) as nat);
        if good[n - 1] {
            before.push((n - 1) as usize)
        } else {
            before
        }
    }
}

/// Keeps the places of the results that were found good, in order.
pub fn algorithms(good: &Vec<bool>) -> (places: Vec<usize>)
    ensures
        places@ == good_places(good@, good@.len()),
{
    let mut places: Vec<usize> = Vec::new();
    let mut i: usize = 0;
    while i < good.len()
        invariant
            i <= good.len(),
            places@ == good_places(good@, i as nat),
        decreases good.len() - i,
    {
        if good[i] {
            places.push(i);
        }
        i += 1;
    }
    places
}

/// An attribute of an algorithm, and how many bytes of it were written.
#[derive(Clone, Copy, Debug)]
pub struct Attribute {
    pub value: u32,
    pub written: usize,
}

/// How many bytes the attribute at `i` has: the first seven have four, the two
/// others two.
pub open spec fn attribute_size(i: int) -> int {
    if i < 7 {
        4
    } else {
        2
    }
}

/// Every attribute was written whole.
pub open spec fn all_written(attributes: Seq<Attribute>) -> bool {
    forall|i: int| 0 <= i < 9 ==> (#[trigger] attributes[i]).written == attribute_size(i)
}

/// Puts an algorithm's attributes together, where each was written whole.
pub fn config(attributes: &Vec<Attribute>) -> (values: Option<Vec<u32>>)
    requires
        attributes@.len() == 9,
    ensures
        match values {
            Some(values) => {
                &&& all_written(attributes@)
                &&& values@ == attributes@.map_values(|a: Attribute| a.value)
            },
            None => !all_written(attributes@),
        },
{
    let mut values: Vec<u32> = Vec::new();
    let mut i: usize = 0;
    while i < 9
        invariant
            i <= 9,
            attributes@.len() == 9,
            values.len() == i,
            forall|k: int| 0 <= k < i ==> #[trigger] values@[k] == attributes@[k].value,
            forall|k: int|
                0 <= k < i ==> (#[trigger] attributes@[k]).written == attribute_size(k),
        decreases 9 - i,
    {
        let size: usize = if i < 7 {
            4
        } else {
            2
        };
        let attribute = attributes[i];
        if attribute.written != size {
            assert(attributes@[i as int].written != attribute_size(i as int));
            return None;
        }
        values.push(attribute.value);
        i += 1;
    }
    assert(values@ =~= attributes@.map_values(|a: Attribute| a.value));
    Some(values)
}

/// The algorithm is the one whose tile can be exchanged.
pub open spec fn can_retile(first: Seq<u32>) -> bool {
    first.len() == 9 && first.take(7) == seq![21u32, 18, 4, 4, 12, 0, 0]
}

/// The algorithm that stands for another one: the same but for its tile.
pub open spec fn retiled(first: Seq<u32>) -> Seq<u32> {
    first.update(1, 15)
}

/// The candidate is this algorithm.
pub open spec fn is_config(candidate: Option<Vec<u32>>, target: Seq<u32>) -> bool {
    candidate is Some && candidate->0@ == target
}

/// The candidate at `i` is the first that is the exchanged algorithm.
pub open spec fn chosen_at(configs: Seq<Option<Vec<u32>>>, i: int) -> bool {
    let target = retiled(configs[0]->0@);
    &&& 0 <= i < configs.len()
    &&& is_config(configs[i], target)
    &&& forall|j: int| 0 <= j < i ==> !is_config(#[trigger] configs[j], target)
}

/// An exchange is possible.
pub open spec fn choosable(configs: Seq<Option<Vec<u32>>>) -> bool {
    &&& configs.len() > 0
    &&& configs[0] is Some
    &&& can_retile(configs[0]->0@)
    &&& exists|i: int| #[trigger] chosen_at(configs, i)
}

fn same_config(candidate: &Option<Vec<u32>>, target: &Vec<u32>) -> (yes: bool)
    ensures
        yes == is_config(*candidate, target@),
{
    match candidate {
        Some(values) => {
            if values.len() != target.len() {
                return false;
            }
            let mut i: usize = 0;
            while i < values.len()
                invariant
                    i <= values.len(),
                    values.len() == target.len(),
                    candidate is Some,
                    candidate->0@ == values@,
                    forall|k: int| 0 <= k < i ==> #[trigger] values@[k] == target@[k],
                decreases values.len() - i,
            {
                if values[i] != target[i] {
                    assert(values@[i as int] != target@[i as int]);
                    return false;
                }
                i += 1;
            }
            assert(values@ =~= target@);
            true
        },
        None => false,
    }
}

fn is_retilable(first: &Vec<u32>) -> (yes: bool)
    ensures
        yes == can_retile(first@),
{
    if first.len() != 9 {
        return false;
    }
    let yes = first[0] == 21 && first[1] == 18 && first[2] == 4 && first[3] == 4 && first[4] == 12
        && first[5] == 0 && first[6] == 0;
    proof {
        let head = first@.take(7);
        if yes {
            assert(head =~= seq![21u32, 18, 4, 4, 12, 0, 0]);
        } else {
            let want = seq![21u32, 18, 4, 4, 12, 0, 0];
            assert(head[0] == first@[0] && head[1] == first@[1] && head[2] == first@[2] && head[3]
                == first@[3] && head[4] == first@[4] && head[5] == first@[5] && head[6]
                == first@[6]);
            assert(want[0] == 21 && want[1] == 18 && want[2] == 4 && want[3] == 4 && want[4] == 12
                && want[5] == 0 && want[6] == 0);
        }
    }
    yes
}

/// Chooses the algorithm that stands for the first one: the first candidate
/// that differs from it in nothing but the tile. A later candidate whose
/// attributes could not be read is passed over.
pub fn choose_algorithm(configs: &Vec<Option<Vec<u32>>>) -> (chosen: Option<usize>)
    requires
        configs@.len() > 0 ==> configs@[0] is Some,
    ensures
        match chosen {
            Some(i) => configs@.len() > 0 && configs@[0] is Some && can_retile(configs@[0]->0@)
                && chosen_at(configs@, i as int),
            None => !choosable(configs@),
        },
{
    if configs.len() == 0 {
        return None;
    }
    let mut target: Vec<u32> = Vec::new();
    match &configs[0] {
        Some(first) => {
            if !is_retilable(first) {
                return None;
            }
            let mut i: usize = 0;
            while i < first.len()
                invariant
                    i <= first.len(),
                    target@ == first@.take(i as int),
                decreases first.len() - i,
            {
                target.push(first[i]);
                assert(target@ =~= first@.take(i + 1));
                i += 1;
            }
            assert(target@ =~= first@);
            target.set(1, 15);
        },
        None => {
            return None;
        },
    }
    let mut i: usize = 0;
    while i < configs.len()
        invariant
            i <= configs.len(),
            configs@.len() > 0,
            configs@[0] is Some,
            can_retile(configs@[0]->0@),
            target@ == retiled(configs@[0]->0@),
            forall|j: int| 0 <= j < i ==> !is_config(#[trigger] configs@[j], target@),
        decreases configs.len() - i,
    {
        if same_config(&configs[i], &target) {
            assert(chosen_at(configs@, i as int));
            return Some(i);
        }
        i += 1;
    }
    None
}

/// What is known of a shape: the algorithm that stands in, if any.
#[derive(Clone, Copy, Debug)]
pub struct KnownShape {
    pub shape: Shape,
    pub algorithm: Option<usize>,
}

/// The products that are taken in another tile.
#[derive(Debug)]
pub struct Retile {
    /// The device is not the one that algorithms were compared on.
    pub disabled: bool,
    /// The device was found to be that one, and scratch memory was made on it.
    pub ready: bool,
    pub plans: Vec<KnownShape>,
}

/// What is to be done next for a product.
#[derive(Clone, Copy, Debug, PartialEq, Eq, Structural)]
pub enum RetileAction {
    /// Take it the ordinary way.
    Apply,
    /// Find out the device's name and the library's release.
    Inspect(Shape),
    /// Make scratch memory on the device.
    Prepare(Shape),
    /// Ask for the algorithms that suit the shape.
    Configure(Shape),
    /// Take it with this algorithm.
    Run(Shape, usize),
}

/// The shape stands at `i`.
pub open spec fn planned_at(plans: Seq<KnownShape>, shape: Shape, i: int) -> bool {
    0 <= i < plans.len() && plans[i].shape == shape
}

/// What is known of a shape.
pub open spec fn planned(plans: Seq<KnownShape>, shape: Shape) -> Option<Option<usize>> {
    if exists|i: int| planned_at(plans, shape, i) {
        Some(plans[choose|i: int| planned_at(plans, shape, i)].algorithm)
    } else {
        None
    }
}

impl Retile {
    /// No shape is known twice.
    pub open spec fn wf(&self) -> bool {
        forall|i: int, j: int|
            0 <= i < j < self.plans@.len() ==> (#[trigger] self.plans@[i]).shape != (
            #[trigger] self.plans@[j]).shape
    }

    /// The product is one that may be taken in another tile.
    pub open spec fn eligible(&self, xs: &TensorInfo, weight: &TensorInfo, has_bias: bool) -> bool {
        &&& Self::looked_at(xs)
        &&& self.suits(xs, weight, has_bias)
        &&& weight.dims@.len() > 0
        &&& weight.dims@[0] == 1024
    }

    /// The input has a shape that may be taken in another tile.
    pub open spec fn looked_at(xs: &TensorInfo) -> bool {
        &&& xs.dims@.len() == 2
        &&& 129 <= xs.dims@[0] <= 136
        &&& xs.dims@[1] == 1024 || xs.dims@[1] == 2624
    }

    /// Type, place and layout allow another tile.
    pub open spec fn suits(&self, xs: &TensorInfo, weight: &TensorInfo, has_bias: bool) -> bool {
        &&& !self.disabled
        &&& xs.dtype == DType::BF16
        &&& xs.device == Device::Cuda
        &&& !has_bias
        &&& xs.contiguous
        &&& weight.contiguous
        &&& xs.offset % 128 == 0
        &&& weight.offset % 128 == 0
    }

    /// A fresh state, in which no shape is known.
    pub fn new() -> (retile: Self)
        ensures
            retile.wf(),
            !retile.disabled,
            !retile.ready,
            retile.plans@.len() == 0,
    {
        Retile { disabled: false, ready: false, plans: Vec::new() }
    }

    /// What is to be done for a shape, once the device is known.
    pub open spec fn next(&self, shape: Shape) -> RetileAction {
        match planned(self.plans@, shape) {
            Some(Some(algorithm)) => RetileAction::Run(shape, algorithm),
            Some(None) => RetileAction::Apply,
            None => RetileAction::Configure(shape),
        }
    }

    fn decide(&self, shape: Shape) -> (action: RetileAction)
        requires
            self.wf(),
        ensures
            action == self.next(shape),
    {
        let mut i: usize = 0;
        while i < self.plans.len()
            invariant
                i <= self.plans.len(),
                self.wf(),
                forall|k: int| 0 <= k < i ==> (#[trigger] self.plans@[k]).shape != shape,
            decreases self.plans.len() - i,
        {
            if self.plans[i].shape == shape {
                proof {
                    assert(planned_at(self.plans@, shape, i as int));
                    let at = choose|i: int| planned_at(self.plans@, shape, i);
                    assert(planned_at(self.plans@, shape, at));
                    if at < i {
                        assert(self.plans@[at].shape != self.plans@[i as int].shape);
                    } else if at > i {
                        assert(self.plans@[i as int].shape != self.plans@[at].shape);
                    }
                }
                return match self.plans[i].algorithm {
                    Some(algorithm) => RetileAction::Run(shape, algorithm),
                    None => RetileAction::Apply,
                };
            }
            i += 1;
        }
        proof {
            if exists|i: int| planned_at(self.plans@, shape, i) {
                let at = choose|i: int| planned_at(self.plans@, shape, i);
                assert(planned_at(self.plans@, shape, at));
            }
        }
        RetileAction::Configure(shape)
    }

    /// Decides how a product of an input with a weight is taken.
    pub fn linear(&self, xs: &TensorInfo, weight: &TensorInfo, has_bias: bool) -> (result: Result<
        RetileAction,
        SystemOneError,
    >)
        requires
            self.wf(),
        ensures
            match result {
                Ok(action) => {
                    let shape = Shape { m: xs.dims@[0], n: 1024, k: xs.dims@[1] };
                    if !self.eligible(xs, weight, has_bias) {
                        &&& action == RetileAction::Apply
                        &&& !(Self::looked_at(xs) && self.suits(xs, weight, has_bias)
                            && weight.dims@.len() == 0)
                    } else if !self.ready {
                        action == RetileAction::Inspect(shape)
                    } else {
                        action == self.next(shape)
                    }
                },
                Err(e) => {
                    &&& Self::looked_at(xs)
                    &&& self.suits(xs, weight, has_bias)
                    &&& weight.dims@.len() == 0
                    &&& e@ == dim_failure(0, weight.dims@)
                },
            },
    {
        if xs.dims.len() != 2 {
            return Ok(RetileAction::Apply);
        }
        let m: usize = xs.dims[0];
        let k: usize = xs.dims[1];
        if m < 129 || m > 136 || !(k == 1024 || k == 2624) {
            return Ok(RetileAction::Apply);
        }
        if self.disabled || xs.dtype != DType::BF16 || xs.device != Device::Cuda || has_bias
            || !xs.contiguous || !weight.contiguous || xs.offset % 128 != 0 || weight.offset % 128
            != 0 {
            return Ok(RetileAction::Apply);
        }
        if weight.dims.len() == 0 {
            return Err(dim_error(0, &weight.dims));
        }
        let n: usize = weight.dims[0];
        if n != 1024 {
            return Ok(RetileAction::Apply);
        }
        let shape = Shape { m, n, k };
        if !self.ready {
            return Ok(RetileAction::Inspect(shape));
        }
        Ok(self.decide(shape))
    }

    /// Takes in what the device and the library are. Algorithms and their
    /// order differ from one device or release to the next, so any other pair
    /// keeps the ordinary products. Nothing else is remembered before scratch
    /// memory was made: where that fails the next product inspects again.
    pub fn inspected(&mut self, name: &str, version: usize, shape: Shape) -> (action: RetileAction)
        requires
            old(self).wf(),
        ensures
            final(self).wf(),
            final(self).plans@ == old(self).plans@,
            final(self).ready == old(self).ready,
            if name@ == DEVICE_NAME@ && version == LIBRARY_VERSION {
                &&& final(self).disabled == old(self).disabled
                &&& action == RetileAction::Prepare(shape)
            } else {
                &&& final(self).disabled
                &&& action == RetileAction::Apply
            },
    {
        if !same(name, DEVICE_NAME) || version != LIBRARY_VERSION {
            self.disabled = true;
            return RetileAction::Apply;
        }
        RetileAction::Prepare(shape)
    }

    /// Takes in that scratch memory was made. No shape is known yet.
    pub fn prepared(&mut self, shape: Shape) -> (action: RetileAction)
        ensures
            final(self).wf(),
            final(self).plans@.len() == 0,
            final(self).ready,
            final(self).disabled == old(self).disabled,
            action == RetileAction::Configure(shape),
    {
        self.ready = true;
        self.plans = Vec::new();
        RetileAction::Configure(shape)
    }

    /// Takes in the algorithms that suit a shape, best first, and remembers
    /// which one stands in for the first. The first one's attributes must have
    /// been read: where they cannot be, nothing is remembered.
    pub fn configured(&mut self, shape: Shape, configs: &Vec<Option<Vec<u32>>>) -> (action:
        RetileAction)
        requires
            old(self).wf(),
            planned(old(self).plans@, shape) is None,
            configs@.len() > 0 ==> configs@[0] is Some,
        ensures
            final(self).wf(),
            final(self).disabled == old(self).disabled,
            final(self).ready == old(self).ready,
            action == final(self).next(shape),
            exists|algorithm: Option<usize>|
                {
                    &&& final(self).plans@ == old(self).plans@.push(
                        #[trigger] known(shape, algorithm),
                    )
                    &&& planned(final(self).plans@, shape) == Some(algorithm)
                    &&& algorithm matches Some(i) ==> configs@[0] is Some && can_retile(
                        configs@[0]->0@,
                    ) && chosen_at(configs@, i as int)
                    &&& algorithm is None ==> !choosable(configs@)
                },
    {
        let algorithm: Option<usize> = choose_algorithm(configs);
        let ghost before = self.plans@;
        self.plans.push(KnownShape { shape, algorithm });
        proof {
            assert forall|i: int| 0 <= i < before.len() implies (#[trigger] before[i]).shape
                != shape by {
                if before[i].shape == shape {
                    assert(planned_at(before, shape, i));
                }
            }
            assert(self.plans@ =~= before.push(known(shape, algorithm)));
            let last = before.len() as int;
            assert(planned_at(self.plans@, shape, last));
            let at = choose|i: int| planned_at(self.plans@, shape, i);
            assert(planned_at(self.plans@, shape, at));
            if at < last {
                assert(before[at].shape != shape);
            }
        }
        self.decide(shape)
    }
}

/// An entry for a shape.
pub open spec fn known(shape: Shape, algorithm: Option<usize>) -> KnownShape {
    KnownShape { shape, algorithm }
}

/// Once a device was found to be another one, every product is taken the
/// ordinary way.
pub proof fn other_devices_keep_ordinary_products(
    retile: Retile,
    xs: &TensorInfo,
    weight: &TensorInfo,
    has_bias: bool,
)
    requires
        retile.disabled,
    ensures
        !retile.eligible(xs, weight, has_bias),
{
}

/// What was worked out for one shape is kept while other shapes are worked
/// out.
pub proof fn known_shapes_are_kept(retile: Retile, shape: Shape, other: Shape, algorithm: Option<
    usize,
>)
    requires
        retile.wf(),
        other != shape,
    ensures
        planned(retile.plans@.push(known(other, algorithm)), shape) == planned(
            retile.plans@,
            shape,
        ),
{
    let before = retile.plans@;
    let after = before.push(known(other, algorithm));
    if exists|i: int| planned_at(before, shape, i) {
        let i = choose|i: int| planned_at(before, shape, i);
        assert(planned_at(before, shape, i));
        assert(planned_at(after, shape, i));
        let j = choose|j: int| planned_at(after, shape, j);
        assert(planned_at(after, shape, j));
        assert(j < before.len());
        assert(planned_at(before, shape, j));
        if i < j {
            assert(before[i].shape != before[j].shape);
        } else if j < i {
            assert(before[j].shape != before[i].shape);
        }
    } else {
        if exists|j: int| planned_at(after, shape, j) {
            let j = choose|j: int| planned_at(after, shape, j);
            assert(planned_at(after, shape, j));
            assert(planned_at(before, shape, j));
        }
    }
}

/// The algorithm that stands in differs from the first one in the tile alone.
pub proof fn only_the_tile_changes(configs: Seq<Option<Vec<u32>>>, i: int, attribute: int)
    requires
        configs.len() > 0,
        configs[0] is Some,
        can_retile(configs[0]->0@),
        chosen_at(configs, i),
        0 <= attribute < 9,
    ensures
        configs[i]->0@[attribute] == if attribute == 1 {
            15u32
        } else {
            configs[0]->0@[attribute]
        },
        configs[0]->0@[1] == 18,
{
    let first = configs[0]->0@;
    assert(first.take(7)[1] == first[1]);
    assert(seq![21u32, 18, 4, 4, 12, 0, 0][1] == 18);
}

} // verus!
