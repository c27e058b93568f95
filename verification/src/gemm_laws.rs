//! How products of matrices are laid out, and when another tile is used.
use crate::device::{DType, Device};
use crate::gemm_cuda::{
    all_written, can_retile, choosable, chosen_at, good_places, multiplies, op_failure, planned,
    planned_at, Attribute, Product, Retile, RetileAction, Shape,
};
use crate::parallel_cuda::measured;
use crate::tensor::{elements_two, TensorInfo};
use vstd::prelude::*;

verus! {

/// A product has a row for every row of the input and a column for every row
/// of the weight, and both are read whole.
pub proof fn products_have_the_rows_of_both(x: &TensorInfo, weight: &TensorInfo, product: Product)
    requires
        x.wf(),
        weight.wf(),
        x.dims@.len() == 2,
        weight.dims@.len() == 2,
        x.dims@[1] == weight.dims@[1],
        multiplies(x, weight, product),
    ensures
        product.shape.m == x.dims@[0],
        product.shape.n == weight.dims@[0],
        product.shape.k == x.dims@[1],
        product.output == product.shape.m * product.shape.n,
        product.x.start == x.offset,
        product.x.end - product.x.start == product.shape.m * product.shape.k,
        product.weight.start == weight.offset,
        product.weight.end - product.weight.start == product.shape.n * product.shape.k,
{
    elements_two(x.dims@);
    elements_two(weight.dims@);
}

/// A product of a shape takes contiguous BF16 matrices of that shape on one
/// GPU.
pub proof fn products_take_matrices_of_their_shape(
    shape: Shape,
    x: &TensorInfo,
    weight: &TensorInfo,
)
    ensures
        op_failure(shape, x, weight) is None <==> {
            &&& x.device == Device::Cuda && weight.device == Device::Cuda && x.gpu == weight.gpu
            &&& x.dtype == DType::BF16 && weight.dtype == DType::BF16
            &&& x.contiguous && weight.contiguous
            &&& x.dims@.len() == 2 && weight.dims@.len() == 2
            &&& x.dims@[0] == shape.m && x.dims@[1] == shape.k
            &&& weight.dims@[0] == shape.n && weight.dims@[1] == shape.k
        },
{
    if x.dims@.len() == 2 && x.dims@[0] == shape.m && x.dims@[1] == shape.k {
        assert(x.dims@ =~= seq![shape.m, shape.k]);
    }
    if weight.dims@.len() == 2 && weight.dims@[0] == shape.n && weight.dims@[1] == shape.k {
        assert(weight.dims@ =~= seq![shape.n, shape.k]);
    }
}

/// The places kept are those of good results, all of them, in order.
pub proof fn good_results_are_kept_in_order(good: Seq<bool>, n: nat)
    requires
        n <= good.len(),
        good.len() <= usize::MAX,
    ensures
        forall|k: int|
            0 <= k < good_places(good, n).len() ==> {
                let place = #[trigger] good_places(good, n)[k];
                place < n && good[place as int]
            },
        forall|i: int|
            0 <= i < n && #[trigger] good[i] ==> good_places(good, n).contains(i as usize),
        forall|k: int, l: int|
            0 <= k < l < good_places(good, n).len() ==> #[trigger] good_places(good, n)[k]
                < #[trigger] good_places(good, n)[l],
    decreases n,
{
    if n > 0 {
        let m = (n - 1) as nat;
        good_results_are_kept_in_order(good, m);
        let before = good_places(good, m);
        let after = good_places(good, n);
        assert forall|i: int| 0 <= i < n && #[trigger] good[i] implies after.contains(
            i as usize,
        ) by {
            if i < m {
                let k = choose|k: int| 0 <= k < before.len() && before[k] == i as usize;
                assert(before.contains(i as usize));
                assert(after[k] == i as usize);
            } else {
                assert(after[before.len() as int] == i as usize);
            }
        }
    }
}

/// An algorithm's attributes are complete where the first seven have four bytes
/// each and the last two have two.
pub proof fn attributes_are_complete(attributes: Seq<Attribute>)
    requires
        attributes.len() == 9,
    ensures
        all_written(attributes) <==> attributes[0].written == 4 && attributes[1].written == 4
            && attributes[2].written == 4 && attributes[3].written == 4 && attributes[4].written
            == 4 && attributes[5].written == 4 && attributes[6].written == 4
            && attributes[7].written == 2 && attributes[8].written == 2,
{
    if all_written(attributes) {
        assert(attributes[0].written == 4 && attributes[1].written == 4);
    }
}

/// Another tile is looked for where the first algorithm is the one it was
/// compared with.
pub proof fn one_algorithm_is_retiled(first: Seq<u32>)
    ensures
        can_retile(first) <==> first.len() == 9 && first[0] == 21 && first[1] == 18 && first[2] == 4
            && first[3] == 4 && first[4] == 12 && first[5] == 0 && first[6] == 0,
{
    let want = seq![21u32, 18, 4, 4, 12, 0, 0];
    if first.len() == 9 {
        let head = first.take(7);
        assert(forall|i: int| 0 <= i < 7 ==> head[i] == first[i]);
        assert(want[0] == 21 && want[1] == 18 && want[2] == 4 && want[3] == 4 && want[4] == 12
            && want[5] == 0 && want[6] == 0);
        if can_retile(first) {
            assert(head[0] == first[0] && head[1] == first[1] && head[2] == first[2] && head[3]
                == first[3] && head[4] == first[4] && head[5] == first[5] && head[6] == first[6]);
        } else if first[0] == 21 && first[1] == 18 && first[2] == 4 && first[3] == 4 && first[4]
            == 12 && first[5] == 0 && first[6] == 0 {
            assert(head =~= want);
        }
    }
}

/// The candidate is the first algorithm, but in another tile.
pub open spec fn in_another_tile(candidate: Option<Vec<u32>>, first: Seq<u32>) -> bool {
    candidate matches Some(values) && values@.len() == first.len() && values@[1] == 15 && forall|
        a: int,
    |
        0 <= a < first.len() && a != 1 ==> #[trigger] values@[a] == first[a]
}

/// The algorithm that stands in is the first candidate that is the first
/// algorithm in another tile, and one stands in wherever there is such a
/// candidate.
pub proof fn the_first_candidate_in_another_tile_stands_in(
    configs: Seq<Option<Vec<u32>>>,
    first: Vec<u32>,
    i: int,
)
    requires
        configs.len() > 0,
        configs[0] == Some(first),
        can_retile(first@),
    ensures
        chosen_at(configs, i) <==> 0 <= i < configs.len() && in_another_tile(configs[i], first@)
            && forall|j: int| 0 <= j < i ==> !in_another_tile(#[trigger] configs[j], first@),
        choosable(configs) <==> exists|j: int|
            0 <= j < configs.len() && in_another_tile(#[trigger] configs[j], first@),
{
    let target = first@.update(1, 15);
    assert(target[1] == 15);
    assert forall|j: int| 0 <= j < configs.len() implies crate::gemm_cuda::is_config(
        #[trigger] configs[j],
        target,
    ) == in_another_tile(configs[j], first@) by {
        if let Some(values) = configs[j] {
            if in_another_tile(configs[j], first@) {
                assert(values@ =~= target);
            }
        }
    }
    if exists|j: int| 0 <= j < configs.len() && in_another_tile(#[trigger] configs[j], first@) {
        let j = choose|j: int|
            0 <= j < configs.len() && in_another_tile(#[trigger] configs[j], first@);
        first_in_another_tile(configs, first@, j);
        let k = choose|k: int|
            0 <= k < configs.len() && in_another_tile(#[trigger] configs[k], first@) && forall|
                l: int,
            |
                0 <= l < k ==> !in_another_tile(#[trigger] configs[l], first@);
        assert(chosen_at(configs, k));
    }
}

proof fn first_in_another_tile(configs: Seq<Option<Vec<u32>>>, first: Seq<u32>, j: int)
    requires
        0 <= j < configs.len(),
        in_another_tile(configs[j], first),
    ensures
        exists|k: int|
            0 <= k < configs.len() && in_another_tile(#[trigger] configs[k], first) && forall|
                l: int,
            |
                0 <= l < k ==> !in_another_tile(#[trigger] configs[l], first),
    decreases j,
{
    if exists|l: int| 0 <= l < j && in_another_tile(#[trigger] configs[l], first) {
        let l = choose|l: int| 0 <= l < j && in_another_tile(#[trigger] configs[l], first);
        first_in_another_tile(configs, first, l);
    }
}

/// Another tile is used for BF16 products on CUDA of 129 to 136 rows with a
/// weight of 1024 rows, without a bias, at well placed operands.
pub proof fn few_products_are_retiled(
    retile: Retile,
    xs: &TensorInfo,
    weight: &TensorInfo,
    has_bias: bool,
)
    ensures
        retile.eligible(xs, weight, has_bias) <==> {
            &&& !retile.disabled && !has_bias
            &&& xs.dtype == DType::BF16 && xs.device == Device::Cuda
            &&& xs.dims@.len() == 2
            &&& xs.dims@[0] > 128 && xs.dims@[0] < 137
            &&& xs.dims@[1] == 1024 || xs.dims@[1] == 2624
            &&& weight.dims@.len() > 0 && weight.dims@[0] == 1024
            &&& xs.contiguous && weight.contiguous
            &&& xs.offset % 128 == 0 && weight.offset % 128 == 0
        },
{
}

/// A shape that is known is taken as it was noted, whatever stands beside it;
/// an unknown shape is asked for.
pub proof fn shapes_are_taken_as_noted(retile: Retile, shape: Shape, i: int)
    requires
        retile.wf(),
    ensures
        0 <= i < retile.plans@.len() && retile.plans@[i].shape == shape ==> retile.next(shape)
            == match retile.plans@[i].algorithm {
            Some(algorithm) => RetileAction::Run(shape, algorithm),
            None => RetileAction::Apply,
        },
        (forall|j: int|
            0 <= j < retile.plans@.len() ==> (#[trigger] retile.plans@[j]).shape != shape)
            ==> retile.next(shape) == RetileAction::Configure(shape),
{
    let plans = retile.plans@;
    if exists|j: int| planned_at(plans, shape, j) {
        let j = choose|j: int| planned_at(plans, shape, j);
        assert(planned_at(plans, shape, j));
        if planned_at(plans, shape, i) {
            if i < j {
                assert(plans[i].shape != plans[j].shape);
            } else if j < i {
                assert(plans[j].shape != plans[i].shape);
            }
        }
    } else {
        assert(planned(plans, shape) is None);
        assert(!planned_at(plans, shape, i));
    }
}

/// Algorithms were compared on one device with one release of the library.
pub proof fn one_device_was_measured(name: Seq<char>, version: int)
    ensures
        measured(name, version) <==> name == "NVIDIA GeForce RTX 3080 Ti"@ && version == 120901,
{
}

} // verus!
