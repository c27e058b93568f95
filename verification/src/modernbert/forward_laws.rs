//! What a pass over the encoder is made of.
use crate::device::{DType, Device};
use crate::modernbert::cache::{CacheKey, LastUsedCache};
use crate::modernbert::config::{reader_weights, ModernBert};
use crate::modernbert::forward::{
    has_lens, has_windows, norm_is_fused, rotated_together, sums_wait,
};
use crate::modernbert::laws::{lengths_add_up, the_greatest_length_is_a_length};
use crate::modernbert::packing::SeqLens;
use crate::modernbert::window::mask_hides;
use crate::residual_norm_cuda;
use crate::tensor::{elements, TensorInfo};
use vstd::prelude::*;

verus! {

/// Each sequence starts where the one before it ends, and the longest is as
/// long as a sequence, or one where all are empty.
pub proof fn sequences_start_where_others_end(lens: Seq<usize>, found: SeqLens, i: int)
    requires
        has_lens(lens, found),
        0 <= i < lens.len(),
    ensures
        found.starts@.len() == lens.len() + 1,
        found.starts@[0] == 0,
        found.starts@[i + 1] - found.starts@[i] == lens[i],
        lens[i] <= found.longest,
        found.longest == 1 || exists|k: int|
            0 <= k < lens.len() && #[trigger] lens[k] == found.longest,
{
    lengths_add_up(lens, i as nat, 1);
    lengths_add_up(lens.skip(i), 0, 1);
    assert(lens.skip(i)[0] == lens[i]);
    the_greatest_length_is_a_length(lens);
    assert(found.starts@[i] == crate::batching::total(lens, i as nat));
    assert(found.starts@[i + 1] == crate::batching::total(lens, (i + 1) as nat));
    assert(found.starts@[0] == crate::batching::total(lens, 0));
}

/// A layer has a window where it looks around itself and the sequences reach
/// beyond it: half the size to either side.
pub proof fn layers_have_windows_where_they_look_around(
    model: &ModernBert,
    longest: int,
    list: Seq<Option<usize>>,
    i: int,
)
    requires
        has_windows(model, longest, list),
        0 <= i < model.local@.len(),
    ensures
        list.len() == model.local@.len(),
        !model.local@[i] ==> list[i] is None,
        longest * 2 <= model.local_attention_size ==> list[i] is None,
        model.local@[i] && longest - 1 > model.local_attention_size as int / 2 ==> list[i] is Some
            && (list[i]->0 * 2 == model.local_attention_size || list[i]->0 * 2 + 1
            == model.local_attention_size),
        list[i] is Some ==> longest - 1 > model.local_attention_size as int / 2,
{
    let window = list[i];
}

/// A position is hidden where it is padding, or where the layer looks around
/// itself and it is more than half the size away, on either side.
pub proof fn padding_and_far_positions_are_hidden(
    uses_local: bool,
    size: int,
    valid: Seq<bool>,
    i: int,
    j: int,
)
    requires
        size >= 0,
    ensures
        !valid[j] ==> mask_hides(uses_local, size, valid, i, j),
        valid[j] && !uses_local ==> !mask_hides(uses_local, size, valid, i, j),
        valid[j] && uses_local ==> (mask_hides(uses_local, size, valid, i, j) <==> i - j > size / 2
            || j - i > size / 2),
        valid[i] && valid[j] ==> mask_hides(uses_local, size, valid, i, j) == mask_hides(
            uses_local,
            size,
            valid,
            j,
            i,
        ),
{
}

/// A sum and the norm behind it go into one kernel where the operands lie flat
/// in BF16 on CUDA, at most 1024 wide and not empty.
pub proof fn sums_are_fused_with_their_norm(residual: &TensorInfo, attended: &TensorInfo)
    ensures
        norm_is_fused(residual, attended) <==> {
            &&& residual.contiguous && attended.contiguous
            &&& residual.dtype == DType::BF16 && residual.device == Device::Cuda
            &&& residual.dims@[1] > 0 && residual.dims@[1] < 1025
            &&& elements(residual.dims@) != 0 && elements(residual.dims@) < 2147483648
        },
{
}

/// Where a sum is fused with its norm, the kernel takes the operands, if the
/// attended states and the weight are of the kind of the residual.
pub proof fn fused_sums_are_accepted(
    residual: &TensorInfo,
    attended: &TensorInfo,
    weight: &TensorInfo,
)
    requires
        residual.dims@.len() == 2,
        norm_is_fused(residual, attended),
        attended.dims@ == residual.dims@,
        attended.dtype == residual.dtype,
        attended.beside(residual),
        weight.dims@ == seq![residual.dims@[1]],
        weight.contiguous,
        weight.dtype == residual.dtype,
        weight.beside(residual),
    ensures
        residual_norm_cuda::failure(residual, attended, weight) is None,
{
    crate::tensor::elements_two(residual.dims@);
    if residual.dims@[0] == 0 {
        assert(residual.dims@[0] as nat * residual.dims@[1] as nat == 0) by (nonlinear_arith)
            requires
                residual.dims@[0] == 0,
        ;
    }
}

/// Queries and keys are rotated in one kernel where both lie flat, in BF16 on
/// CUDA, in pairs, and are not empty.
pub proof fn queries_and_keys_are_rotated_together(q: &TensorInfo, k: &TensorInfo)
    requires
        q.dims@.len() > 0,
    ensures
        rotated_together(q, k) <==> {
            &&& q.contiguous && k.contiguous
            &&& q.dtype == DType::BF16 && q.device == Device::Cuda
            &&& q.dims@[q.dims@.len() - 1] % 2 == 0
            &&& elements(q.dims@) != 0 && elements(q.dims@) < 2147483648
        },
{
}

/// The last sum of a layer waits for the norm of the next one where it is BF16
/// on CUDA and 1024 wide.
pub proof fn sums_wait_for_the_next_norm(packed: &TensorInfo)
    ensures
        sums_wait(packed) <==> packed.device == Device::Cuda && packed.dtype == DType::BF16
            && packed.dims@[1] == 1024 && elements(packed.dims@) < 2147483648,
{
}

/// A cache hands out what was made last, for the key it was made for, and
/// nothing for another key.
pub proof fn caches_keep_the_last_value<K: CacheKey, V: Clone>(
    cache: LastUsedCache<K, V>,
    key: K,
    value: V,
    other: Seq<usize>,
)
    requires
        cache.slot == Some((key, value)),
        other != key.id(),
    ensures
        cache.kept(key.id()) == Some(value),
        cache.kept(other) is None,
{
}

/// The part that reads states has a square weight and a norm, without biases.
pub proof fn readers_fetch_their_weights(hidden: usize)
    ensures
        reader_weights(hidden).len() == 2,
        reader_weights(hidden)[0] == ("head.dense.weight"@, seq![hidden, hidden], false),
        reader_weights(hidden)[1] == ("head.norm.weight"@, seq![hidden], false),
{
}

} // verus!
