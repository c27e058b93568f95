//! How a pass over the encoder is run: which kernels are used, and on what.
use crate::batching::total;
use crate::device::{DType, Device};
use crate::error::{tensor_error, Failure, SystemOneError};
use crate::modernbert::config::ModernBert;
use crate::modernbert::packing::{
    cumulative_seqlens, find_greatest, greatest, pack_varlen, packable, packed_position_ids,
    padded_rows, positions, unpack_varlen_bsd, SeqLens, UnpackedRows,
};
use crate::modernbert::window::{flash_compat_dtype, window_for, window_view, windows};
use crate::parallel_cuda;
use crate::residual_norm_cuda;
use crate::rope_cuda;
use crate::tensor::{rank_error, rank_failure, Span, TensorInfo};
use crate::text::{decimal, decimal_text};
use vstd::prelude::*;
use vstd::string::StringExecFns;

verus! {

/// A pass over packed sequences.
#[derive(Debug)]
pub struct PackedPass {
    /// The rows of the padded block that are packed.
    pub rows: Vec<Span>,
    pub lens: SeqLens,
    pub positions: Vec<u32>,
    /// A window for each layer.
    pub windows: Vec<Option<usize>>,
}

/// The layers' windows over sequences of up to `longest` tokens.
pub open spec fn has_windows(model: &ModernBert, longest: int, list: Seq<Option<usize>>) -> bool {
    &&& list.len() == model.local@.len()
    &&& forall|i: int|
        0 <= i < list.len() ==> window_view(#[trigger] list[i]) == window_for(
            model.local@[i],
            longest,
            model.local_attention_size as int,
        )
}

/// The sequences' starts, and how long the longest is.
pub open spec fn has_lens(lens: Seq<usize>, found: SeqLens) -> bool {
    &&& found.starts@.len() == lens.len() + 1
    &&& forall|i: int|
        0 <= i <= lens.len() ==> #[trigger] found.starts@[i] == total(lens, i as nat)
    &&& found.longest == if greatest(lens, lens.len()) == 0 {
        1
    } else {
        greatest(lens, lens.len())
    }
}

impl ModernBert {
    /// Lays out a pass over packed sequences. Where sequences do not lie in
    /// the padded block there is none.
    pub fn forward_varlen_packed(&self, valid_lens: &Vec<usize>, batch: usize, seq_len: usize) -> (pass:
        Option<PackedPass>)
        requires
            batch * seq_len <= usize::MAX,
            total(valid_lens@, valid_lens@.len()) <= u32::MAX,
        ensures
            match pass {
                Some(pass) => {
                    &&& packable(valid_lens@, batch as int, seq_len as int)
                    &&& pass.rows@.len() == valid_lens@.len()
                    &&& forall|i: int|
                        0 <= i < pass.rows@.len() ==> #[trigger] pass.rows@[i] == padded_rows(
                            i,
                            seq_len as int,
                            valid_lens@[i],
                        )
                    &&& has_lens(valid_lens@, pass.lens)
                    &&& pass.positions@ == positions(valid_lens@, valid_lens@.len())
                    &&& has_windows(self, pass.lens.longest as int, pass.windows@)
                },
                None => !packable(valid_lens@, batch as int, seq_len as int),
            },
    {
        let lens = cumulative_seqlens(valid_lens);
        let ids = packed_position_ids(valid_lens);
        let rows = match pack_varlen(valid_lens, batch, seq_len) {
            Some(rows) => rows,
            None => {
                return None;
            },
        };
        let list = windows(&self.local, lens.longest, self.local_attention_size);
        Some(PackedPass { rows, lens, positions: ids, windows: list })
    }

    /// Lays out how packed states are spread out into a padded block again.
    pub fn forward_varlen_padded(&self, valid_lens: &Vec<usize>) -> (plan: Vec<UnpackedRows>)
        requires
            total(valid_lens@, valid_lens@.len()) < usize::MAX,
        ensures
            plan@.len() == valid_lens@.len(),
            forall|i: int|
                0 <= i < plan@.len() ==> #[trigger] plan@[i]
                    == crate::modernbert::packing::packed_rows(
                    valid_lens@,
                    i,
                    if greatest(valid_lens@, valid_lens@.len()) == 0 {
                        1
                    } else {
                        greatest(valid_lens@, valid_lens@.len()) as int
                    },
                ),
    {
        let best: usize = find_greatest(valid_lens);
        let longest: usize = if best == 0 {
            1
        } else {
            best
        };
        unpack_varlen_bsd(valid_lens, longest)
    }

    /// Finds the windows of a pass over sequences of one length.
    pub fn forward_unmasked(&self, seq_len: usize) -> (list: Vec<Option<usize>>)
        ensures
            has_windows(self, seq_len as int, list@),
    {
        windows(&self.local, seq_len, self.local_attention_size)
    }
}

/// A pass over queries of one length that keep their padding.
#[derive(Debug)]
pub struct QueryPass {
    /// Every row of every sequence asks.
    pub queries: SeqLens,
    /// Only the rows that are not padding answer.
    pub keys: SeqLens,
    /// Those rows; none where there is no layer to ask.
    pub key_rows: Vec<Span>,
    pub windows: Vec<Option<usize>>,
}

/// As many lengths of `n`.
pub open spec fn repeated(n: usize, times: nat) -> Seq<usize> {
    Seq::new(times, |i: int| n)
}

/// Some sequence is shorter than the queries.
pub open spec fn has_short(lens: Seq<usize>, seq_len: int) -> bool {
    exists|i: int| 0 <= i < lens.len() && #[trigger] lens[i] < seq_len
}

/// Why queries of this shape cannot be taken: windows would be placed
/// differently for a sequence that is shorter than its queries.
pub open spec fn query_failure(model: &ModernBert, dims: Seq<usize>, lens: Seq<usize>) -> Option<
    Failure,
> {
    let threshold = model.local_attention_size as int / 2 + 1;
    if dims.len() != 2 {
        Some(rank_failure(2, dims))
    } else if dims[1] > threshold && has_short(lens, dims[1] as int) {
        Some(
            Failure::Candle(
                "queries longer than "@ + decimal(threshold as nat)
                    + " tokens with expansion padding must use the masked path"@,
            ),
        )
    } else {
        None
    }
}

fn is_any_short(lens: &Vec<usize>, seq_len: usize) -> (yes: bool)
    ensures
        yes == has_short(lens@, seq_len as int),
{
    let mut i: usize = 0;
    while i < lens.len()
        invariant
            i <= lens.len(),
            forall|k: int| 0 <= k < i ==> #[trigger] lens@[k] >= seq_len,
        decreases lens.len() - i,
    {
        if lens[i] < seq_len {
            assert(lens@[i as int] < seq_len);
            return true;
        }
        i += 1;
    }
    false
}

fn repeat_length(n: usize, times: usize) -> (lens: Vec<usize>)
    ensures
        lens@ == repeated(n, times as nat),
{
    let mut lens: Vec<usize> = Vec::new();
    let mut i: usize = 0;
    while i < times
        invariant
            i <= times,
            lens@ == repeated(n, i as nat),
        decreases times - i,
    {
        lens.push(n);
        i += 1;
        assert(lens@ =~= repeated(n, i as nat));
    }
    lens
}

/// Equal lengths add up to a multiple.
pub proof fn total_repeated(n: usize, times: nat, m: nat)
    requires
        m <= times,
    ensures
        total(repeated(n, times), m) == m * n,
    decreases m,
{
    if m > 0 {
        total_repeated(n, times, (m - 1) as nat);
        assert(m * n == (m - 1) * n + n) by (nonlinear_arith);
    } else {
        assert(0 * n == 0);
    }
}

impl ModernBert {
    /// Lays out a pass over queries that keep their padding. `Ok(None)` says
    /// that there is a layer for which sequences do not lie in the padded
    /// block.
    pub fn forward_query_varlen(&self, dims: &Vec<usize>, valid_lens: &Vec<usize>) -> (result: Result<
        Option<QueryPass>,
        SystemOneError,
    >)
        requires
            dims@.len() == 2 ==> dims@[0] * dims@[1] <= u32::MAX,
            total(valid_lens@, valid_lens@.len()) <= u32::MAX,
        ensures
            match result {
                Ok(Some(pass)) => {
                    &&& query_failure(self, dims@, valid_lens@) is None
                    &&& has_lens(repeated(dims@[1], dims@[0] as nat), pass.queries)
                    &&& has_lens(valid_lens@, pass.keys)
                    &&& if self.local@.len() > 0 {
                        &&& packable(valid_lens@, dims@[0] as int, dims@[1] as int)
                        &&& pass.key_rows@.len() == valid_lens@.len()
                        &&& forall|i: int|
                            0 <= i < pass.key_rows@.len() ==> #[trigger] pass.key_rows@[i]
                                == padded_rows(i, dims@[1] as int, valid_lens@[i])
                    } else {
                        pass.key_rows@.len() == 0
                    }
                    &&& has_windows(self, dims@[1] as int, pass.windows@)
                },
                Ok(None) => query_failure(self, dims@, valid_lens@) is None && self.local@.len() > 0
                    && !packable(
                    valid_lens@,
                    dims@[0] as int,
                    dims@[1] as int,
                ),
                Err(e) => query_failure(self, dims@, valid_lens@) == Some(e@),
            },
    {
        if dims.len() != 2 {
            return Err(rank_error(2, dims));
        }
        let batch: usize = dims[0];
        let seq_len: usize = dims[1];
        let threshold: usize = self.local_attention_size / 2 + 1;
        if seq_len > threshold && is_any_short(valid_lens, seq_len) {
            let mut message = "queries longer than ".to_owned();
            message.append(decimal_text(threshold).as_str());
            message.append(" tokens with expansion padding must use the masked path");
            return Err(tensor_error(message.as_str()));
        }
        let uniform = repeat_length(seq_len, batch);
        proof {
            total_repeated(seq_len, batch as nat, batch as nat);
        }
        let queries = cumulative_seqlens(&uniform);
        let keys = cumulative_seqlens(valid_lens);
        let key_rows = if self.local.len() == 0 {
            Vec::new()
        } else {
            match pack_varlen(valid_lens, batch, seq_len) {
                Some(rows) => rows,
                None => {
                    return Ok(None);
                },
            }
        };
        let list = windows(&self.local, seq_len, self.local_attention_size);
        Ok(Some(QueryPass { queries, keys, key_rows, windows: list }))
    }
}

/// Where a window is used on queries, every sequence fills its queries, so
/// that windows lie the same for both.
pub proof fn windowed_queries_have_no_padding(
    model: &ModernBert,
    dims: Seq<usize>,
    lens: Seq<usize>,
    layer: int,
)
    requires
        dims.len() == 2,
        query_failure(model, dims, lens) is None,
        0 <= layer < model.local@.len(),
        window_for(model.local@[layer], dims[1] as int, model.local_attention_size as int) is Some,
    ensures
        forall|i: int| 0 <= i < lens.len() ==> #[trigger] lens[i] >= dims[1],
{
    assert forall|i: int| 0 <= i < lens.len() implies #[trigger] lens[i] >= dims[1] by {
        if lens[i] < dims[1] {
            assert(has_short(lens, dims[1] as int));
        }
    }
}

/// Each layer's last sum waits for the next layer's norm.
pub open spec fn sums_wait(packed: &TensorInfo) -> bool {
    &&& packed.device == Device::Cuda
    &&& packed.dtype == DType::BF16
    &&& packed.dims@[1] == 1024
    &&& packed.count() <= 0x7fff_ffff
}

/// What comes behind the last layer.
#[derive(Clone, Copy, Debug, PartialEq, Eq, Structural)]
pub enum LastNorm {
    /// The last sum and the final norm in one kernel.
    Fused,
    /// The final norm alone.
    Plain,
}

/// Decides whether sums wait for the next norm, and what comes behind the last
/// of `layers` layers.
pub fn defer_sums(packed: &TensorInfo, layers: usize) -> (plan: (bool, LastNorm))
    requires
        packed.wf(),
        packed.dims@.len() == 2,
    ensures
        plan.0 == sums_wait(packed),
        plan.1 == if sums_wait(packed) && layers > 0 {
            LastNorm::Fused
        } else {
            LastNorm::Plain
        },
{
    let deferred = packed.device == Device::Cuda && packed.dtype == DType::BF16 && packed.dims[1]
        == 1024 && packed.elem_count() as u64 <= 0x7fff_ffff;
    if deferred && layers > 0 {
        (deferred, LastNorm::Fused)
    } else {
        (deferred, LastNorm::Plain)
    }
}

/// Where sums wait, the kernel that adds and normalises takes them.
pub proof fn waiting_sums_are_accepted(packed: &TensorInfo, pending: &TensorInfo, weight: &TensorInfo)
    requires
        sums_wait(packed),
        packed.dims@.len() == 2,
        packed.dims@[0] > 0,
        packed.contiguous,
        pending.dims@ == packed.dims@,
        pending.plain(DType::BF16, packed),
        weight.dims@ == seq![1024usize],
        weight.plain(DType::BF16, packed),
    ensures
        residual_norm_cuda::failure(packed, pending, weight) is None,
{
}

/// How a layer takes up what came before it.
#[derive(Clone, Copy, Debug, PartialEq, Eq, Structural)]
pub enum LayerEntry {
    /// Sum and norm in one kernel.
    Fused,
    /// The sum, then the norm where there is one.
    Summed { norm: bool },
    /// What came, then the norm where there is one.
    Taken { norm: bool },
}

/// Decides how a layer takes up what came before it.
pub fn enter_layer(has_pending: bool, has_norm: bool) -> (entry: LayerEntry)
    ensures
        entry == if has_pending && has_norm {
            LayerEntry::Fused
        } else if has_pending {
            LayerEntry::Summed { norm: has_norm }
        } else {
            LayerEntry::Taken { norm: has_norm }
        },
{
    if has_pending && has_norm {
        LayerEntry::Fused
    } else if has_pending {
        LayerEntry::Summed { norm: has_norm }
    } else {
        LayerEntry::Taken { norm: has_norm }
    }
}

/// Attention's sum and the norm behind it go into one kernel.
pub open spec fn norm_is_fused(residual: &TensorInfo, attended: &TensorInfo) -> bool {
    &&& residual.device == Device::Cuda
    &&& residual.dtype == DType::BF16
    &&& residual.contiguous
    &&& attended.contiguous
    &&& 0 < residual.dims@[1] <= 1024
    &&& 0 < residual.count() <= 0x7fff_ffff
}

/// Decides whether attention's sum and the norm behind it go into one kernel.
pub fn fuse_norm(residual: &TensorInfo, attended: &TensorInfo) -> (result: Result<
    bool,
    SystemOneError,
>)
    requires
        residual.wf(),
    ensures
        match result {
            Ok(fused) => residual.dims@.len() == 2 && fused == norm_is_fused(residual, attended),
            Err(e) => residual.dims@.len() != 2 && e@ == rank_failure(2, residual.dims@),
        },
{
    if residual.dims.len() != 2 {
        return Err(rank_error(2, &residual.dims));
    }
    let hidden: usize = residual.dims[1];
    if residual.device != Device::Cuda || residual.dtype != DType::BF16 || !residual.contiguous
        || !attended.contiguous || hidden == 0 || hidden > 1024 {
        return Ok(false);
    }
    let count: usize = residual.elem_count();
    Ok(count > 0 && count as u64 <= 0x7fff_ffff)
}

/// Where the norm goes into the kernel, the kernel takes it.
pub proof fn fused_norms_are_accepted(
    residual: &TensorInfo,
    attended: &TensorInfo,
    weight: &TensorInfo,
)
    requires
        residual.dims@.len() == 2,
        norm_is_fused(residual, attended),
        attended.dims@ == residual.dims@,
        attended.dtype == DType::BF16,
        attended.beside(residual),
        weight.dims@ == seq![residual.dims@[1]],
        weight.plain(DType::BF16, residual),
    ensures
        residual_norm_cuda::failure(attended, residual, weight) is None,
{
    if attended.dims@[0] == 0 {
        crate::tensor::elements_zero(residual.dims@, 0);
    }
}

/// How queries, keys and values are projected, and what attention runs in.
#[derive(Clone, Copy, Debug, PartialEq, Eq, Structural)]
pub struct AttentionPlan {
    /// The three projections are taken side by side.
    pub parallel: bool,
    pub dtype: DType,
    pub heads: usize,
    pub head_size: usize,
    pub tokens: usize,
}

/// Lays out attention over packed states. `supported` says whether the device
/// is one that projections side by side were compared on.
pub fn forward_varlen_fully_packed(
    hidden: &TensorInfo,
    heads: usize,
    head_size: usize,
    reduced_precision: bool,
    supported: bool,
) -> (result: Result<AttentionPlan, SystemOneError>)
    ensures
        match result {
            Ok(plan) => {
                &&& hidden.dims@.len() == 2
                &&& plan.parallel == (parallel_cuda::worthwhile("qkv"@, hidden, reduced_precision)
                    && supported)
                &&& plan.dtype == if hidden.dtype == DType::F16 || hidden.dtype == DType::BF16 {
                    hidden.dtype
                } else {
                    DType::F16
                }
                &&& plan.heads == heads
                &&& plan.head_size == head_size
                &&& plan.tokens == hidden.dims@[0]
            },
            Err(e) => hidden.dims@.len() != 2 && e@ == rank_failure(2, hidden.dims@),
        },
{
    if hidden.dims.len() != 2 {
        return Err(rank_error(2, &hidden.dims));
    }
    let parallel = parallel_cuda::enabled("qkv", hidden, reduced_precision) && supported;
    Ok(
        AttentionPlan {
            parallel,
            dtype: flash_compat_dtype(hidden.dtype),
            heads,
            head_size,
            tokens: hidden.dims[0],
        },
    )
}

/// Queries and keys are rotated in one kernel.
pub open spec fn rotated_together(q: &TensorInfo, k: &TensorInfo) -> bool {
    &&& q.device == Device::Cuda
    &&& q.dtype == DType::BF16
    &&& q.contiguous
    &&& k.contiguous
    &&& q.dims@.last() % 2 == 0
    &&& 0 < q.count() <= 0x7fff_ffff
}

/// Decides whether queries and keys are rotated in one kernel.
pub fn apply_rotary_emb_packed(q: &TensorInfo, k: &TensorInfo) -> (paired: bool)
    requires
        q.wf(),
        q.dims@.len() > 0,
    ensures
        paired == rotated_together(q, k),
{
    if q.device != Device::Cuda || q.dtype != DType::BF16 || !q.contiguous || !k.contiguous
        || q.dims[q.dims.len() - 1] % 2 != 0 {
        return false;
    }
    let count: usize = q.elem_count();
    count > 0 && count as u64 <= 0x7fff_ffff
}

/// Where queries and keys are rotated in one kernel, the kernel takes them.
pub proof fn rotations_are_accepted(
    q: &TensorInfo,
    k: &TensorInfo,
    cos: &TensorInfo,
    sin: &TensorInfo,
)
    requires
        q.dims@.len() == 3,
        rotated_together(q, k),
        k.dims@ == q.dims@,
        k.plain(DType::BF16, q),
        cos.dims@ == seq![q.dims@[0], (q.dims@[2] as int / 2) as usize],
        sin.dims@ == cos.dims@,
        cos.plain(DType::BF16, q),
        sin.plain(DType::BF16, q),
    ensures
        rope_cuda::failure(q, k, cos, sin) is None,
{
    if q.dims@[0] == 0 {
        crate::tensor::elements_zero(q.dims@, 0);
    }
    if q.dims@[1] == 0 {
        crate::tensor::elements_zero(q.dims@, 1);
    }
    if q.dims@[2] == 0 {
        crate::tensor::elements_zero(q.dims@, 2);
    }
}

/// How a feed-forward part is run.
#[derive(Clone, Copy, Debug, PartialEq, Eq, Structural)]
pub enum MlpPlan {
    /// Both projections side by side, then activation and gate in one step.
    Parallel,
    /// The projections one after the other, then activation and gate in one
    /// step.
    Gated,
    /// Each step on its own.
    Plain,
}

/// Decides how a feed-forward part is run.
pub fn forward_with_output(xs: &TensorInfo, reduced_precision: bool, supported: bool) -> (plan: MlpPlan)
    ensures
        plan == if xs.device != Device::Cuda || xs.dtype != DType::BF16 {
            MlpPlan::Plain
        } else if parallel_cuda::worthwhile("ffn"@, xs, reduced_precision) && supported {
            MlpPlan::Parallel
        } else {
            MlpPlan::Gated
        },
{
    if xs.device != Device::Cuda || xs.dtype != DType::BF16 {
        return MlpPlan::Plain;
    }
    if parallel_cuda::enabled("ffn", xs, reduced_precision) && supported {
        MlpPlan::Parallel
    } else {
        MlpPlan::Gated
    }
}

/// Whether a norm without a bias is given one of zeros: on CUDA a norm with a
/// bias is one kernel, and zeros change nothing.
pub fn layer_norm_no_bias_fused(device: Device) -> (zero_bias: bool)
    ensures
        zero_bias == (device == Device::Cuda),
{
    device == Device::Cuda
}

} // verus!
