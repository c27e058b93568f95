//! Causal grouped-query attention: what is visible, and how heads, positions
//! and caches line up.
use crate::cua_s1::config::{LayerType, TextConfig};
use crate::device::{DType, Device};
use crate::error::{config_error, tensor_error, Failure, SystemOneError};
use crate::masks::{mask, mask_at};
use crate::tensor::{rank_error, rank_failure, TensorInfo};
use crate::text::{decimal, decimal_text};
use vstd::prelude::*;
use vstd::string::StringExecFns;

verus! {

/// The keys and the values of a prefix, one head after the other.
#[derive(Debug)]
pub struct KvCache {
    pub key: TensorInfo,
    pub value: TensorInfo,
}

/// The shape of a full-attention layer.
#[derive(Clone, Copy, Debug)]
pub struct FullAttention {
    pub num_heads: usize,
    pub num_kv_heads: usize,
    pub head_dim: usize,
}

/// How an attention step lines up with what was cached.
#[derive(Clone, Copy, Debug, PartialEq, Eq, Structural)]
pub struct AttentionStep {
    /// The first position of the step.
    pub first_position: usize,
    /// The position behind its last one.
    pub end_position: usize,
    /// The keys and values that there are after the step.
    pub key_len: usize,
    /// How many query heads share a key head.
    pub groups: usize,
}

/// The layer's type, where there is such a layer.
pub open spec fn type_of(config: &TextConfig, layer: usize) -> Option<LayerType> {
    if layer < config.layer_types@.len() {
        Some(config.layer_types@[layer as int])
    } else {
        None
    }
}

impl FullAttention {
    /// Why a layer cannot be loaded. `rotary_dim` is how much of a head is
    /// rotated.
    pub open spec fn load_failure(config: &TextConfig, layer: usize, rotary_dim: usize) -> Option<
        Failure,
    > {
        if type_of(config, layer) != Some(LayerType::FullAttention) {
            Some(
                Failure::Config(
                    "layer "@ + decimal(layer as nat) + " is not a full-attention layer"@,
                ),
            )
        } else if rotary_dim == 0 || rotary_dim % 2 != 0 || rotary_dim > config.head_dim {
            Some(
                Failure::Config(
                    "rotary dimension must be positive, even and at most head_dim"@,
                ),
            )
        } else {
            None
        }
    }

    /// Takes up a layer.
    pub fn load(config: &TextConfig, layer: usize, rotary_dim: usize) -> (result: Result<
        Self,
        SystemOneError,
    >)
        ensures
            match result {
                Ok(attention) => {
                    &&& Self::load_failure(config, layer, rotary_dim) is None
                    &&& attention.num_heads == config.num_attention_heads
                    &&& attention.num_kv_heads == config.num_key_value_heads
                    &&& attention.head_dim == config.head_dim
                },
                Err(e) => Self::load_failure(config, layer, rotary_dim) == Some(e@),
            },
    {
        let full = layer < config.layer_types.len() && config.layer_types[layer]
            == LayerType::FullAttention;
        if !full {
            let mut message = "layer ".to_owned();
            message.append(decimal_text(layer).as_str());
            message.append(" is not a full-attention layer");
            return Err(config_error(message.as_str()));
        }
        if rotary_dim == 0 || rotary_dim % 2 != 0 || rotary_dim > config.head_dim {
            return Err(
                config_error("rotary dimension must be positive, even and at most head_dim"),
            );
        }
        Ok(
            FullAttention {
                num_heads: config.num_attention_heads,
                num_kv_heads: config.num_key_value_heads,
                head_dim: config.head_dim,
            },
        )
    }

    /// A cache that this layer can continue from, given its next queries.
    pub open spec fn cache_fits(&self, cache: &KvCache, query: &TensorInfo) -> bool {
        &&& cache.key.dims@.len() == 3
        &&& cache.key.dims@[0] == self.num_kv_heads
        &&& cache.key.dims@[2] == self.head_dim
        &&& cache.value.dims@ == cache.key.dims@
        &&& cache.key.dtype == query.dtype
        &&& cache.value.dtype == query.dtype
        &&& cache.key.beside(query)
        &&& cache.value.beside(query)
    }

    /// How many positions a cache holds.
    pub open spec fn cached_len(cache: Option<&KvCache>) -> nat {
        match cache {
            Some(c) => c.key.dims@[1] as nat,
            None => 0,
        }
    }

    /// A step over `seq` positions takes up where the cache ends.
    pub open spec fn lines_up(&self, seq: usize, cache: Option<&KvCache>, step: AttentionStep) -> bool {
        let cached = Self::cached_len(cache);
        &&& step.first_position == cached
        &&& step.end_position == cached + seq
        &&& step.key_len == cached + seq
        &&& step.groups as int == self.num_heads as int / self.num_kv_heads as int
    }

    /// The keys and values of a step behind those of the cache that it took
    /// up, as its queries are laid out.
    pub open spec fn extends(&self, step: AttentionStep, query: &TensorInfo, cache: &KvCache) -> bool {
        &&& cache.key.dims@ == seq![self.num_kv_heads, step.key_len, self.head_dim]
        &&& cache.value.dims@ == cache.key.dims@
        &&& cache.key.dtype == query.dtype
        &&& cache.value.dtype == query.dtype
        &&& cache.key.beside(query)
        &&& cache.value.beside(query)
    }

    /// Lines a step over `seq` positions up with a cache.
    pub fn forward_with_cache(
        &self,
        query: &TensorInfo,
        seq: usize,
        cache: Option<&KvCache>,
    ) -> (result: Result<AttentionStep, SystemOneError>)
        requires
            self.num_kv_heads > 0,
            cache matches Some(c) ==> c.key.dims@.len() == 3 ==> c.key.dims@[1] + seq
                <= usize::MAX,
        ensures
            match result {
                Ok(step) => {
                    &&& seq > 0
                    &&& cache matches Some(c) ==> self.cache_fits(c, query)
                    &&& self.lines_up(seq, cache, step)
                },
                Err(e) => {
                    ||| seq == 0 && e@ == Failure::Candle(
                        "full attention requires a nonempty sequence"@,
                    )
                    ||| seq > 0 && cache is Some && cache->0.key.dims@.len() != 3 && e@
                        == rank_failure(3, cache->0.key.dims@)
                    ||| seq > 0 && cache is Some && cache->0.key.dims@.len() == 3
                        && !self.cache_fits(cache->0, query) && e@ == Failure::Candle(
                        "full attention cache has incompatible shape, dtype or device"@,
                    )
                },
            },
    {
        if seq == 0 {
            return Err(tensor_error("full attention requires a nonempty sequence"));
        }
        let cached: usize = match cache {
            Some(c) => {
                if c.key.dims.len() != 3 {
                    return Err(rank_error(3, &c.key.dims));
                }
                if c.key.dims[0] != self.num_kv_heads || c.key.dims[2] != self.head_dim
                    || !c.value.same_dims(&c.key) || c.key.dtype != query.dtype || c.value.dtype
                    != query.dtype || !c.key.same_device(query) || !c.value.same_device(query) {
                    return Err(
                        tensor_error(
                            "full attention cache has incompatible shape, dtype or device",
                        ),
                    );
                }
                c.key.dims[1]
            },
            None => 0,
        };
        Ok(
            AttentionStep {
                first_position: cached,
                end_position: cached + seq,
                key_len: cached + seq,
                groups: self.num_heads / self.num_kv_heads,
            },
        )
    }
}

/// What a step leaves behind is taken up by the next one, whose positions
/// follow on: a sequence that comes in parts has the positions of the whole.
pub proof fn steps_follow_on(
    attention: &FullAttention,
    cache: Option<&KvCache>,
    parts: (usize, usize),
    first: AttentionStep,
    left: &KvCache,
    query: &TensorInfo,
    next: AttentionStep,
    whole: AttentionStep,
)
    requires
        parts.0 + parts.1 <= usize::MAX,
        attention.lines_up(parts.0, cache, first),
        attention.extends(first, query, left),
        attention.lines_up(parts.1, Some(left), next),
        attention.lines_up((parts.0 + parts.1) as usize, cache, whole),
    ensures
        attention.cache_fits(left, query),
        next.first_position == first.end_position,
        next.end_position == whole.end_position,
        next.key_len == whole.key_len,
{
}

/// Whether attention is one kernel rather than its steps: half precision on
/// CUDA is, where CUDA kernels are part of the program. Both hide the same
/// keys.
pub fn attend_causally(query: &TensorInfo, cuda_built: bool) -> (kernel: bool)
    ensures
        kernel == (cuda_built && query.device == Device::Cuda && (query.dtype == DType::BF16
            || query.dtype == DType::F16)),
{
    cuda_built && query.device == Device::Cuda && (query.dtype == DType::BF16 || query.dtype
        == DType::F16)
}

/// The key at `col` lies ahead of the query at `row`, the queries being the
/// last `seq` of `key_seq` positions.
pub open spec fn ahead(seq: int, key_seq: int, row: int, col: int) -> bool {
    col > key_seq - seq + row
}

/// Which keys are hidden from which queries: those that lie ahead.
pub open spec fn causal(seq: int, key_seq: int) -> Seq<bool> {
    mask(|row: int, col: int| ahead(seq, key_seq, row, col), key_seq as nat, seq as nat)
}

/// Works out which keys are hidden from which queries.
pub fn causal_mask(seq: usize, key_seq: usize) -> (hidden: Vec<bool>)
    requires
        seq <= key_seq,
    ensures
        hidden@ == causal(seq as int, key_seq as int),
{
    let cached: usize = key_seq - seq;
    let ghost rule = |row: int, col: int| ahead(seq as int, key_seq as int, row, col);
    let mut hidden: Vec<bool> = Vec::new();
    let mut row: usize = 0;
    while row < seq
        invariant
            row <= seq <= key_seq,
            cached == key_seq - seq,
            rule == (|r: int, c: int| ahead(seq as int, key_seq as int, r, c)),
            hidden@ == mask(rule, key_seq as nat, row as nat),
        decreases seq - row,
    {
        let ghost before = hidden@;
        let ghost line = Seq::new(key_seq as nat, |col: int| rule(row as int, col));
        let mut col: usize = 0;
        while col < key_seq
            invariant
                row < seq <= key_seq,
                cached == key_seq - seq,
                col <= key_seq,
                rule == (|r: int, c: int| ahead(seq as int, key_seq as int, r, c)),
                line == Seq::new(key_seq as nat, |c: int| rule(row as int, c)),
                hidden@ == before + line.take(col as int),
            decreases key_seq - col,
        {
            hidden.push(col > cached + row);
            assert(hidden@ =~= before + line.take(col + 1));
            col += 1;
        }
        assert(line.take(key_seq as int) =~= line);
        row += 1;
    }
    hidden
}

/// Continuing from a cache hides exactly what one pass over the whole
/// sequence hides: row `row` behind `cached` positions is row `cached + row`
/// of the whole mask.
pub proof fn cached_masks_continue_the_whole(cached: int, seq: int, row: int, col: int)
    requires
        0 <= cached,
        0 <= row < seq,
        0 <= col < cached + seq,
    ensures
        ({
            let n = cached + seq;
            causal(seq, n)[row * n + col] == causal(n, n)[(cached + row) * n + col]
        }),
{
    let n = cached + seq;
    mask_at(|r: int, c: int| ahead(seq, n, r, c), n as nat, seq as nat, row, col);
    mask_at(|r: int, c: int| ahead(n, n, r, c), n as nat, n as nat, cached + row, col);
}

/// The key head that serves query head `head`, where `groups` query heads
/// share a key head: consecutive query heads share one.
pub open spec fn key_head(head: nat, groups: nat) -> nat
    recommends
        groups > 0,
{
    head / groups
}

/// Which key head serves each of `heads * groups` query heads.
pub fn repeat_kv(heads: usize, groups: usize) -> (sources: Vec<usize>)
    requires
        groups > 0,
        heads * groups <= usize::MAX,
    ensures
        sources@.len() == heads * groups,
        forall|h: int|
            0 <= h < sources@.len() ==> #[trigger] sources@[h] == key_head(h as nat, groups as nat),
{
    let total: usize = heads * groups;
    let mut sources: Vec<usize> = Vec::new();
    let mut h: usize = 0;
    while h < total
        invariant
            h <= total,
            groups > 0,
            sources.len() == h,
            forall|k: int|
                0 <= k < h ==> #[trigger] sources@[k] == key_head(k as nat, groups as nat),
        decreases total - h,
    {
        sources.push(h / groups);
        h += 1;
    }
    sources
}

/// Every key head serves its query heads one after the other, and none serves
/// one that is not there.
pub proof fn key_heads_serve_consecutively(heads: nat, groups: nat, head: nat, g: nat)
    requires
        groups > 0,
        head < heads,
        g < groups,
    ensures
        head * groups + g < heads * groups,
        key_head(head * groups + g, groups) == head,
{
    assert(head * groups + groups <= heads * groups) by (nonlinear_arith)
        requires
            head + 1 <= heads,
    ;
    vstd::arithmetic::div_mod::lemma_fundamental_div_mod_converse(
        (head * groups + g) as int,
        groups as int,
        head as int,
        g as int,
    );
    assert(head * groups == groups * head) by (nonlinear_arith);
}

/// Where a head's query and its output gate start among the columns of the
/// joint projection: each query is followed by its own output gate.
pub fn query_and_gate(head: usize, head_dim: usize) -> (starts: (usize, usize))
    requires
        (head + 1) * (2 * head_dim) <= usize::MAX,
    ensures
        starts.0 == head * (2 * head_dim),
        starts.1 == head * (2 * head_dim) + head_dim,
{
    proof {
        assert((head + 1) * (2 * head_dim) == head * (2 * head_dim) + 2 * head_dim)
            by (nonlinear_arith);
        assert(2 * head_dim <= usize::MAX) by (nonlinear_arith)
            requires
                head * (2 * head_dim) + 2 * head_dim <= usize::MAX,
                head >= 0,
                head_dim >= 0,
        ;
        assert(0 <= head * (2 * head_dim)) by (nonlinear_arith)
            requires
                head >= 0,
                head_dim >= 0,
        ;
    }
    let start: usize = head * (2 * head_dim);
    (start, start + head_dim)
}

/// The dimension that a rotated dimension is mixed with, and whether it enters
/// with its sign turned: the first half takes the second with a minus sign.
pub open spec fn rotary_partner(j: nat, rotary_dim: nat) -> (nat, bool) {
    if j < rotary_dim / 2 {
        (j + rotary_dim / 2, true)
    } else {
        ((j - rotary_dim / 2) as nat, false)
    }
}

/// Finds the dimension that a dimension is mixed with; dimensions behind the
/// rotated ones are left alone.
pub fn apply_rotary(j: usize, rotary_dim: usize) -> (partner: Option<(usize, bool)>)
    requires
        rotary_dim % 2 == 0,
    ensures
        match partner {
            Some(p) => {
                let expected = rotary_partner(j as nat, rotary_dim as nat);
                j < rotary_dim && p.0 == expected.0 && p.1 == expected.1 && p.0 < rotary_dim
            },
            None => j >= rotary_dim,
        },
{
    if j >= rotary_dim {
        return None;
    }
    let half: usize = rotary_dim / 2;
    if j < half {
        Some((j + half, true))
    } else {
        Some((j - half, false))
    }
}

/// Rotated dimensions are mixed in pairs, with opposite signs.
pub proof fn rotary_pairs(j: nat, rotary_dim: nat)
    requires
        rotary_dim % 2 == 0,
        j < rotary_dim,
    ensures
        ({
            let (p, minus) = rotary_partner(j, rotary_dim);
            &&& p < rotary_dim
            &&& p != j
            &&& rotary_partner(p, rotary_dim) == (j, !minus)
        }),
{
}

} // verus!
