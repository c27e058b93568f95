//! What holds of the text decoder's settings, of what it is run on, and of how
//! it mixes tokens.
use crate::cua_s1::attention::{
    ahead, causal, key_head, rotary_partner, AttentionStep, FullAttention, KvCache,
};
use crate::cua_s1::config::{LayerType, TextConfig};
use crate::cua_s1::delta_net::{
    convolution_failure, recurrence_failure, tap_position, GatedDeltaNet,
};
use crate::cua_s1::model::{lists_layer, PrefixState, Readout, TextModel, WeightUse};
use crate::cua_s1::prompt::InputView;
use crate::error::Failure;
use crate::masks::{mask_at, mask_len};
use crate::tensor::TensorInfo;
use crate::text::decimal;
use vstd::prelude::*;

verus! {

/// A decoder can be run where it has a type for every layer, gates its
/// attention, ties its embeddings wherever that is said, and shares its heads
/// out evenly.
pub proof fn settings_that_can_be_run(config: &TextConfig, tied: bool)
    ensures
        config.failure(tied) is None <==> {
            &&& config.layer_types@.len() == config.num_hidden_layers
            &&& config.attn_output_gate
            &&& tied
            &&& config.tie_word_embeddings
            &&& config.num_attention_heads >= 1
            &&& config.num_key_value_heads >= 1
            &&& config.num_attention_heads as int % config.num_key_value_heads as int == 0
            &&& config.linear_num_value_heads >= 1
            &&& config.linear_num_key_heads >= 1
            &&& config.linear_num_value_heads as int % config.linear_num_key_heads as int == 0
        },
        config.layer_types@.len() == config.num_hidden_layers && !config.attn_output_gate
            ==> config.failure(tied) == Some(
            Failure::Config("Qwen3.5 text decoder requires attn_output_gate=true"@),
        ),
        config.layer_types@.len() == config.num_hidden_layers && config.attn_output_gate && !(tied
            && config.tie_word_embeddings) ==> config.failure(tied) == Some(
            Failure::Config(
                "Qwen3.5 requires tie_word_embeddings=true in both config and text_config"@,
            ),
        ),
{
}

/// The weights of a layer behind its name.
pub open spec fn fetched(kind: LayerType) -> Seq<Seq<char>> {
    if kind == LayerType::FullAttention {
        seq![
            ".self_attn.q_proj.weight"@,
            ".self_attn.k_proj.weight"@,
            ".self_attn.v_proj.weight"@,
            ".self_attn.o_proj.weight"@,
            ".self_attn.q_norm.weight"@,
            ".self_attn.k_norm.weight"@,
            ".mlp.gate_proj.weight"@,
            ".mlp.up_proj.weight"@,
            ".mlp.down_proj.weight"@,
            ".input_layernorm.weight"@,
            ".post_attention_layernorm.weight"@,
        ]
    } else {
        seq![
            ".linear_attn.in_proj_qkv.weight"@,
            ".linear_attn.conv1d.weight"@,
            ".linear_attn.in_proj_z.weight"@,
            ".linear_attn.in_proj_b.weight"@,
            ".linear_attn.in_proj_a.weight"@,
            ".linear_attn.out_proj.weight"@,
            ".linear_attn.A_log"@,
            ".linear_attn.dt_bias"@,
            ".linear_attn.norm.weight"@,
            ".mlp.gate_proj.weight"@,
            ".mlp.up_proj.weight"@,
            ".mlp.down_proj.weight"@,
            ".input_layernorm.weight"@,
            ".post_attention_layernorm.weight"@,
        ]
    }
}

/// Which of these are projections, that an adapter may change.
pub open spec fn projects(kind: LayerType, i: int) -> bool {
    if kind == LayerType::FullAttention {
        0 <= i < 4 || 6 <= i < 9
    } else {
        i == 0 || 2 <= i < 6 || 9 <= i < 12
    }
}

/// A layer fetches its own weights, under its own number, in this order; the
/// projections, and only these, may be changed by an adapter.
pub proof fn layers_fetch_their_own_weights(
    uses: Seq<WeightUse>,
    layer: nat,
    kind: LayerType,
    i: int,
)
    requires
        lists_layer(uses, layer, kind),
        0 <= i < uses.len(),
    ensures
        uses.len() == fetched(kind).len(),
        uses[i].name@ == "model.language_model.layers."@ + decimal(layer) + fetched(kind)[i],
        uses[i].linear == projects(kind, i),
{
    let parts = crate::cua_s1::model::layer_parts(kind);
    assert(uses[i].name@ == crate::cua_s1::model::layer_name(layer) + parts[i].0);
}

/// A decoder is loaded with a type for every layer, tied embeddings, and an
/// embedding of the hidden width for every token.
pub proof fn decoders_fit_their_embeddings(config: &TextConfig, embeddings: Seq<usize>)
    ensures
        TextModel::load_failure(config, embeddings) is None <==> {
            &&& config.num_hidden_layers >= 1
            &&& config.layer_types@.len() == config.num_hidden_layers
            &&& config.tie_word_embeddings
            &&& embeddings.len() == 2
            &&& embeddings[0] == config.vocab_size
            &&& embeddings[1] == config.hidden_size
        },
{
    if embeddings.len() == 2 && embeddings[0] == config.vocab_size && embeddings[1]
        == config.hidden_size {
        assert(embeddings =~= seq![config.vocab_size, config.hidden_size]);
    }
}

/// The decoder is run on a prompt with at least one token and one to
/// twenty-six letters, each with its token, all of them in the vocabulary.
/// Every letter is scored behind the last token of the prompt.
pub proof fn letters_are_scored_behind_the_prompt(
    model: &TextModel,
    input: InputView,
    readout: &Readout,
)
    requires
        readout.reads(input.input_ids, input.letter_ids),
    ensures
        model.input_failure(input) is None <==> {
            &&& input.input_ids.len() >= 1
            &&& 1 <= input.letter_ids.len() <= 26
            &&& input.letters.len() == input.letter_ids.len()
            &&& forall|i: int|
                0 <= i < input.input_ids.len() ==> (#[trigger] input.input_ids[i])
                    < model.vocab_size
            &&& forall|i: int|
                0 <= i < input.letter_ids.len() ==> (#[trigger] input.letter_ids[i])
                    < model.vocab_size
        },
        readout.ids@ == input.input_ids,
        readout.row + 1 == input.input_ids.len(),
        readout.letter_ids@ == input.letter_ids,
{
}

/// A prefix can be continued where the decoder has a state of the right kind
/// for every layer, and the suffix and the letters are in order.
pub proof fn prefixes_are_continued_layer_by_layer(
    model: &TextModel,
    prefix: &PrefixState,
    suffix: Seq<u32>,
    letters: Seq<u32>,
)
    ensures
        model.suffix_failure(prefix, suffix, letters) is None <==> {
            &&& prefix.layer_states@ == model.layers@
            &&& 1 <= letters.len() <= 26
            &&& suffix.len() >= 1
            &&& forall|i: int| 0 <= i < letters.len() ==> (#[trigger] letters[i]) < model.vocab_size
            &&& forall|i: int| 0 <= i < suffix.len() ==> (#[trigger] suffix[i]) < model.vocab_size
        },
{
    let n = model.layers@.len();
    if prefix.layer_states@.len() == n {
        states_fit_where_equal(model.layers@, prefix.layer_states@, n);
        if TextModel::states_failure(model.layers@, prefix.layer_states@, n) is None {
            assert(prefix.layer_states@ =~= model.layers@);
        }
    }
}

proof fn states_fit_where_equal(kinds: Seq<LayerType>, states: Seq<LayerType>, n: nat)
    requires
        n <= kinds.len(),
        n <= states.len(),
    ensures
        TextModel::states_failure(kinds, states, n) is None <==> forall|i: int|
            0 <= i < n ==> #[trigger] kinds[i] == states[i],
    decreases n,
{
    if n > 0 {
        states_fit_where_equal(kinds, states, (n - 1) as nat);
    }
}

/// Two operands are on the same device.
pub open spec fn together(a: &TensorInfo, b: &TensorInfo) -> bool {
    a.device == b.device && a.device_id == b.device_id
}

/// A cache can be continued from where it holds, for every key head of the
/// layer, keys and values of the layer's width, as its queries are laid out.
pub proof fn caches_fit_their_layer(attention: &FullAttention, cache: &KvCache, query: &TensorInfo)
    ensures
        attention.cache_fits(cache, query) <==> {
            &&& cache.key.dims@.len() == 3
            &&& cache.value.dims@ == cache.key.dims@
            &&& cache.key.dims@[0] == attention.num_kv_heads
            &&& cache.key.dims@[2] == attention.head_dim
            &&& cache.key.dtype == query.dtype
            &&& cache.value.dtype == query.dtype
            &&& together(&cache.key, query)
            &&& together(&cache.value, query)
        },
{
}

/// A step takes up where the cache ends and leaves as many keys as there are
/// positions by then; every key head serves as many query heads.
pub proof fn steps_take_up_where_the_cache_ends(
    attention: &FullAttention,
    seq: usize,
    cache: Option<&KvCache>,
    step: AttentionStep,
)
    requires
        attention.lines_up(seq, cache, step),
        attention.num_kv_heads > 0,
        attention.num_heads as int % attention.num_kv_heads as int == 0,
    ensures
        cache is None ==> step.first_position == 0,
        cache matches Some(c) ==> step.first_position == c.key.dims@[1],
        step.end_position == step.first_position + seq,
        step.key_len == step.end_position,
        step.groups * attention.num_kv_heads == attention.num_heads,
{
    vstd::arithmetic::div_mod::lemma_fundamental_div_mod(
        attention.num_heads as int,
        attention.num_kv_heads as int,
    );
    assert(step.groups * attention.num_kv_heads == attention.num_kv_heads * step.groups)
        by (nonlinear_arith);
}

/// A query sees the keys of its own position and of every position before it,
/// and none that lies ahead.
pub proof fn queries_see_no_key_ahead(seq: int, key_seq: int, row: int, col: int)
    requires
        0 <= row < seq <= key_seq,
        0 <= col < key_seq,
    ensures
        ({
            let position = key_seq - seq + row;
            &&& 0 <= row * key_seq + col < causal(seq, key_seq).len()
            &&& causal(seq, key_seq).len() == seq * key_seq
            &&& causal(seq, key_seq)[row * key_seq + col] == (col > position)
        }),
{
    mask_at(|r: int, c: int| ahead(seq, key_seq, r, c), key_seq as nat, seq as nat, row, col);
    mask_len(|r: int, c: int| ahead(seq, key_seq, r, c), key_seq as nat, seq as nat);
    assert(0 <= row * key_seq) by (nonlinear_arith)
        requires
            0 <= row,
            0 <= key_seq,
    ;
    assert(row * key_seq + key_seq <= seq * key_seq) by (nonlinear_arith)
        requires
            row + 1 <= seq,
            0 <= key_seq,
    ;
}

/// Dimension `j` of the first half is turned by the one as far into the second
/// half, with its sign turned, and the other way round without.
pub proof fn halves_turn_each_other(j: nat, rotary_dim: nat)
    requires
        rotary_dim % 2 == 0,
        2 * j < rotary_dim,
    ensures
        rotary_partner(j, rotary_dim) == ((j + rotary_dim / 2) as nat, true),
        rotary_partner((j + rotary_dim / 2) as nat, rotary_dim) == (j, false),
{
}

/// A full-attention layer is loaded where the settings say it is one, and an
/// even part of its heads is rotated.
pub proof fn full_layers_are_loaded(config: &TextConfig, layer: usize, rotary_dim: usize)
    ensures
        FullAttention::load_failure(config, layer, rotary_dim) is None <==> {
            &&& layer < config.layer_types@.len()
            &&& config.layer_types@[layer as int] == LayerType::FullAttention
            &&& 2 <= rotary_dim <= config.head_dim
            &&& rotary_dim % 2 == 0
        },
{
}

/// A delta-rule layer is loaded where the settings say it is one, all its
/// sizes are positive, its value heads are shared out evenly, and its
/// convolution has a row of taps for every query, key and value channel.
pub proof fn delta_layers_are_loaded(config: &TextConfig, layer: usize, conv: Seq<usize>)
    ensures
        GatedDeltaNet::load_failure(config, layer, conv) is None <==> {
            &&& layer < config.layer_types@.len()
            &&& config.layer_types@[layer as int] == LayerType::LinearAttention
            &&& config.linear_num_key_heads >= 1
            &&& config.linear_num_value_heads >= 1
            &&& config.linear_num_value_heads as int % config.linear_num_key_heads as int == 0
            &&& config.linear_key_head_dim >= 1
            &&& config.linear_value_head_dim >= 1
            &&& config.linear_conv_kernel_dim >= 1
            &&& conv.len() == 3
            &&& conv[0] == config.linear_num_key_heads * config.linear_key_head_dim
                + config.linear_num_key_heads * config.linear_key_head_dim
                + config.linear_num_value_heads * config.linear_value_head_dim
            &&& conv[1] == 1
            &&& conv[2] == config.linear_conv_kernel_dim
        },
{
    let k = config.linear_num_key_heads as nat;
    let d = config.linear_key_head_dim as nat;
    assert(2 * k * d == k * d + k * d) by (nonlinear_arith);
}

/// The last tap reads the position itself, and each tap before it the position
/// before: as many positions back as there are taps behind it.
pub proof fn taps_read_back(t: int, back: int, kernel: int)
    requires
        0 <= back < kernel,
    ensures
        tap_position(t, kernel - 1 - back, kernel) == t - back,
{
}

/// A convolution takes a row of taps for each channel, and a recurrence takes
/// queries and keys of one shape, values for the same heads, and two gates for
/// each of them.
pub proof fn operands_of_the_delta_rule_match(
    x: Seq<usize>,
    weight: Seq<usize>,
    query: Seq<usize>,
    key: Seq<usize>,
    value: Seq<usize>,
    beta: Seq<usize>,
    decay: Seq<usize>,
)
    ensures
        convolution_failure(x, weight) is None <==> {
            &&& x.len() == 2
            &&& weight.len() == 3
            &&& weight[0] == x[1]
            &&& weight[1] == 1
            &&& weight[2] >= 1
        },
        recurrence_failure(query, key, value, beta, decay) is None <==> {
            &&& query.len() == 3
            &&& key == query
            &&& value.len() == 3
            &&& value[0] == query[0]
            &&& value[1] == query[1]
            &&& beta.len() == 2
            &&& beta[0] == query[0]
            &&& beta[1] == query[1]
            &&& decay == beta
        },
{
    if query.len() == 3 && beta.len() == 2 && beta[0] == query[0] && beta[1] == query[1] {
        assert(beta =~= seq![query[0], query[1]]);
    }
}

/// Consecutive query heads share a key head.
pub proof fn query_heads_share_key_heads(head: nat, groups: nat)
    requires
        groups > 0,
    ensures
        key_head(head, groups) * groups <= head,
        head < (key_head(head, groups) + 1) * groups,
{
    let k = key_head(head, groups);
    vstd::arithmetic::div_mod::lemma_fundamental_div_mod(head as int, groups as int);
    vstd::arithmetic::div_mod::lemma_mod_bound(head as int, groups as int);
    assert(k * groups == groups * k) by (nonlinear_arith);
    assert((k + 1) * groups == k * groups + groups) by (nonlinear_arith);
}

} // verus!
