//! What holds of an encoder: its weights, its windows, and the sequences that
//! it is run on.
use crate::batching::total;
use crate::modernbert::config::{is_local, layer_name, part_rows, Config, ModernBert};
use crate::modernbert::packing::{
    greatest, greatest_bounds, packable, packed_rows, padded_rows, positions, rows_of,
};
use crate::modernbert::window::{far, window_for};
use crate::text::decimal;
use vstd::prelude::*;

verus! {

/// Lengths add up: two runs of sequences are as long as both together, one
/// sequence has its own length, and none have no length.
pub proof fn lengths_add_up(lens: Seq<usize>, m: nat, n: nat)
    requires
        m + n <= lens.len(),
    ensures
        total(lens, 0) == 0,
        lens.len() > 0 ==> total(lens, 1) == lens[0],
        total(lens, m + n) == total(lens, m) + total(lens.skip(m as int), n),
    decreases n,
{
    reveal_with_fuel(total, 2);
    if n > 0 {
        lengths_add_up(lens, m, (n - 1) as nat);
        assert(lens.skip(m as int)[n - 1] == lens[m + n - 1]);
    }
}

/// The greatest length is one of the lengths, and none is above it.
pub proof fn the_greatest_length_is_a_length(lens: Seq<usize>)
    ensures
        lens.len() == 0 ==> greatest(lens, 0) == 0,
        forall|i: int| 0 <= i < lens.len() ==> #[trigger] lens[i] <= greatest(lens, lens.len()),
        lens.len() > 0 ==> exists|k: int|
            0 <= k < lens.len() && #[trigger] lens[k] == greatest(lens, lens.len()),
{
    assert forall|i: int| 0 <= i < lens.len() implies #[trigger] lens[i] <= greatest(
        lens,
        lens.len(),
    ) by {
        greatest_bounds(lens, lens.len(), i);
    }
    if lens.len() > 0 {
        greatest_bounds(lens, lens.len(), 0);
    }
}

/// Positions are near each other where neither lies more than the distance
/// before or behind the other.
pub proof fn near_positions_see_each_other(i: int, j: int, distance: int)
    ensures
        far(i, j, distance) <==> !(i - distance <= j <= i + distance),
{
}

/// No two of the first positions lie further apart than this.
pub open spec fn within_reach(longest: int, distance: int) -> bool {
    forall|i: int, j: int|
        0 <= i < longest && 0 <= j < longest ==> !#[trigger] far(i, j, distance)
}

/// A layer that looks at its neighbourhood has a window of half the size in
/// each direction, unless all positions are within reach of each other anyway.
/// Other layers have none.
pub proof fn windows_reach_half_the_size(uses_local: bool, longest: int, size: int)
    requires
        size >= 0,
        longest >= 1,
    ensures
        !uses_local ==> window_for(uses_local, longest, size) is None,
        window_for(uses_local, longest, size) matches Some(w) ==> w == size / 2,
        uses_local ==> (window_for(uses_local, longest, size) is None <==> within_reach(
            longest,
            size / 2,
        )),
{
    if uses_local && longest > size / 2 + 1 {
        assert(far(0, longest - 1, size / 2));
    }
}

/// The rows of a sequence start at its own row of the padded block and are as
/// many as it is long, but one at least.
pub proof fn padded_sequences_start_in_their_row(
    lens: Seq<usize>,
    batch: int,
    seq_len: int,
    b: int,
)
    requires
        packable(lens, batch, seq_len),
        0 <= b < lens.len(),
        batch * seq_len <= usize::MAX,
    ensures
        padded_rows(b, seq_len, lens[b]).start == b * seq_len,
        padded_rows(b, seq_len, lens[b]).end == b * seq_len + if lens[b] == 0 {
            1
        } else {
            lens[b] as int
        },
        padded_rows(b, seq_len, lens[b]).end <= (b + 1) * seq_len,
{
    assert(rows_of(lens[b]) <= seq_len);
    assert((b + 1) * seq_len == b * seq_len + seq_len) by (nonlinear_arith);
    assert((b + 1) * seq_len <= batch * seq_len) by (nonlinear_arith)
        requires
            b + 1 <= batch,
            seq_len >= 0,
    ;
    assert(0 <= b * seq_len) by (nonlinear_arith)
        requires
            0 <= b,
            0 <= seq_len,
    ;
}

/// Sequences can be packed where there are some, no more than the block has
/// rows for, and none longer than the block is wide.
pub proof fn sequences_that_can_be_packed(lens: Seq<usize>, batch: int, seq_len: int)
    ensures
        packable(lens, batch, seq_len) <==> {
            &&& 1 <= lens.len() <= batch
            &&& seq_len >= 1
            &&& forall|i: int| 0 <= i < lens.len() ==> #[trigger] lens[i] <= seq_len
        },
{
    if packable(lens, batch, seq_len) {
        assert(rows_of(lens[0]) <= seq_len);
        assert forall|i: int| 0 <= i < lens.len() implies #[trigger] lens[i] <= seq_len by {
            assert(rows_of(lens[i]) <= seq_len);
        }
    }
}

/// Packed rows stand where those of the sequences before end, and are filled
/// up to the width of the block.
pub proof fn packed_sequences_follow_each_other(lens: Seq<usize>, b: int, max_seq_len: int)
    requires
        0 <= b < lens.len(),
        total(lens, b as nat) + lens[b] < usize::MAX,
        0 <= max_seq_len <= usize::MAX,
    ensures
        packed_rows(lens, b, max_seq_len).rows.start == total(lens, b as nat),
        lens[b] > 0 ==> packed_rows(lens, b, max_seq_len).rows.end == total(
            lens,
            (b + 1) as nat,
        ),
        lens[b] <= max_seq_len ==> lens[b] + packed_rows(lens, b, max_seq_len).padding
            == max_seq_len,
{
}

/// Every further layer by this number looks at everything; the layers between
/// look at their neighbourhood alone.
pub proof fn some_layers_look_at_everything(model: &ModernBert, config: &Config, layer: int)
    requires
        model.follows(config),
        config.global_attn_every_n_layers > 0,
        0 <= layer < config.num_hidden_layers,
    ensures
        model.local@.len() == config.num_hidden_layers,
        !model.local@[layer] <==> exists|k: int|
            layer == #[trigger] (k * config.global_attn_every_n_layers),
        model.local_attention_size == config.local_attention,
{
    let every = config.global_attn_every_n_layers as int;
    assert(model.local@[layer] == is_local(layer, every));
    if layer % every == 0 {
        vstd::arithmetic::div_mod::lemma_fundamental_div_mod(layer, every);
        let k = layer / every;
        assert(every * k == k * every) by (nonlinear_arith);
        assert(layer == k * config.global_attn_every_n_layers);
    }
    if exists|k: int| layer == #[trigger] (k * config.global_attn_every_n_layers) {
        let k = choose|k: int| layer == #[trigger] (k * config.global_attn_every_n_layers);
        vstd::arithmetic::div_mod::lemma_mod_multiples_basic(k, every);
    }
}

/// A weight of an encoder with its shape.
pub open spec fn weighs(
    found: (Seq<char>, Seq<usize>, bool),
    name: Seq<char>,
    dims: Seq<usize>,
    optional: bool,
) -> bool {
    found.0 == name && found.1 == dims && found.2 == optional
}

proof fn weights_are_counted(config: &Config, n: nat)
    ensures
        config.weights_up_to(n).len() == 2 + 6 * n,
    decreases n,
{
    if n > 0 {
        weights_are_counted(config, (n - 1) as nat);
    }
}

proof fn weights_stay(config: &Config, m: nat, n: nat, i: int)
    requires
        m <= n,
        0 <= i < config.weights_up_to(m).len(),
    ensures
        i < config.weights_up_to(n).len(),
        config.weights_up_to(n)[i] == config.weights_up_to(m)[i],
    decreases n,
{
    if m < n {
        weights_stay(config, m, (n - 1) as nat, i);
    }
}

/// An encoder fetches its embeddings and their norm, then six weights for each
/// layer under the layer's own number, then the last norm. Query, key and
/// value share one weight, the activation and its gate another; a layer may do
/// without the norm in front of its attention, and without nothing else.
pub proof fn encoders_fetch_their_weights(config: &Config, layer: nat)
    requires
        config.usable(),
        layer < config.num_hidden_layers,
    ensures
        ({
            let all = config.weights();
            let at = 2 + 6 * layer as int;
            let h = config.hidden_size;
            let name = "layers."@ + decimal(layer);
            &&& all.len() == 3 + 6 * config.num_hidden_layers
            &&& weighs(
                all[0],
                "embeddings.tok_embeddings.weight"@,
                seq![config.vocab_size, h],
                false,
            )
            &&& weighs(all[1], "embeddings.norm.weight"@, seq![h], false)
            &&& weighs(all[at], name + ".attn.Wqkv.weight"@, seq![(h + h + h) as usize, h], false)
            &&& weighs(all[at + 1], name + ".attn.Wo.weight"@, seq![h, h], false)
            &&& weighs(
                all[at + 2],
                name + ".mlp.Wi.weight"@,
                seq![(config.intermediate_size + config.intermediate_size) as usize, h],
                false,
            )
            &&& weighs(
                all[at + 3],
                name + ".mlp.Wo.weight"@,
                seq![h, config.intermediate_size],
                false,
            )
            &&& weighs(all[at + 4], name + ".attn_norm.weight"@, seq![h], true)
            &&& weighs(all[at + 5], name + ".mlp_norm.weight"@, seq![h], false)
            &&& weighs(all.last(), "final_norm.weight"@, seq![h], false)
        }),
{
    let n = config.num_hidden_layers as nat;
    let upto = config.weights_up_to(n);
    let all = config.weights();
    let at = 2 + 6 * layer as int;
    weights_are_counted(config, n);
    weights_are_counted(config, 0);
    weights_are_counted(config, layer);
    weights_are_counted(config, layer + 1);
    weights_stay(config, 0, n, 0);
    weights_stay(config, 0, n, 1);
    let own = config.layer_weights(layer);
    let part = config.weights_up_to(layer + 1);
    assert(part == config.weights_up_to(layer) + own);
    assert forall|k: int| 0 <= k < 6 implies all[at + k] == #[trigger] own[k] by {
        weights_stay(config, layer + 1, n, at + k);
        assert(part[at + k] == own[k]);
    }
    assert(all[at + 0] == own[0]);
    assert(all[at + 1] == own[1]);
    assert(all[at + 2] == own[2]);
    assert(all[at + 3] == own[3]);
    assert(all[at + 4] == own[4]);
    assert(all[at + 5] == own[5]);
    assert(layer_name(layer) == "layers."@ + decimal(layer));
}

/// Part `i` of a shared weight starts behind `i` parts of its size.
pub proof fn parts_stand_in_order(size: int, parts: int, i: int)
    requires
        size >= 0,
        0 <= i < parts,
        parts * size <= usize::MAX,
    ensures
        part_rows(size, i).start == i * size,
        part_rows(size, i).end == (i + 1) * size,
{
    assert(0 <= i * size) by (nonlinear_arith)
        requires
            i >= 0,
            size >= 0,
    ;
    assert((i + 1) * size == i * size + size) by (nonlinear_arith);
    assert((i + 1) * size <= parts * size) by (nonlinear_arith)
        requires
            i + 1 <= parts,
            size >= 0,
    ;
}

/// Heads share the width of an encoder out evenly, where it can be.
pub proof fn encoder_heads_share_the_width(model: &ModernBert, config: &Config)
    requires
        model.follows(config),
        config.num_attention_heads > 0,
        config.hidden_size as int % config.num_attention_heads as int == 0,
    ensures
        model.head_size * config.num_attention_heads == config.hidden_size,
{
    vstd::arithmetic::div_mod::lemma_fundamental_div_mod(
        config.hidden_size as int,
        config.num_attention_heads as int,
    );
    assert(model.head_size * config.num_attention_heads == config.num_attention_heads
        * model.head_size) by (nonlinear_arith);
}

} // verus!
