//! The text decoder: which weights it needs, and what it can be run on.
use crate::cua_s1::config::{LayerType, TextConfig};
use crate::cua_s1::prompt::{CuaS1Input, InputView};
use crate::error::{config_error, tensor_error, Failure, SystemOneError};
use crate::score::Float;
use crate::text::{decimal, decimal_text};
use vstd::prelude::*;
use vstd::string::StringExecFns;

verus! {

/// A weight that is fetched, and whether an adapter may change it.
#[derive(Debug)]
pub struct WeightUse {
    pub name: String,
    pub linear: bool,
}

/// The weights of a layer's mixer behind the layer's name, in the order they
/// are fetched.
pub open spec fn mixer_weights(kind: LayerType) -> Seq<(Seq<char>, bool)> {
    match kind {
        LayerType::FullAttention => seq![
            (".self_attn.q_proj.weight"@, true),
            (".self_attn.k_proj.weight"@, true),
            (".self_attn.v_proj.weight"@, true),
            (".self_attn.o_proj.weight"@, true),
            (".self_attn.q_norm.weight"@, false),
            (".self_attn.k_norm.weight"@, false),
        ],
        LayerType::LinearAttention => seq![
            (".linear_attn.in_proj_qkv.weight"@, true),
            (".linear_attn.conv1d.weight"@, false),
            (".linear_attn.in_proj_z.weight"@, true),
            (".linear_attn.in_proj_b.weight"@, true),
            (".linear_attn.in_proj_a.weight"@, true),
            (".linear_attn.out_proj.weight"@, true),
            (".linear_attn.A_log"@, false),
            (".linear_attn.dt_bias"@, false),
            (".linear_attn.norm.weight"@, false),
        ],
    }
}

/// The weights of a layer behind its name, in the order they are fetched.
pub open spec fn layer_parts(kind: LayerType) -> Seq<(Seq<char>, bool)> {
    mixer_weights(kind) + seq![
        (".mlp.gate_proj.weight"@, true),
        (".mlp.up_proj.weight"@, true),
        (".mlp.down_proj.weight"@, true),
        (".input_layernorm.weight"@, false),
        (".post_attention_layernorm.weight"@, false),
    ]
}

/// The name of a layer.
pub open spec fn layer_name(layer: nat) -> Seq<char> {
    "model.language_model.layers."@ + decimal(layer)
}

/// The weights that were listed are those of the layer.
pub open spec fn lists_layer(uses: Seq<WeightUse>, layer: nat, kind: LayerType) -> bool {
    &&& uses.len() == layer_parts(kind).len()
    &&& forall|i: int|
        0 <= i < uses.len() ==> (#[trigger] uses[i]).name@ == layer_name(layer) + layer_parts(
            kind,
        )[i].0 && uses[i].linear == layer_parts(kind)[i].1
}

/// Lists the parts of a layer.
fn list_parts(kind: LayerType) -> (parts: Vec<(&'static str, bool)>)
    ensures
        parts@.map_values(|p: (&'static str, bool)| (p.0@, p.1)) == layer_parts(kind),
{
    let mut parts: Vec<(&'static str, bool)> = match kind {
        LayerType::FullAttention => vec![
            (".self_attn.q_proj.weight", true),
            (".self_attn.k_proj.weight", true),
            (".self_attn.v_proj.weight", true),
            (".self_attn.o_proj.weight", true),
            (".self_attn.q_norm.weight", false),
            (".self_attn.k_norm.weight", false),
        ],
        LayerType::LinearAttention => vec![
            (".linear_attn.in_proj_qkv.weight", true),
            (".linear_attn.conv1d.weight", false),
            (".linear_attn.in_proj_z.weight", true),
            (".linear_attn.in_proj_b.weight", true),
            (".linear_attn.in_proj_a.weight", true),
            (".linear_attn.out_proj.weight", true),
            (".linear_attn.A_log", false),
            (".linear_attn.dt_bias", false),
            (".linear_attn.norm.weight", false),
        ],
    };
    parts.push((".mlp.gate_proj.weight", true));
    parts.push((".mlp.up_proj.weight", true));
    parts.push((".mlp.down_proj.weight", true));
    parts.push((".input_layernorm.weight", false));
    parts.push((".post_attention_layernorm.weight", false));
    assert(parts@.map_values(|p: (&'static str, bool)| (p.0@, p.1)) =~= layer_parts(kind));
    parts
}

/// Lists the weights of a layer, in the order they are fetched.
pub fn layer_weights(layer: usize, kind: LayerType) -> (uses: Vec<WeightUse>)
    ensures
        lists_layer(uses@, layer as nat, kind),
{
    let parts = list_parts(kind);
    let ghost all = parts@.map_values(|p: (&'static str, bool)| (p.0@, p.1));
    let mut uses: Vec<WeightUse> = Vec::new();
    let mut i: usize = 0;
    while i < parts.len()
        invariant
            i <= parts.len(),
            all == parts@.map_values(|p: (&'static str, bool)| (p.0@, p.1)),
            uses.len() == i,
            forall|k: int|
                0 <= k < i ==> (#[trigger] uses@[k]).name@ == layer_name(layer as nat) + all[k].0
                    && uses@[k].linear == all[k].1,
        decreases parts.len() - i,
    {
        let mut name = "model.language_model.layers.".to_owned();
        name.append(decimal_text(layer).as_str());
        name.append(parts[i].0);
        assert(all[i as int] == (parts@[i as int].0@, parts@[i as int].1));
        uses.push(WeightUse { name, linear: parts[i].1 });
        i += 1;
    }
    uses
}

/// The state that a layer keeps of a prefix, layer after layer, and how many
/// tokens the prefix has.
#[derive(Debug)]
pub struct PrefixState {
    pub layer_states: Vec<LayerType>,
    pub token_count: usize,
}

impl PrefixState {
    /// How many tokens the prefix has.
    pub fn token_count(&self) -> (count: usize)
        ensures
            count == self.token_count,
    {
        self.token_count
    }
}

/// The decoder's shape.
#[derive(Debug)]
pub struct TextModel {
    pub vocab_size: usize,
    pub layers: Vec<LayerType>,
}

/// The letters' scores and their probabilities among the letters, both in the
/// order of the options.
#[derive(Debug)]
pub struct CuaS1Prediction {
    pub logits: Vec<Float>,
    pub probabilities: Vec<Float>,
}

/// What the decoder is run on, and what is read off.
#[derive(Debug)]
pub struct Readout {
    /// The embeddings that are taken up, by id.
    pub ids: Vec<u32>,
    /// The row behind the last layer that is read: that of the last id.
    pub row: usize,
    /// The embeddings that this row is held against. No other token is
    /// scored.
    pub letter_ids: Vec<u32>,
}

impl Readout {
    /// The letters are scored behind the last of these ids.
    pub open spec fn reads(&self, ids: Seq<u32>, letters: Seq<u32>) -> bool {
        &&& self.ids@ == ids
        &&& self.row == ids.len() - 1
        &&& self.letter_ids@ == letters
    }
}

fn copy_ids(ids: &[u32]) -> (copy: Vec<u32>)
    ensures
        copy@ == ids@,
{
    let mut copy: Vec<u32> = Vec::new();
    let mut i: usize = 0;
    while i < ids.len()
        invariant
            i <= ids.len(),
            copy@ == ids@.take(i as int),
        decreases ids.len() - i,
    {
        copy.push(ids[i]);
        assert(copy@ =~= ids@.take(i + 1));
        i += 1;
    }
    assert(ids@.take(ids@.len() as int) =~= ids@);
    copy
}

/// Every id is in the vocabulary.
pub open spec fn all_known(ids: Seq<u32>, vocab_size: usize) -> bool {
    forall|i: int| 0 <= i < ids.len() ==> #[trigger] ids[i] < vocab_size
}

/// Whether every id is in the vocabulary.
fn are_known(ids: &[u32], vocab_size: usize) -> (yes: bool)
    ensures
        yes == all_known(ids@, vocab_size),
{
    let mut i: usize = 0;
    while i < ids.len()
        invariant
            i <= ids.len(),
            forall|k: int| 0 <= k < i ==> #[trigger] ids@[k] < vocab_size,
        decreases ids.len() - i,
    {
        if ids[i] as usize >= vocab_size {
            assert(ids@[i as int] >= vocab_size);
            return false;
        }
        i += 1;
    }
    true
}

impl TextModel {
    /// Why a decoder with these settings and embeddings cannot be loaded.
    pub open spec fn load_failure(config: &TextConfig, embeddings: Seq<usize>) -> Option<Failure> {
        if config.num_hidden_layers == 0 || config.layer_types@.len() != config.num_hidden_layers
            || !config.tie_word_embeddings {
            Some(
                Failure::Config(
                    "text decoder requires tied embeddings and one mixer type per layer"@,
                ),
            )
        } else if embeddings != seq![config.vocab_size, config.hidden_size] {
            Some(Failure::Config("embedding dimensions do not match the text config"@))
        } else {
            None
        }
    }

    /// Accepts the settings of a decoder, looked at before its embeddings
    /// are.
    pub fn check_config(config: &TextConfig) -> (result: Result<(), SystemOneError>)
        ensures
            result is Ok <==> !(config.num_hidden_layers == 0 || config.layer_types@.len()
                != config.num_hidden_layers || !config.tie_word_embeddings),
            result matches Err(e) ==> e@ == Failure::Config(
                "text decoder requires tied embeddings and one mixer type per layer"@,
            ),
    {
        if config.num_hidden_layers == 0 || config.layer_types.len() != config.num_hidden_layers
            || !config.tie_word_embeddings {
            return Err(
                config_error("text decoder requires tied embeddings and one mixer type per layer"),
            );
        }
        Ok(())
    }

    /// Takes up a decoder with these settings and embeddings of this shape.
    pub fn load(config: &TextConfig, embeddings: &Vec<usize>) -> (result: Result<
        Self,
        SystemOneError,
    >)
        ensures
            match result {
                Ok(model) => {
                    &&& Self::load_failure(config, embeddings@) is None
                    &&& model.vocab_size == config.vocab_size
                    &&& model.layers@ == config.layer_types@
                },
                Err(e) => Self::load_failure(config, embeddings@) == Some(e@),
            },
    {
        match Self::check_config(config) {
            Ok(_) => {},
            Err(e) => {
                return Err(e);
            },
        }
        let fits = embeddings.len() == 2 && embeddings[0] == config.vocab_size && embeddings[1]
            == config.hidden_size;
        assert(fits ==> embeddings@ =~= seq![config.vocab_size, config.hidden_size]);
        if !fits {
            return Err(config_error("embedding dimensions do not match the text config"));
        }
        let layers = copy_layers(&config.layer_types);
        Ok(TextModel { vocab_size: config.vocab_size, layers })
    }

    /// Why the decoder cannot be run on an input.
    pub open spec fn input_failure(&self, input: InputView) -> Option<Failure> {
        if input.input_ids.len() == 0 || !(1 <= input.letter_ids.len() <= 26)
            || input.letters.len() != input.letter_ids.len() {
            Some(
                Failure::Config(
                    "text decoder requires a nonempty prompt and 1..=26 matching letters and token ids"@,
                ),
            )
        } else if !all_known(input.input_ids, self.vocab_size) || !all_known(
            input.letter_ids,
            self.vocab_size,
        ) {
            Some(
                Failure::Config("text decoder token id is outside the embedding vocabulary"@),
            )
        } else {
            None
        }
    }

    /// Lays out how an input's letters are scored at its last position.
    pub fn forward(&self, input: &CuaS1Input) -> (result: Result<Readout, SystemOneError>)
        ensures
            match result {
                Ok(readout) => self.input_failure(input@) is None && readout.reads(
                    input@.input_ids,
                    input@.letter_ids,
                ),
                Err(e) => self.input_failure(input@) == Some(e@),
            },
    {
        if input.input_ids.len() == 0 || input.letter_ids.len() < 1 || input.letter_ids.len() > 26
            || input.letters.len() != input.letter_ids.len() {
            return Err(
                config_error(
                    "text decoder requires a nonempty prompt and 1..=26 matching letters and token ids",
                ),
            );
        }
        if !are_known(input.input_ids.as_slice(), self.vocab_size) || !are_known(
            input.letter_ids.as_slice(),
            self.vocab_size,
        ) {
            return Err(
                config_error("text decoder token id is outside the embedding vocabulary"),
            );
        }
        Ok(
            Readout {
                ids: copy_ids(input.input_ids.as_slice()),
                row: input.input_ids.len() - 1,
                letter_ids: copy_ids(input.letter_ids.as_slice()),
            },
        )
    }

    /// Why a token sequence cannot be embedded.
    pub open spec fn embed_failure(&self, ids: Seq<u32>) -> Option<Failure> {
        if ids.len() == 0 {
            Some(Failure::Config("text decoder requires a nonempty token sequence"@))
        } else if !all_known(ids, self.vocab_size) {
            Some(Failure::Config("text decoder token id is outside the embedding vocabulary"@))
        } else {
            None
        }
    }

    /// Accepts a token sequence that can be embedded.
    pub fn embed(&self, ids: &[u32]) -> (result: Result<(), SystemOneError>)
        ensures
            match result {
                Ok(_) => self.embed_failure(ids@) is None,
                Err(e) => self.embed_failure(ids@) == Some(e@),
            },
    {
        if ids.len() == 0 {
            return Err(config_error("text decoder requires a nonempty token sequence"));
        }
        if !are_known(ids, self.vocab_size) {
            return Err(
                config_error("text decoder token id is outside the embedding vocabulary"),
            );
        }
        Ok(())
    }

    /// The state that the decoder keeps of a prefix: one per layer, of the
    /// layer's kind.
    pub fn encode_prefix(&self, ids: &[u32]) -> (result: Result<PrefixState, SystemOneError>)
        ensures
            match result {
                Ok(prefix) => {
                    &&& self.embed_failure(ids@) is None
                    &&& prefix.layer_states@ == self.layers@
                    &&& prefix.token_count == ids@.len()
                },
                Err(e) => self.embed_failure(ids@) == Some(e@),
            },
    {
        match self.embed(ids) {
            Ok(_) => {},
            Err(e) => {
                return Err(e);
            },
        }
        Ok(PrefixState { layer_states: copy_layers(&self.layers), token_count: ids.len() })
    }

    /// Why the state of a layer cannot be continued from.
    pub open spec fn state_failure(kind: LayerType, state: LayerType) -> Option<Failure> {
        if kind == state {
            None
        } else if kind == LayerType::LinearAttention {
            Some(Failure::Candle("expected DeltaNet prefix state"@))
        } else {
            Some(Failure::Candle("expected full-attention prefix cache"@))
        }
    }

    /// The first layer whose state cannot be continued from decides.
    pub open spec fn states_failure(kinds: Seq<LayerType>, states: Seq<LayerType>, n: nat) -> Option<
        Failure,
    >
        decreases n,
    {
        if n == 0 {
            None
        } else {
            let before = Self::states_failure(kinds, states, (n - 1) as nat);
            if before is Some {
                before
            } else {
                Self::state_failure(kinds[n - 1], states[n - 1])
            }
        }
    }

    /// Why letters cannot be scored behind a prefix and a suffix.
    pub open spec fn suffix_failure(
        &self,
        prefix: &PrefixState,
        suffix: Seq<u32>,
        letters: Seq<u32>,
    ) -> Option<Failure> {
        if prefix.layer_states@.len() != self.layers@.len() {
            Some(Failure::Config("prefix state must contain one state per decoder layer"@))
        } else if !(1 <= letters.len() <= 26) {
            Some(Failure::Config("text decoder requires 1..=26 letter token ids"@))
        } else if !all_known(letters, self.vocab_size) {
            Some(Failure::Config("text decoder token id is outside the embedding vocabulary"@))
        } else if self.embed_failure(suffix) is Some {
            self.embed_failure(suffix)
        } else {
            Self::states_failure(self.layers@, prefix.layer_states@, self.layers@.len())
        }
    }

    /// Lays out how letters are scored behind a suffix, which continues a
    /// prefix.
    pub fn score_suffix(&self, prefix: &PrefixState, suffix_ids: &[u32], letter_ids: &[u32]) -> (result:
        Result<Readout, SystemOneError>)
        ensures
            match result {
                Ok(readout) => self.suffix_failure(prefix, suffix_ids@, letter_ids@) is None
                    && readout.reads(suffix_ids@, letter_ids@),
                Err(e) => self.suffix_failure(prefix, suffix_ids@, letter_ids@) == Some(e@),
            },
    {
        if prefix.layer_states.len() != self.layers.len() {
            return Err(config_error("prefix state must contain one state per decoder layer"));
        }
        if letter_ids.len() < 1 || letter_ids.len() > 26 {
            return Err(config_error("text decoder requires 1..=26 letter token ids"));
        }
        if !are_known(letter_ids, self.vocab_size) {
            return Err(
                config_error("text decoder token id is outside the embedding vocabulary"),
            );
        }
        match self.embed(suffix_ids) {
            Ok(_) => {},
            Err(e) => {
                return Err(e);
            },
        }
        let mut i: usize = 0;
        while i < self.layers.len()
            invariant
                i <= self.layers.len(),
                prefix.layer_states.len() == self.layers.len(),
                1 <= letter_ids@.len() <= 26,
                all_known(letter_ids@, self.vocab_size),
                self.embed_failure(suffix_ids@) is None,
                Self::states_failure(self.layers@, prefix.layer_states@, i as nat) is None,
            decreases self.layers.len() - i,
        {
            let kind = self.layers[i];
            if kind != prefix.layer_states[i] {
                let e = match kind {
                    LayerType::LinearAttention => tensor_error("expected DeltaNet prefix state"),
                    LayerType::FullAttention => tensor_error(
                        "expected full-attention prefix cache",
                    ),
                };
                proof {
                    states_failure_stays(
                        self.layers@,
                        prefix.layer_states@,
                        (i + 1) as nat,
                        self.layers@.len(),
                    );
                }
                return Err(e);
            }
            i += 1;
        }
        Ok(
            Readout {
                ids: copy_ids(suffix_ids),
                row: suffix_ids.len() - 1,
                letter_ids: copy_ids(letter_ids),
            },
        )
    }
}

/// A layer that cannot be continued from keeps the rest from being run.
proof fn states_failure_stays(kinds: Seq<LayerType>, states: Seq<LayerType>, m: nat, n: nat)
    requires
        m <= n,
        TextModel::states_failure(kinds, states, m) is Some,
    ensures
        TextModel::states_failure(kinds, states, n) == TextModel::states_failure(
            kinds,
            states,
            m,
        ),
    decreases n,
{
    if m < n {
        states_failure_stays(kinds, states, m, (n - 1) as nat);
    }
}

/// A prefix that a model encoded can be continued by the same model, whatever
/// the suffix, as long as the suffix and the letters are in order.
pub proof fn own_prefixes_are_accepted(
    model: &TextModel,
    prefix: &PrefixState,
    suffix: Seq<u32>,
    letters: Seq<u32>,
)
    requires
        prefix.layer_states@ == model.layers@,
        1 <= letters.len() <= 26,
        all_known(letters, model.vocab_size),
        model.embed_failure(suffix) is None,
    ensures
        model.suffix_failure(prefix, suffix, letters) is None,
{
    equal_states_fit(model.layers@, model.layers@.len());
}

/// A prompt that is scored whole can be split at any place: its front is
/// encoded, its rest is accepted behind it, and the row that is read is that
/// of the same token.
pub proof fn split_prompts_are_accepted(
    model: &TextModel,
    input: InputView,
    at: int,
    prefix: &PrefixState,
    whole: &Readout,
    rest: &Readout,
)
    requires
        model.input_failure(input) is None,
        0 < at < input.input_ids.len(),
        prefix.layer_states@ == model.layers@,
        whole.reads(input.input_ids, input.letter_ids),
        rest.reads(input.input_ids.skip(at), input.letter_ids),
    ensures
        model.embed_failure(input.input_ids.take(at)) is None,
        model.suffix_failure(prefix, input.input_ids.skip(at), input.letter_ids) is None,
        at + rest.row == whole.row,
        whole.ids@ == input.input_ids.take(at) + rest.ids@,
        whole.letter_ids@ == rest.letter_ids@,
{
    let ids = input.input_ids;
    assert forall|i: int| 0 <= i < ids.skip(at).len() implies #[trigger] ids.skip(at)[i]
        < model.vocab_size by {
        assert(ids[at + i] < model.vocab_size);
    }
    assert(all_known(ids.take(at), model.vocab_size));
    own_prefixes_are_accepted(model, prefix, ids.skip(at), input.letter_ids);
    assert(ids =~= ids.take(at) + ids.skip(at));
}

proof fn equal_states_fit(kinds: Seq<LayerType>, n: nat)
    ensures
        TextModel::states_failure(kinds, kinds, n) is None,
    decreases n,
{
    if n > 0 {
        equal_states_fit(kinds, (n - 1) as nat);
    }
}

fn copy_layers(layers: &Vec<LayerType>) -> (copy: Vec<LayerType>)
    ensures
        copy@ == layers@,
{
    let mut copy: Vec<LayerType> = Vec::new();
    let mut i: usize = 0;
    while i < layers.len()
        invariant
            i <= layers.len(),
            copy@ == layers@.take(i as int),
        decreases layers.len() - i,
    {
        copy.push(layers[i]);
        assert(copy@ =~= layers@.take(i + 1));
        i += 1;
    }
    assert(layers@.take(layers@.len() as int) =~= layers@);
    copy
}

} // verus!
