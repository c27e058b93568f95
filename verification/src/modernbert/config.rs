//! An encoder's settings and the weights they call for.
use crate::score::Double;
use crate::table::Table;
use crate::tensor::Span;
use crate::text::{decimal, decimal_text};
use vstd::prelude::*;
use vstd::string::StringExecFns;

verus! {

/// An encoder's settings.
pub struct Config {
    pub vocab_size: usize,
    pub hidden_size: usize,
    pub num_hidden_layers: usize,
    pub num_attention_heads: usize,
    pub intermediate_size: usize,
    pub max_position_embeddings: usize,
    pub layer_norm_eps: Double,
    pub pad_token_id: u32,
    pub global_attn_every_n_layers: usize,
    pub global_rope_theta: Double,
    pub local_attention: usize,
    pub local_rope_theta: Double,
    pub classifier_config: Option<ClassifierConfig>,
}

/// Which state a sequence is classified by.
#[derive(Clone, Copy, Debug, PartialEq, Eq, Structural)]
pub enum ClassifierPooling {
    /// The first one.
    CLS,
    /// The mean of those that are not padding.
    MEAN,
}

impl Default for ClassifierPooling {
    fn default() -> (pooling: Self)
        ensures
            pooling == ClassifierPooling::CLS,
    {
        ClassifierPooling::CLS
    }
}

/// A classifier's classes and what it reads.
pub struct ClassifierConfig {
    pub id2label: Table<String>,
    pub label2id: Table<String>,
    pub classifier_pooling: ClassifierPooling,
}

/// A weight with its shape. Where an optional weight is missing the encoder
/// does without.
#[derive(Debug)]
pub struct WeightShape {
    pub name: String,
    pub dims: Vec<usize>,
    pub optional: bool,
}

/// Names, shapes and whether the weights may be missing.
pub open spec fn shapes(weights: Seq<WeightShape>) -> Seq<(Seq<char>, Seq<usize>, bool)> {
    weights.map_values(|w: WeightShape| (w.name@, w.dims@, w.optional))
}

/// The name of a layer.
pub open spec fn layer_name(layer: nat) -> Seq<char> {
    "layers."@ + decimal(layer)
}

/// Whether a layer looks at its neighbourhood alone: all but every
/// `every`-th do.
pub open spec fn is_local(layer: int, every: int) -> bool {
    layer % every != 0
}

impl Config {
    /// The heads share out a width, the layers take turns, and the sizes of
    /// the weights can be counted.
    pub open spec fn usable(&self) -> bool {
        &&& self.num_attention_heads > 0
        &&& self.num_hidden_layers > 0 ==> self.global_attn_every_n_layers > 0
        &&& 3 * self.hidden_size <= usize::MAX
        &&& 2 * self.intermediate_size <= usize::MAX
    }

    /// The weights of a layer. Query, key and value share one, and so do the
    /// activation and its gate.
    pub open spec fn layer_weights(&self, layer: nat) -> Seq<(Seq<char>, Seq<usize>, bool)> {
        let h = self.hidden_size;
        let i = self.intermediate_size;
        seq![
            (layer_name(layer) + ".attn.Wqkv.weight"@, seq![(3 * h) as usize, h], false),
            (layer_name(layer) + ".attn.Wo.weight"@, seq![h, h], false),
            (layer_name(layer) + ".mlp.Wi.weight"@, seq![(2 * i) as usize, h], false),
            (layer_name(layer) + ".mlp.Wo.weight"@, seq![h, i], false),
            (layer_name(layer) + ".attn_norm.weight"@, seq![h], true),
            (layer_name(layer) + ".mlp_norm.weight"@, seq![h], false),
        ]
    }

    /// The weights before the layers, and those of the first `n` layers.
    pub open spec fn weights_up_to(&self, n: nat) -> Seq<(Seq<char>, Seq<usize>, bool)>
        decreases n,
    {
        if n == 0 {
            seq![
                (
                    "embeddings.tok_embeddings.weight"@,
                    seq![self.vocab_size, self.hidden_size],
                    false,
                ),
                ("embeddings.norm.weight"@, seq![self.hidden_size], false),
            ]
        } else {
            self.weights_up_to((n - 1) as nat) + self.layer_weights((n - 1) as nat)
        }
    }

    /// All weights, in the order they are fetched.
    pub open spec fn weights(&self) -> Seq<(Seq<char>, Seq<usize>, bool)> {
        self.weights_up_to(self.num_hidden_layers as nat).push(
            ("final_norm.weight"@, seq![self.hidden_size], false),
        )
    }

    /// How many classes there are.
    pub fn classes(&self) -> (n: usize)
        ensures
            n == match self.classifier_config {
                Some(c) => c.id2label@.len(),
                None => 0,
            },
    {
        match &self.classifier_config {
            Some(c) => c.id2label.len(),
            None => 0,
        }
    }

    /// Which state a sequence is classified by: the first one where nothing
    /// else is said.
    pub fn pooling(&self) -> (pooling: ClassifierPooling)
        ensures
            pooling == match self.classifier_config {
                Some(c) => c.classifier_pooling,
                None => ClassifierPooling::CLS,
            },
    {
        match &self.classifier_config {
            Some(c) => c.classifier_pooling,
            None => ClassifierPooling::CLS,
        }
    }
}

/// An encoder's shape, with the weights that it fetches.
#[derive(Debug)]
pub struct ModernBert {
    pub weights: Vec<WeightShape>,
    /// Whether a layer looks at its neighbourhood alone.
    pub local: Vec<bool>,
    pub head_size: usize,
    pub local_attention_size: usize,
}

/// Adds a weight to a list.
pub fn push_weight(weights: &mut Vec<WeightShape>, name: String, dims: Vec<usize>, optional: bool)
    ensures
        shapes(final(weights)@) == shapes(old(weights)@).push((name@, dims@, optional)),
{
    let ghost before = weights@;
    weights.push(WeightShape { name, dims, optional });
    assert(shapes(weights@) =~= shapes(before).push((name@, dims@, optional)));
}

/// A layer's name with a part behind it.
fn in_layer(layer: usize, part: &str) -> (name: String)
    ensures
        name@ == layer_name(layer as nat) + part@,
{
    let mut name = "layers.".to_owned();
    name.append(decimal_text(layer).as_str());
    name.append(part);
    name
}

impl ModernBert {
    /// The encoder is the one that these settings describe.
    pub open spec fn follows(&self, config: &Config) -> bool {
        &&& shapes(self.weights@) == config.weights()
        &&& self.local@ == Seq::new(
            config.num_hidden_layers as nat,
            |i: int| is_local(i, config.global_attn_every_n_layers as int),
        )
        &&& self.head_size as int == config.hidden_size as int / config.num_attention_heads as int
        &&& self.local_attention_size == config.local_attention
    }

    /// Works out an encoder's weights, and which of its layers look at their
    /// neighbourhood alone.
    pub fn load(config: &Config) -> (model: Self)
        requires
            config.usable(),
        ensures
            model.follows(config),
    {
        let h: usize = config.hidden_size;
        let i: usize = config.intermediate_size;
        let mut weights: Vec<WeightShape> = Vec::new();
        let mut local: Vec<bool> = Vec::new();
        push_weight(
            &mut weights,
            "embeddings.tok_embeddings.weight".to_owned(),
            vec![config.vocab_size, h],
            false,
        );
        push_weight(&mut weights, "embeddings.norm.weight".to_owned(), vec![h], false);
        assert(shapes(weights@) =~~= config.weights_up_to(0));
        let mut layer: usize = 0;
        while layer < config.num_hidden_layers
            invariant
                layer <= config.num_hidden_layers,
                config.usable(),
                h == config.hidden_size,
                i == config.intermediate_size,
                shapes(weights@) == config.weights_up_to(layer as nat),
                local@ == Seq::new(
                    layer as nat,
                    |i: int| is_local(i, config.global_attn_every_n_layers as int),
                ),
            decreases config.num_hidden_layers - layer,
        {
            let ghost before = shapes(weights@);
            push_weight(&mut weights, in_layer(layer, ".attn.Wqkv.weight"), vec![3 * h, h], false);
            push_weight(&mut weights, in_layer(layer, ".attn.Wo.weight"), vec![h, h], false);
            push_weight(&mut weights, in_layer(layer, ".mlp.Wi.weight"), vec![2 * i, h], false);
            push_weight(&mut weights, in_layer(layer, ".mlp.Wo.weight"), vec![h, i], false);
            push_weight(&mut weights, in_layer(layer, ".attn_norm.weight"), vec![h], true);
            push_weight(&mut weights, in_layer(layer, ".mlp_norm.weight"), vec![h], false);
            assert(shapes(weights@) =~~= before + config.layer_weights(layer as nat));
            local.push(layer % config.global_attn_every_n_layers != 0);
            layer += 1;
            assert(local@ =~= Seq::new(
                layer as nat,
                |i: int| is_local(i, config.global_attn_every_n_layers as int),
            ));
        }
        push_weight(&mut weights, "final_norm.weight".to_owned(), vec![h], false);
        assert(shapes(weights@) =~~= config.weights());
        ModernBert {
            weights,
            local,
            head_size: h / config.num_attention_heads,
            local_attention_size: config.local_attention,
        }
    }
}

/// The weights of the dense part that reads states.
pub open spec fn reader_weights(hidden: usize) -> Seq<(Seq<char>, Seq<usize>, bool)> {
    seq![
        ("head.dense.weight"@, seq![hidden, hidden], false),
        ("head.norm.weight"@, seq![hidden], false),
    ]
}

/// An encoder that fills masked tokens.
#[derive(Debug)]
pub struct ModernBertForMaskedLM {
    pub model: ModernBert,
    /// The weights that it fetches besides the encoder's.
    pub weights: Vec<WeightShape>,
}

impl ModernBertForMaskedLM {
    /// Works out the weights. The decoder shares the embeddings.
    pub fn load(config: &Config) -> (whole: Self)
        requires
            config.usable(),
        ensures
            whole.model.follows(config),
            shapes(whole.weights@) == seq![
                (
                    "embeddings.tok_embeddings.weight"@,
                    seq![config.vocab_size, config.hidden_size],
                    false,
                ),
                ("decoder.bias"@, seq![config.vocab_size], false),
            ] + reader_weights(config.hidden_size),
    {
        let h: usize = config.hidden_size;
        let model = ModernBert::load(config);
        let mut weights: Vec<WeightShape> = Vec::new();
        push_weight(
            &mut weights,
            "embeddings.tok_embeddings.weight".to_owned(),
            vec![config.vocab_size, h],
            false,
        );
        push_weight(&mut weights, "decoder.bias".to_owned(), vec![config.vocab_size], false);
        push_weight(&mut weights, "head.dense.weight".to_owned(), vec![h, h], false);
        push_weight(&mut weights, "head.norm.weight".to_owned(), vec![h], false);
        assert(shapes(weights@) =~~= seq![
            ("embeddings.tok_embeddings.weight"@, seq![config.vocab_size, h], false),
            ("decoder.bias"@, seq![config.vocab_size], false),
        ] + reader_weights(h));
        ModernBertForMaskedLM { model, weights }
    }
}

/// An encoder that classifies sequences.
#[derive(Debug)]
pub struct ModernBertForSequenceClassification {
    pub model: ModernBert,
    /// The weights that it fetches besides the encoder's.
    pub weights: Vec<WeightShape>,
    pub classifier_pooling: ClassifierPooling,
}

impl ModernBertForSequenceClassification {
    /// Works out the weights, and which state a sequence is classified by.
    pub fn load(config: &Config) -> (whole: Self)
        requires
            config.usable(),
        ensures
            whole.model.follows(config),
            ({
                let classes = match config.classifier_config {
                    Some(c) => c.id2label@.len() as usize,
                    None => 0,
                };
                shapes(whole.weights@) == seq![
                    ("classifier.weight"@, seq![classes, config.hidden_size], false),
                    ("classifier.bias"@, seq![classes], false),
                ] + reader_weights(config.hidden_size)
            }),
            whole.classifier_pooling == match config.classifier_config {
                Some(c) => c.classifier_pooling,
                None => ClassifierPooling::CLS,
            },
    {
        let h: usize = config.hidden_size;
        let classes: usize = config.classes();
        let model = ModernBert::load(config);
        let mut weights: Vec<WeightShape> = Vec::new();
        push_weight(&mut weights, "classifier.weight".to_owned(), vec![classes, h], false);
        push_weight(&mut weights, "classifier.bias".to_owned(), vec![classes], false);
        push_weight(&mut weights, "head.dense.weight".to_owned(), vec![h, h], false);
        push_weight(&mut weights, "head.norm.weight".to_owned(), vec![h], false);
        assert(shapes(weights@) =~~= seq![
            ("classifier.weight"@, seq![classes, h], false),
            ("classifier.bias"@, seq![classes], false),
        ] + reader_weights(h));
        ModernBertForSequenceClassification {
            model,
            weights,
            classifier_pooling: config.pooling(),
        }
    }
}

/// The rows of part `i` of a weight that holds parts of `size` rows each.
pub open spec fn part_rows(size: int, i: int) -> Span {
    Span { start: (i * size) as usize, end: (i * size + size) as usize }
}

/// Splits a weight that several projections share into their rows.
pub fn split_rows(size: usize, parts: usize) -> (spans: Vec<Span>)
    requires
        parts * size <= usize::MAX,
    ensures
        spans@.len() == parts,
        forall|i: int| 0 <= i < parts ==> #[trigger] spans@[i] == part_rows(size as int, i),
{
    let mut spans: Vec<Span> = Vec::new();
    let mut i: usize = 0;
    while i < parts
        invariant
            i <= parts,
            parts * size <= usize::MAX,
            spans.len() == i,
            forall|k: int| 0 <= k < i ==> #[trigger] spans@[k] == part_rows(size as int, k),
        decreases parts - i,
    {
        proof {
            part_fits(size as int, parts as int, i as int);
        }
        let start: usize = i * size;
        spans.push(Span { start, end: start + size });
        i += 1;
    }
    spans
}

proof fn part_fits(size: int, parts: int, i: int)
    requires
        size >= 0,
        0 <= i < parts,
    ensures
        0 <= i * size,
        i * size + size <= parts * size,
        (i + 1) * size == i * size + size,
{
    assert(0 <= i * size) by (nonlinear_arith)
        requires
            i >= 0,
            size >= 0,
    ;
    assert((i + 1) * size == i * size + size) by (nonlinear_arith);
    assert((i + 1) * size <= parts * size) by (nonlinear_arith)
        requires
            i + 1 <= parts,
            size >= 0,
    ;
}

/// The parts of a shared weight meet, and the last ends where the weight does.
pub proof fn parts_cover_the_weight(size: int, parts: int, i: int)
    requires
        size >= 0,
        0 <= i < parts,
        parts * size <= usize::MAX,
    ensures
        part_rows(size, 0).start == 0,
        i + 1 < parts ==> part_rows(size, i).end == part_rows(size, i + 1).start,
        part_rows(size, parts - 1).end == parts * size,
{
    part_fits(size, parts, i);
    part_fits(size, parts, parts - 1);
    assert(0 * size == 0);
}

/// The first layer looks at everything, and so does every further one a whole
/// number of `every` layers on.
pub proof fn global_layers_recur(layer: int, every: int)
    requires
        layer >= 0,
        every > 0,
    ensures
        !is_local(0, every),
        is_local(layer + every, every) == is_local(layer, every),
{
    vstd::arithmetic::div_mod::lemma_mod_add_multiples_vanish(layer, every);
}

} // verus!
