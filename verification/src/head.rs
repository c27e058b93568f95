//! The decision head: its weights, and what it reads of a packed batch.
use crate::batching::{total, total_grows};
use crate::device::DType;
use crate::error::SystemOneError;
use crate::modernbert::config::{part_rows, push_weight, shapes, split_rows, WeightShape};
use crate::modernbert::window::flash_compat_dtype;
use crate::prepared_cache::ItemOutput;
use crate::score::Float;
use crate::tensor::{rank_error, rank_failure, Span, TensorInfo};
use vstd::prelude::*;
use vstd::string::StringExecFns;

verus! {

/// How many numbers the action head reads beside the pooled state: the top
/// probability, its lead, the entropy, and the number of options.
pub const ACTION_FEATURES: usize = 4;

/// How wide the action head is inside.
pub const ACTION_HIDDEN: usize = 256;

/// The shape of one layer of the head.
#[derive(Debug)]
pub struct HeadLayer {
    pub num_heads: usize,
    pub head_dim: usize,
    pub weights: Vec<WeightShape>,
    /// The rows of query, key and value in the weight that they share.
    pub parts: Vec<Span>,
}

/// How many heads a layer of this width has: one for every 64, and one at
/// least.
pub open spec fn heads_for(hidden: int) -> int {
    if hidden / 64 < 1 {
        1
    } else {
        hidden / 64
    }
}

/// The weights of a linear part: a matrix and a bias.
pub open spec fn linear_weights(name: Seq<char>, input: usize, output: usize) -> Seq<
    (Seq<char>, Seq<usize>, bool),
> {
    seq![
        (name + ".weight"@, seq![output, input], false),
        (name + ".bias"@, seq![output], false),
    ]
}

/// The weights of a norm.
pub open spec fn norm_weights(name: Seq<char>, size: usize) -> Seq<(Seq<char>, Seq<usize>, bool)> {
    seq![(name + ".weight"@, seq![size], false), (name + ".bias"@, seq![size], false)]
}

/// The weights of one layer, in the order they are fetched. Query, key and
/// value share one.
pub open spec fn layer_weights(hidden: usize) -> Seq<(Seq<char>, Seq<usize>, bool)> {
    let three = (3 * hidden) as usize;
    let four = (4 * hidden) as usize;
    seq![
        ("self_attn.in_proj_weight"@, seq![three, hidden], false),
        ("self_attn.in_proj_bias"@, seq![three], false),
    ] + linear_weights("self_attn.out_proj"@, hidden, hidden) + linear_weights(
        "linear1"@,
        hidden,
        four,
    ) + linear_weights("linear2"@, four, hidden) + norm_weights("norm1"@, hidden) + norm_weights(
        "norm2"@,
        hidden,
    )
}

/// The weights of the part that scores a marker.
pub open spec fn scorer_weights(hidden: usize) -> Seq<(Seq<char>, Seq<usize>, bool)> {
    norm_weights("0"@, hidden) + linear_weights("1"@, hidden, hidden) + linear_weights(
        "3"@,
        hidden,
        1,
    )
}

/// The weights of the part that decides whether to act.
pub open spec fn action_weights(hidden: usize, actions: usize) -> Seq<
    (Seq<char>, Seq<usize>, bool),
> {
    linear_weights("0"@, (hidden + ACTION_FEATURES) as usize, ACTION_HIDDEN) + linear_weights(
        "2"@,
        ACTION_HIDDEN,
        actions,
    )
}

fn named(name: &str, part: &str) -> (full: String)
    ensures
        full@ == name@ + part@,
{
    let mut full = name.to_owned();
    full.append(part);
    full
}

fn push_linear(weights: &mut Vec<WeightShape>, name: &str, input: usize, output: usize)
    ensures
        shapes(final(weights)@) == shapes(old(weights)@) + linear_weights(name@, input, output),
{
    let ghost before = shapes(weights@);
    push_weight(weights, named(name, ".weight"), vec![output, input], false);
    push_weight(weights, named(name, ".bias"), vec![output], false);
    assert(shapes(weights@) =~~= before + linear_weights(name@, input, output));
}

fn push_norm(weights: &mut Vec<WeightShape>, name: &str, size: usize)
    ensures
        shapes(final(weights)@) == shapes(old(weights)@) + norm_weights(name@, size),
{
    let ghost before = shapes(weights@);
    push_weight(weights, named(name, ".weight"), vec![size], false);
    push_weight(weights, named(name, ".bias"), vec![size], false);
    assert(shapes(weights@) =~~= before + norm_weights(name@, size));
}

impl HeadLayer {
    /// Works out a layer's heads and weights.
    pub fn load(hidden: usize) -> (layer: Self)
        requires
            4 * hidden <= usize::MAX,
        ensures
            layer.num_heads == heads_for(hidden as int),
            layer.head_dim as int == hidden as int / heads_for(hidden as int),
            shapes(layer.weights@) == layer_weights(hidden),
            layer.parts@ == Seq::new(3, |i: int| part_rows(hidden as int, i)),
    {
        let num_heads: usize = if hidden / 64 < 1 {
            1
        } else {
            hidden / 64
        };
        let mut weights: Vec<WeightShape> = Vec::new();
        push_weight(
            &mut weights,
            "self_attn.in_proj_weight".to_owned(),
            vec![3 * hidden, hidden],
            false,
        );
        push_weight(&mut weights, "self_attn.in_proj_bias".to_owned(), vec![3 * hidden], false);
        let ghost three = (3 * hidden) as usize;
        assert(shapes(weights@) =~~= seq![
            ("self_attn.in_proj_weight"@, seq![three, hidden], false),
            ("self_attn.in_proj_bias"@, seq![three], false),
        ]);
        push_linear(&mut weights, "self_attn.out_proj", hidden, hidden);
        push_linear(&mut weights, "linear1", hidden, 4 * hidden);
        push_linear(&mut weights, "linear2", 4 * hidden, hidden);
        push_norm(&mut weights, "norm1", hidden);
        push_norm(&mut weights, "norm2", hidden);
        let parts = split_rows(hidden, 3);
        assert(parts@ =~= Seq::new(3, |i: int| part_rows(hidden as int, i)));
        HeadLayer { num_heads, head_dim: hidden / num_heads, weights, parts }
    }

    /// Lays out the layer over packed states, which are not padded: nothing
    /// is hidden from attention.
    pub fn forward_packed(&self, xs: &TensorInfo) -> (result: Result<HeadPass, SystemOneError>)
        ensures
            match result {
                Ok(pass) => {
                    &&& xs.dims@.len() == 2
                    &&& pass.heads == (xs.dims@[0], self.num_heads, self.head_dim)
                    &&& pass.joined == (xs.dims@[0], xs.dims@[1])
                    &&& pass.dtype == if xs.dtype == DType::F16 || xs.dtype == DType::BF16 {
                        xs.dtype
                    } else {
                        DType::F16
                    }
                },
                Err(e) => xs.dims@.len() != 2 && e@ == rank_failure(2, xs.dims@),
            },
    {
        if xs.dims.len() != 2 {
            return Err(rank_error(2, &xs.dims));
        }
        Ok(
            HeadPass {
                heads: (xs.dims[0], self.num_heads, self.head_dim),
                joined: (xs.dims[0], xs.dims[1]),
                dtype: flash_compat_dtype(xs.dtype),
            },
        )
    }
}

/// A pass of a layer over packed states.
#[derive(Clone, Copy, Debug, PartialEq, Eq)]
pub struct HeadPass {
    /// The shape of queries, keys and values.
    pub heads: (usize, usize, usize),
    /// The shape of what attention yields, its heads joined again.
    pub joined: (usize, usize),
    /// What attention runs in.
    pub dtype: DType,
}

/// The part that scores a marker.
#[derive(Debug)]
pub struct Scorer {
    pub weights: Vec<WeightShape>,
}

impl Scorer {
    /// Works out the weights.
    pub fn load(hidden: usize) -> (scorer: Self)
        ensures
            shapes(scorer.weights@) == scorer_weights(hidden),
    {
        let mut weights: Vec<WeightShape> = Vec::new();
        push_norm(&mut weights, "0", hidden);
        push_linear(&mut weights, "1", hidden, hidden);
        push_linear(&mut weights, "3", hidden, 1);
        assert(shapes(weights@) =~= scorer_weights(hidden));
        Scorer { weights }
    }
}

/// The part that decides whether to act. It runs in single precision.
#[derive(Debug)]
pub struct ActionHead {
    pub weights: Vec<WeightShape>,
}

impl ActionHead {
    /// Works out the weights.
    pub fn load(hidden: usize, actions: usize) -> (head: Self)
        requires
            hidden + ACTION_FEATURES <= usize::MAX,
        ensures
            shapes(head.weights@) == action_weights(hidden, actions),
    {
        let mut weights: Vec<WeightShape> = Vec::new();
        push_linear(&mut weights, "0", hidden + ACTION_FEATURES, ACTION_HIDDEN);
        push_linear(&mut weights, "2", ACTION_HIDDEN, actions);
        assert(shapes(weights@) =~= action_weights(hidden, actions));
        ActionHead { weights }
    }
}

/// The heads of a layer whose width is a multiple of 64 share it out whole.
pub proof fn heads_share_the_width(hidden: int)
    requires
        hidden > 0,
        hidden % 64 == 0,
    ensures
        heads_for(hidden) * 64 == hidden,
        hidden / heads_for(hidden) == 64,
{
    let n = hidden / 64;
    assert(hidden == n * 64);
    assert(n * 64 / n == 64) by (nonlinear_arith)
        requires
            n > 0,
    ;
}

/// The score of a slot without an option: -10000.
pub open spec fn unused_slot() -> Float {
    Float { bits: 0xc61c4000 }
}

/// The scores with those of slots without an option replaced.
pub open spec fn with_unused(logits: Seq<Float>, option_count: int) -> Seq<Float> {
    Seq::new(
        logits.len(),
        |i: int|
            if i >= option_count {
                unused_slot()
            } else {
                logits[i]
            },
    )
}

/// Replaces the scores of slots without an option, so that they do not weigh
/// in a softmax.
pub fn mask_unused(logits: &Vec<Float>, option_count: usize) -> (masked: Vec<Float>)
    ensures
        masked@ == with_unused(logits@, option_count as int),
{
    let mut masked: Vec<Float> = Vec::new();
    let mut i: usize = 0;
    while i < logits.len()
        invariant
            i <= logits.len(),
            masked@ == with_unused(logits@, option_count as int).take(i as int),
        decreases logits.len() - i,
    {
        if i >= option_count {
            masked.push(Float { bits: 0xc61c4000 });
        } else {
            masked.push(logits[i]);
        }
        assert(masked@ =~= with_unused(logits@, option_count as int).take(i + 1));
        i += 1;
    }
    assert(masked@ =~= with_unused(logits@, option_count as int));
    masked
}

/// How many options entropy is measured against: two at least.
pub fn measured_options(option_count: usize) -> (n: usize)
    ensures
        n == if option_count < 2 {
            2
        } else {
            option_count
        },
{
    if option_count < 2 {
        2
    } else {
        option_count
    }
}

/// What the head reads of a packed batch.
#[derive(Debug)]
pub struct HeadBatch {
    /// For every token the kind of its question.
    pub kinds: Vec<u32>,
    /// For every question the place of its first token.
    pub offsets: Vec<u32>,
    /// For every marker slot the place of its token.
    pub markers: Vec<u32>,
}

/// The kinds of the first `n` questions' tokens.
pub open spec fn token_kinds(kinds: Seq<u32>, lens: Seq<usize>, n: nat) -> Seq<u32>
    decreases n,
{
    if n == 0 {
        Seq::empty()
    } else {
        token_kinds(kinds, lens, (n - 1) as nat) + Seq::new(lens[n - 1] as nat, |j: int|
            kinds[n - 1])
    }
}

/// The place of a marker: behind the questions before its own.
pub open spec fn marker_place(lens: Seq<usize>, marker_pos: Seq<u32>, max_markers: int, p: int) -> int {
    total(lens, (p / max_markers) as nat) + marker_pos[p]
}

/// The batch's parts belong together, and every marker is one of its
/// question's tokens.
pub open spec fn batch_fits(
    kinds: Seq<u32>,
    lens: Seq<usize>,
    marker_pos: Seq<u32>,
    max_markers: int,
) -> bool {
    &&& kinds.len() == lens.len()
    &&& total(lens, lens.len()) <= u32::MAX
    &&& max_markers >= 0
    &&& marker_pos.len() == lens.len() * max_markers
    &&& forall|p: int|
        0 <= p < marker_pos.len() ==> #[trigger] marker_pos[p] < lens[p / max_markers]
}

proof fn row_of(p: int, rows: int, cols: int)
    requires
        0 <= p < rows * cols,
        cols >= 0,
    ensures
        cols > 0,
        0 <= p / cols < rows,
        p == (p / cols) * cols + p % cols,
        0 <= p % cols < cols,
{
    assert(cols > 0) by (nonlinear_arith)
        requires
            0 < rows * cols,
            cols >= 0,
    ;
    vstd::arithmetic::div_mod::lemma_fundamental_div_mod(p, cols);
    vstd::arithmetic::div_mod::lemma_mod_bound(p, cols);
    assert(cols * (p / cols) == (p / cols) * cols) by (nonlinear_arith);
    assert(0 <= p / cols < rows) by (nonlinear_arith)
        requires
            p == (p / cols) * cols + p % cols,
            0 <= p % cols < cols,
            0 <= p < rows * cols,
            cols > 0,
    ;
}

/// Works out what the head reads of a packed batch.
pub fn pack_batch(
    kinds: &Vec<u32>,
    lens: &Vec<usize>,
    marker_pos: &Vec<u32>,
    max_markers: usize,
) -> (batch: HeadBatch)
    requires
        batch_fits(kinds@, lens@, marker_pos@, max_markers as int),
    ensures
        batch.kinds@ == token_kinds(kinds@, lens@, lens@.len()),
        batch.offsets@.len() == lens@.len(),
        forall|i: int|
            0 <= i < lens@.len() ==> #[trigger] batch.offsets@[i] == total(lens@, i as nat),
        batch.markers@.len() == marker_pos@.len(),
        forall|p: int|
            0 <= p < marker_pos@.len() ==> #[trigger] batch.markers@[p] == marker_place(
                lens@,
                marker_pos@,
                max_markers as int,
                p,
            ),
{
    let mut token: Vec<u32> = Vec::new();
    let mut offsets: Vec<u32> = Vec::new();
    let mut start: u32 = 0;
    let mut i: usize = 0;
    while i < lens.len()
        invariant
            i <= lens.len(),
            batch_fits(kinds@, lens@, marker_pos@, max_markers as int),
            start == total(lens@, i as nat),
            token@ == token_kinds(kinds@, lens@, i as nat),
            offsets.len() == i,
            forall|k: int| 0 <= k < i ==> #[trigger] offsets@[k] == total(lens@, k as nat),
        decreases lens.len() - i,
    {
        proof {
            total_grows(lens@, (i + 1) as nat, lens@.len());
        }
        let len: usize = lens[i];
        let kind: u32 = kinds[i];
        let ghost before = token@;
        let ghost own = Seq::new(len as nat, |j: int| kinds@[i as int]);
        let mut j: usize = 0;
        while j < len
            invariant
                j <= len,
                own == Seq::new(len as nat, |k: int| kinds@[i as int]),
                kind == kinds@[i as int],
                token@ == before + own.take(j as int),
            decreases len - j,
        {
            token.push(kind);
            assert(token@ =~= before + own.take(j + 1));
            j += 1;
        }
        assert(own.take(len as int) =~= own);
        offsets.push(start);
        start += len as u32;
        i += 1;
    }
    let mut markers: Vec<u32> = Vec::new();
    let mut p: usize = 0;
    while p < marker_pos.len()
        invariant
            p <= marker_pos.len(),
            batch_fits(kinds@, lens@, marker_pos@, max_markers as int),
            offsets.len() == lens.len(),
            forall|k: int|
                0 <= k < lens@.len() ==> #[trigger] offsets@[k] == total(lens@, k as nat),
            markers.len() == p,
            forall|k: int|
                0 <= k < p ==> #[trigger] markers@[k] == marker_place(
                    lens@,
                    marker_pos@,
                    max_markers as int,
                    k,
                ),
        decreases marker_pos.len() - p,
    {
        proof {
            row_of(p as int, lens@.len() as int, max_markers as int);
            total_grows(lens@, (p as int / max_markers as int + 1) as nat, lens@.len());
        }
        let row: usize = p / max_markers;
        let position: u32 = marker_pos[p];
        assert(marker_pos@[p as int] < lens@[p as int / max_markers as int]);
        assert(offsets@[row as int] == total(lens@, row as nat));
        markers.push(offsets[row] + position);
        p += 1;
    }
    HeadBatch { kinds: token, offsets, markers }
}

/// Every marker is found among its own question's tokens.
pub proof fn markers_stay_with_their_question(
    kinds: Seq<u32>,
    lens: Seq<usize>,
    marker_pos: Seq<u32>,
    max_markers: int,
    p: int,
)
    requires
        batch_fits(kinds, lens, marker_pos, max_markers),
        0 <= p < marker_pos.len(),
    ensures
        total(lens, (p / max_markers) as nat) <= marker_place(lens, marker_pos, max_markers, p)
            < total(lens, (p / max_markers + 1) as nat),
        token_kinds(kinds, lens, lens.len()).len() == total(lens, lens.len()),
        token_kinds(kinds, lens, lens.len())[marker_place(lens, marker_pos, max_markers, p)]
            == kinds[p / max_markers],
{
    row_of(p, lens.len() as int, max_markers);
    let row = p / max_markers;
    assert(marker_pos[p] < lens[row]);
    kind_at(kinds, lens, lens.len(), row, marker_pos[p] as int);
}

proof fn kinds_len(kinds: Seq<u32>, lens: Seq<usize>, n: nat)
    requires
        n <= lens.len(),
    ensures
        token_kinds(kinds, lens, n).len() == total(lens, n),
    decreases n,
{
    if n > 0 {
        kinds_len(kinds, lens, (n - 1) as nat);
    }
}

proof fn kind_at(kinds: Seq<u32>, lens: Seq<usize>, n: nat, b: int, j: int)
    requires
        n <= lens.len(),
        0 <= b < n,
        0 <= j < lens[b],
    ensures
        token_kinds(kinds, lens, n).len() == total(lens, n),
        0 <= total(lens, b as nat) + j < token_kinds(kinds, lens, n).len(),
        token_kinds(kinds, lens, n)[total(lens, b as nat) + j] == kinds[b],
    decreases n,
{
    let m = (n - 1) as nat;
    kinds_len(kinds, lens, m);
    if b < m {
        kind_at(kinds, lens, m, b, j);
    }
}

/// The shortest of three lists.
pub open spec fn shortest(a: nat, b: nat, c: nat) -> nat {
    if a <= b && a <= c {
        a
    } else if b <= c {
        b
    } else {
        c
    }
}

/// The probability of acting: the first that was read, and zero without one.
pub open spec fn act_probability(row: Seq<Float>) -> Float {
    if row.len() > 0 {
        row[0]
    } else {
        Float { bits: 0 }
    }
}

/// Reads the outputs of a batch: of every question the scores of its own
/// options, and the probability of acting.
pub fn read_outputs(rows: &Vec<Vec<Float>>, option_counts: &Vec<usize>, acts: &Vec<Vec<Float>>) -> (outputs:
    Vec<ItemOutput>)
    requires
        forall|i: int|
            0 <= i < shortest(rows@.len(), option_counts@.len(), acts@.len())
                ==> #[trigger] option_counts@[i] <= rows@[i]@.len(),
    ensures
        outputs@.len() == shortest(rows@.len(), option_counts@.len(), acts@.len()),
        forall|i: int|
            0 <= i < outputs@.len() ==> (#[trigger] outputs@[i]).logits@ == rows@[i]@.take(
                option_counts@[i] as int,
            ) && outputs@[i].act_probability == act_probability(acts@[i]@),
{
    let mut outputs: Vec<ItemOutput> = Vec::new();
    let mut i: usize = 0;
    while i < rows.len() && i < option_counts.len() && i < acts.len()
        invariant
            i <= shortest(rows@.len(), option_counts@.len(), acts@.len()),
            forall|k: int|
                0 <= k < shortest(rows@.len(), option_counts@.len(), acts@.len())
                    ==> #[trigger] option_counts@[k] <= rows@[k]@.len(),
            outputs.len() == i,
            forall|k: int|
                0 <= k < i ==> (#[trigger] outputs@[k]).logits@ == rows@[k]@.take(
                    option_counts@[k] as int,
                ) && outputs@[k].act_probability == act_probability(acts@[k]@),
        decreases rows.len() - i,
    {
        let row = &rows[i];
        let count: usize = option_counts[i];
        assert(option_counts@[i as int] <= rows@[i as int]@.len());
        let mut logits: Vec<Float> = Vec::new();
        let mut j: usize = 0;
        while j < count
            invariant
                j <= count <= row@.len(),
                logits@ == row@.take(j as int),
            decreases count - j,
        {
            logits.push(row[j]);
            assert(logits@ =~= row@.take(j + 1));
            j += 1;
        }
        let act = if acts[i].len() > 0 {
            acts[i][0]
        } else {
            Float { bits: 0 }
        };
        outputs.push(ItemOutput { logits, act_probability: act });
        i += 1;
    }
    outputs
}

} // verus!
