//! What holds of the decision head.
use crate::batching::total;
use crate::head::{
    act_probability, action_weights, heads_for, layer_weights, marker_place, scorer_weights,
    shortest, token_kinds, with_unused,
};
use crate::modernbert::laws::weighs;
use crate::score::Float;
use vstd::prelude::*;

verus! {

/// A layer of the head has a head for every 64 values of its width, and one at
/// least.
pub proof fn heads_are_64_wide(hidden: int)
    requires
        hidden >= 0,
    ensures
        heads_for(hidden) >= 1,
        hidden >= 64 ==> heads_for(hidden) * 64 <= hidden < (heads_for(hidden) + 1) * 64,
        hidden < 64 ==> heads_for(hidden) == 1,
{
}

/// A layer of the head fetches these weights: query, key and value share the
/// first, and the width inside is four times the width outside.
pub proof fn layers_fetch_their_weights(hidden: usize)
    requires
        4 * hidden <= usize::MAX,
    ensures
        ({
            let all = layer_weights(hidden);
            let h = hidden;
            let three = (h + h + h) as usize;
            let four = (h + h + h + h) as usize;
            &&& all.len() == 12
            &&& weighs(all[0], "self_attn.in_proj_weight"@, seq![three, h], false)
            &&& weighs(all[1], "self_attn.in_proj_bias"@, seq![three], false)
            &&& weighs(all[2], "self_attn.out_proj.weight"@, seq![h, h], false)
            &&& weighs(all[3], "self_attn.out_proj.bias"@, seq![h], false)
            &&& weighs(all[4], "linear1.weight"@, seq![four, h], false)
            &&& weighs(all[5], "linear1.bias"@, seq![four], false)
            &&& weighs(all[6], "linear2.weight"@, seq![h, four], false)
            &&& weighs(all[7], "linear2.bias"@, seq![h], false)
            &&& weighs(all[8], "norm1.weight"@, seq![h], false)
            &&& weighs(all[9], "norm1.bias"@, seq![h], false)
            &&& weighs(all[10], "norm2.weight"@, seq![h], false)
            &&& weighs(all[11], "norm2.bias"@, seq![h], false)
        }),
{
    reveal_strlit(".weight");
    reveal_strlit(".bias");
    reveal_strlit("self_attn.out_proj");
    reveal_strlit("self_attn.out_proj.weight");
    reveal_strlit("self_attn.out_proj.bias");
    reveal_strlit("linear1");
    reveal_strlit("linear1.weight");
    reveal_strlit("linear1.bias");
    reveal_strlit("linear2");
    reveal_strlit("linear2.weight");
    reveal_strlit("linear2.bias");
    reveal_strlit("norm1");
    reveal_strlit("norm1.weight");
    reveal_strlit("norm1.bias");
    reveal_strlit("norm2");
    reveal_strlit("norm2.weight");
    reveal_strlit("norm2.bias");
    assert("self_attn.out_proj"@ + ".weight"@ =~= "self_attn.out_proj.weight"@);
    assert("self_attn.out_proj"@ + ".bias"@ =~= "self_attn.out_proj.bias"@);
    assert("linear1"@ + ".weight"@ =~= "linear1.weight"@);
    assert("linear1"@ + ".bias"@ =~= "linear1.bias"@);
    assert("linear2"@ + ".weight"@ =~= "linear2.weight"@);
    assert("linear2"@ + ".bias"@ =~= "linear2.bias"@);
    assert("norm1"@ + ".weight"@ =~= "norm1.weight"@);
    assert("norm1"@ + ".bias"@ =~= "norm1.bias"@);
    assert("norm2"@ + ".weight"@ =~= "norm2.weight"@);
    assert("norm2"@ + ".bias"@ =~= "norm2.bias"@);
}

/// A marker is scored behind a norm and one hidden layer of the same width; to
/// act is decided on the state and four numbers besides, over 256 values.
pub proof fn scorers_fetch_their_weights(hidden: usize, actions: usize)
    requires
        hidden + 4 <= usize::MAX,
    ensures
        ({
            let scorer = scorer_weights(hidden);
            let action = action_weights(hidden, actions);
            let h = hidden;
            &&& scorer.len() == 6
            &&& weighs(scorer[0], "0.weight"@, seq![h], false)
            &&& weighs(scorer[1], "0.bias"@, seq![h], false)
            &&& weighs(scorer[2], "1.weight"@, seq![h, h], false)
            &&& weighs(scorer[3], "1.bias"@, seq![h], false)
            &&& weighs(scorer[4], "3.weight"@, seq![1usize, h], false)
            &&& weighs(scorer[5], "3.bias"@, seq![1usize], false)
            &&& action.len() == 4
            &&& weighs(action[0], "0.weight"@, seq![256usize, (h + 4) as usize], false)
            &&& weighs(action[1], "0.bias"@, seq![256usize], false)
            &&& weighs(action[2], "2.weight"@, seq![actions, 256usize], false)
            &&& weighs(action[3], "2.bias"@, seq![actions], false)
        }),
{
    reveal_strlit(".weight");
    reveal_strlit(".bias");
    reveal_strlit("0");
    reveal_strlit("1");
    reveal_strlit("2");
    reveal_strlit("3");
    reveal_strlit("0.weight");
    reveal_strlit("0.bias");
    reveal_strlit("1.weight");
    reveal_strlit("1.bias");
    reveal_strlit("2.weight");
    reveal_strlit("2.bias");
    reveal_strlit("3.weight");
    reveal_strlit("3.bias");
    assert("0"@ + ".weight"@ =~= "0.weight"@);
    assert("0"@ + ".bias"@ =~= "0.bias"@);
    assert("1"@ + ".weight"@ =~= "1.weight"@);
    assert("1"@ + ".bias"@ =~= "1.bias"@);
    assert("2"@ + ".weight"@ =~= "2.weight"@);
    assert("2"@ + ".bias"@ =~= "2.bias"@);
    assert("3"@ + ".weight"@ =~= "3.weight"@);
    assert("3"@ + ".bias"@ =~= "3.bias"@);
}

/// The scores of the options stay as they are; every slot behind them gets the
/// pattern of -10000.
pub proof fn only_unused_slots_are_masked(logits: Seq<Float>, option_count: int, i: int)
    requires
        0 <= i < logits.len(),
    ensures
        with_unused(logits, option_count).len() == logits.len(),
        i < option_count ==> with_unused(logits, option_count)[i] == logits[i],
        i >= option_count ==> with_unused(logits, option_count)[i].bits == 0xc61c4000,
{
}

/// The marker in slot `s` of question `b` stands at its place behind the
/// tokens of the questions before.
pub proof fn markers_stand_behind_the_questions_before(
    lens: Seq<usize>,
    marker_pos: Seq<u32>,
    max_markers: int,
    b: int,
    s: int,
)
    requires
        0 <= b < lens.len(),
        0 <= s < max_markers,
    ensures
        marker_place(lens, marker_pos, max_markers, b * max_markers + s) == total(lens, b as nat)
            + marker_pos[b * max_markers + s],
{
    vstd::arithmetic::div_mod::lemma_fundamental_div_mod_converse(
        b * max_markers + s,
        max_markers,
        b,
        s,
    );
    assert(b * max_markers == max_markers * b) by (nonlinear_arith);
}

/// Every token has the kind of its own question.
pub proof fn tokens_have_the_kind_of_their_question(
    kinds: Seq<u32>,
    lens: Seq<usize>,
    n: nat,
    b: int,
    j: int,
)
    requires
        n <= lens.len(),
        0 <= b < n,
        0 <= j < lens[b],
    ensures
        token_kinds(kinds, lens, n).len() == total(lens, n),
        0 <= total(lens, b as nat) + j < token_kinds(kinds, lens, n).len(),
        token_kinds(kinds, lens, n)[total(lens, b as nat) + j] == kinds[b],
    decreases n,
{
    let m = (n - 1) as nat;
    kinds_are_counted(kinds, lens, m);
    if b < m {
        tokens_have_the_kind_of_their_question(kinds, lens, m, b, j);
    }
}

proof fn kinds_are_counted(kinds: Seq<u32>, lens: Seq<usize>, n: nat)
    requires
        n <= lens.len(),
    ensures
        token_kinds(kinds, lens, n).len() == total(lens, n),
    decreases n,
{
    if n > 0 {
        kinds_are_counted(kinds, lens, (n - 1) as nat);
    }
}

/// The probability to act is the first that was read, and zero where none was.
/// As many outputs are read as every list has entries for.
pub proof fn outputs_are_read_side_by_side(row: Seq<Float>, a: nat, b: nat, c: nat)
    ensures
        row.len() > 0 ==> act_probability(row) == row[0],
        row.len() == 0 ==> act_probability(row).bits == 0,
        shortest(a, b, c) <= a,
        shortest(a, b, c) <= b,
        shortest(a, b, c) <= c,
        shortest(a, b, c) == a || shortest(a, b, c) == b || shortest(a, b, c) == c,
{
}

} // verus!
