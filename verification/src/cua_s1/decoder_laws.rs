//! What holds of the text decoder's weights and of the adapter that changes
//! them.
use crate::cua_s1::lora::{
    factor, first_on, module_failure, module_for, part_name, part_of, tensor_failure, unused,
    LoraAdapter, LoraConfig, LoraModule, LoraTensor,
};
use crate::cua_s1::weights::{holds_text, is_text, load_failure, names_text, TextIndex, WeightPlace};
use crate::device::DType;
use crate::error::Failure;
use crate::sorted::{lex, sorted_keys, stands_under};
use crate::text::{after_prefix, before_suffix};
use crate::text_laws::{held_texts_stand_between_others, taken_parts_can_be_put_back};
use vstd::prelude::*;

verus! {

/// The tensor of an adapter that is a factor of the change of a module.
pub open spec fn factor_name(module: Seq<char>, first: bool) -> Seq<char> {
    if first {
        "base_model.model.model.layers."@ + module + ".lora_A.weight"@
    } else {
        "base_model.model.model.layers."@ + module + ".lora_B.weight"@
    }
}

/// A factor is known by its name, which holds the module's; the weight that
/// the module changes is known by the same name under the language model. No
/// other tensor is a factor of anything.
pub proof fn factors_are_known_by_their_modules(module: Seq<char>, first: bool, name: Seq<char>)
    ensures
        part_of(factor_name(module, first)) == Some(
            ("model.language_model.layers."@ + module + ".weight"@, first),
        ),
        part_of(name) matches Some(part) ==> exists|m: Seq<char>|
            name == #[trigger] factor_name(m, part.1) && part.0 == "model.language_model.layers."@
                + m + ".weight"@,
{
    let prefix = "base_model.model.model.layers."@;
    let a = ".lora_A.weight"@;
    let b = ".lora_B.weight"@;
    reveal_strlit(".lora_A.weight");
    reveal_strlit(".lora_B.weight");
    let own = factor_name(module, first);
    let tail = if first {
        a
    } else {
        b
    };
    assert(own =~= prefix + (module + tail));
    taken_parts_can_be_put_back(module + tail, prefix);
    taken_parts_can_be_put_back(module, a);
    taken_parts_can_be_put_back(module, b);
    if !first {
        let rest = module + b;
        assert(before_suffix(rest, a) is None) by {
            if before_suffix(rest, a) is Some {
                let n = rest.len() - a.len();
                assert(rest.subrange(n, n + a.len()) == a);
                assert(rest.subrange(n, n + a.len())[6] == a[6]);
                assert(rest[n + 6] == b[6]);
            }
        }
    }
    if let Some(part) = part_of(name) {
        let rest = after_prefix(name, prefix)->0;
        taken_parts_can_be_put_back(name, prefix);
        taken_parts_can_be_put_back(rest, a);
        taken_parts_can_be_put_back(rest, b);
        let (m, _) = part_name(name)->0;
        assert(name =~= factor_name(m, part.1));
    }
}

/// An adapter can be used where it is a plain one: every setting that would
/// make it something else is off, its rank is positive and its scale finite.
pub proof fn plain_adapters_are_accepted(config: &LoraConfig)
    ensures
        config.failure() is None <==> {
            &&& config.peft_type@ == "LORA"@
            &&& config.bias@ == "none"@
            &&& !config.use_dora
            &&& !config.use_rslora
            &&& !config.lora_bias
            &&& !config.fan_in_fan_out
            &&& !config.use_qalora
            &&& !config.rank_pattern
            &&& !config.alpha_pattern
            &&& !config.modules_to_save
            &&& !config.layer_replication
            &&& !config.alora_invocation_tokens
            &&& !config.target_parameters
            &&& !config.trainable_token_indices
            &&& config.r >= 1
            &&& config.lora_alpha.bits < 0x7ff0_0000_0000_0000 || 0x8000_0000_0000_0000
                <= config.lora_alpha.bits < 0xfff0_0000_0000_0000
        },
{
    let s = config.settings();
    if first_on(s) is None {
        nothing_is_on(s);
        assert(!s[0].1 && !s[1].1 && !s[2].1 && !s[3].1 && !s[4].1 && !s[5].1 && !s[6].1);
        assert(!s[7].1 && !s[8].1 && !s[9].1 && !s[10].1 && !s[11].1 && !s[12].1 && !s[13].1);
    } else {
        let k = something_is_on(s);
        assert(s[k].1);
    }
}

proof fn nothing_is_on(settings: Seq<(Seq<char>, bool)>)
    requires
        first_on(settings) is None,
    ensures
        forall|k: int| 0 <= k < settings.len() ==> !(#[trigger] settings[k]).1,
    decreases settings.len(),
{
    if settings.len() > 0 {
        let rest = settings.skip(1);
        nothing_is_on(rest);
        assert forall|k: int| 0 <= k < settings.len() implies !(#[trigger] settings[k]).1 by {
            if k > 0 {
                assert(rest[k - 1] == settings[k]);
            }
        }
    }
}

proof fn something_is_on(settings: Seq<(Seq<char>, bool)>) -> (k: int)
    requires
        first_on(settings) is Some,
    ensures
        0 <= k < settings.len(),
        settings[k].1,
        first_on(settings) == Some(settings[k].0),
        forall|j: int| 0 <= j < k ==> !(#[trigger] settings[j]).1,
    decreases settings.len(),
{
    if settings[0].1 {
        0
    } else {
        let rest = settings.skip(1);
        let j = something_is_on(rest);
        assert(rest[j] == settings[j + 1]);
        assert forall|i: int| 0 <= i < j + 1 implies !(#[trigger] settings[i]).1 by {
            if i > 0 {
                assert(rest[i - 1] == settings[i]);
            }
        }
        j + 1
    }
}

/// Which of the settings that must be off are on.
pub open spec fn switched_on(config: &LoraConfig) -> Seq<bool> {
    seq![
        config.peft_type@ != "LORA"@,
        config.bias@ != "none"@,
        config.use_dora,
        config.use_rslora,
        config.lora_bias,
        config.fan_in_fan_out,
        config.use_qalora,
        config.rank_pattern,
        config.alpha_pattern,
        config.modules_to_save,
        config.layer_replication,
        config.alora_invocation_tokens,
        config.target_parameters,
        config.trainable_token_indices,
    ]
}

/// What these settings are called.
pub open spec fn setting_names() -> Seq<Seq<char>> {
    seq![
        "peft_type"@,
        "bias"@,
        "use_dora"@,
        "use_rslora"@,
        "lora_bias"@,
        "fan_in_fan_out"@,
        "use_qalora"@,
        "rank_pattern"@,
        "alpha_pattern"@,
        "modules_to_save"@,
        "layer_replication"@,
        "alora_invocation_tokens"@,
        "target_parameters"@,
        "trainable_token_indices"@,
    ]
}

proof fn settings_are_listed(config: &LoraConfig, j: int)
    requires
        0 <= j < 14,
    ensures
        config.settings().len() == 14,
        config.settings()[j].0 == setting_names()[j],
        config.settings()[j].1 == switched_on(config)[j],
{
    let s = config.settings();
    let on = switched_on(config);
    let names = setting_names();
    if j == 0 {
        assert(s[0] == (names[0], on[0]));
    } else if j == 1 {
        assert(s[1] == (names[1], on[1]));
    } else if j == 2 {
        assert(s[2] == (names[2], on[2]));
    } else if j == 3 {
        assert(s[3] == (names[3], on[3]));
    } else if j == 4 {
        assert(s[4] == (names[4], on[4]));
    } else if j == 5 {
        assert(s[5] == (names[5], on[5]));
    } else if j == 6 {
        assert(s[6] == (names[6], on[6]));
    } else if j == 7 {
        assert(s[7] == (names[7], on[7]));
    } else if j == 8 {
        assert(s[8] == (names[8], on[8]));
    } else if j == 9 {
        assert(s[9] == (names[9], on[9]));
    } else if j == 10 {
        assert(s[10] == (names[10], on[10]));
    } else if j == 11 {
        assert(s[11] == (names[11], on[11]));
    } else if j == 12 {
        assert(s[12] == (names[12], on[12]));
    } else if j == 13 {
        assert(s[13] == (names[13], on[13]));
    }
}

/// The settings are looked at in this order, and the first that is on is
/// named.
pub proof fn the_first_setting_is_named(config: &LoraConfig) -> (k: int)
    requires
        first_on(config.settings()) is Some,
    ensures
        0 <= k < 14,
        switched_on(config)[k],
        forall|j: int| 0 <= j < k ==> #[trigger] switched_on(config)[j] == false,
        config.failure() == Some(
            Failure::Config("unsupported LoRA setting: "@ + setting_names()[k]),
        ),
{
    let k = something_is_on(config.settings());
    settings_are_listed(config, 0);
    settings_are_listed(config, k);
    assert forall|j: int| 0 <= j < k implies #[trigger] switched_on(config)[j] == false by {
        settings_are_listed(config, j);
    }
    k
}

/// A weight is changed by two factors that the tensors hold, one of each kind:
/// the first has as many rows as the rank, the second as many columns, and the
/// change has the rows of the second and the columns of the first.
pub proof fn changes_have_the_shape_of_their_factors(
    tensors: Seq<LoraTensor>,
    r: usize,
    weight: Seq<char>,
    used: bool,
)
    requires
        tensors.len() <= usize::MAX,
        module_failure(tensors, r, weight) is None,
    ensures
        ({
            let module = module_for(tensors, weight, used);
            &&& module.a < tensors.len()
            &&& module.b < tensors.len()
            &&& part_of(tensors[module.a as int].name@) == Some((weight, true))
            &&& part_of(tensors[module.b as int].name@) == Some((weight, false))
            &&& tensors[module.a as int].dims@ == seq![r, module.columns]
            &&& tensors[module.b as int].dims@ == seq![module.rows, r]
            &&& module.rows > 0
            &&& module.columns > 0
            &&& module.used == used
        }),
{
    factor_is_found(tensors, tensors.len(), weight, true);
    factor_is_found(tensors, tensors.len(), weight, false);
    let module = module_for(tensors, weight, used);
    assert(tensors[module.a as int].dims@ =~= seq![r, module.columns]);
    assert(tensors[module.b as int].dims@ =~= seq![module.rows, r]);
}

/// A factor is found where some tensor is one.
pub proof fn factor_is_found(tensors: Seq<LoraTensor>, n: nat, weight: Seq<char>, first: bool)
    requires
        n <= tensors.len(),
        n <= usize::MAX,
    ensures
        factor(tensors, n, weight, first) matches Some(i) ==> i < n && part_of(
            tensors[i as int].name@,
        ) == Some((weight, first)),
        factor(tensors, n, weight, first) is None <==> forall|i: int|
            0 <= i < n ==> part_of((#[trigger] tensors[i]).name@) != Some((weight, first)),
    decreases n,
{
    if n > 0 {
        factor_is_found(tensors, (n - 1) as nat, weight, first);
    }
}

/// A weight is changed only where it has the shape of the change and holds
/// numbers with a fraction.
pub proof fn changes_fit_the_weight(
    name: Seq<char>,
    dims: Seq<usize>,
    is_float: bool,
    module: LoraModule,
)
    ensures
        LoraAdapter::merge_failure(name, dims, is_float, module) is None <==> dims.len() == 2
            && dims[0] == module.rows && dims[1] == module.columns && is_float,
{
    if dims.len() == 2 && dims[0] == module.rows && dims[1] == module.columns {
        assert(dims =~= seq![module.rows, module.columns]);
    }
}

/// Noting a change marks that change as made, and leaves everything else as it
/// was.
pub proof fn notes_mark_one_change(
    before: Seq<(Seq<char>, LoraModule)>,
    name: Seq<char>,
    after: Seq<(Seq<char>, LoraModule)>,
    k: int,
)
    requires
        sorted_keys(before),
        LoraAdapter::marks(before, name, after),
        0 <= k < before.len(),
    ensures
        after.len() == before.len(),
        after[k].0 == before[k].0,
        after[k].1.a == before[k].1.a,
        after[k].1.b == before[k].1.b,
        after[k].1.rows == before[k].1.rows,
        after[k].1.columns == before[k].1.columns,
        after[k].1.used <==> before[k].1.used || before[k].0 == name,
{
    if exists|j: int| stands_under(before, name, j) {
        let j = choose|j: int|
            {
                let used = LoraModule { used: true, ..before[j].1 };
                &&& #[trigger] stands_under(before, name, j)
                &&& after == before.update(j, (name, used))
            };
        if k != j && before[k].0 == name {
            crate::sorted::lex_irreflexive(name);
            if k < j {
                assert(lex(before[k].0, before[j].0));
            } else {
                assert(lex(before[j].0, before[k].0));
            }
        }
    } else {
        assert(before[k].0 != name) by {
            if before[k].0 == name {
                assert(stands_under(before, name, k));
            }
        }
    }
}

/// What is reported as unused is every weight whose change was not made, and
/// no other, in order.
pub proof fn unused_changes_are_reported_in_order(
    entries: Seq<(Seq<char>, LoraModule)>,
) -> (from: Seq<int>)
    ensures
        from.len() == unused(entries).len(),
        forall|j: int|
            #![trigger from[j]]
            0 <= j < from.len() ==> 0 <= from[j] < entries.len() && !entries[from[j]].1.used
                && unused(entries)[j] == entries[from[j]].0,
        forall|i: int, j: int| 0 <= i < j < from.len() ==> #[trigger] from[i] < #[trigger] from[j],
        forall|k: int|
            0 <= k < entries.len() && !(#[trigger] entries[k]).1.used ==> from.contains(k),
    decreases entries.len(),
{
    if entries.len() == 0 {
        Seq::empty()
    } else {
        let rest = entries.drop_last();
        let before = unused_changes_are_reported_in_order(rest);
        let n = rest.len() as int;
        if entries.last().1.used {
            assert forall|k: int|
                0 <= k < entries.len() && !(#[trigger] entries[k]).1.used implies before.contains(
                k,
            ) by {
                assert(rest[k] == entries[k]);
            }
            assert forall|j: int|
                #![trigger before[j]]
                0 <= j < before.len() implies 0 <= before[j] < entries.len()
                && !entries[before[j]].1.used && unused(entries)[j] == entries[before[j]].0 by {
                assert(rest[before[j]] == entries[before[j]]);
            }
            before
        } else {
            let from = before.push(n);
            assert forall|k: int|
                0 <= k < entries.len() && !(#[trigger] entries[k]).1.used implies from.contains(
                k,
            ) by {
                if k < n {
                    assert(rest[k] == entries[k]);
                    let j = choose|j: int| 0 <= j < before.len() && before[j] == k;
                    assert(from[j] == k);
                } else {
                    assert(from[before.len() as int] == k);
                }
            }
            assert forall|j: int|
                #![trigger from[j]]
                0 <= j < from.len() implies 0 <= from[j] < entries.len()
                && !entries[from[j]].1.used && unused(entries)[j] == entries[from[j]].0 by {
                if j < before.len() {
                    assert(from[j] == before[j]);
                    assert(rest[before[j]] == entries[before[j]]);
                }
            }
            from
        }
    }
}

/// A tensor can be part of an adapter where it is a factor of some module and
/// holds numbers with a fraction.
pub proof fn adapters_are_made_of_factors(t: &LoraTensor)
    ensures
        tensor_failure(t) is None <==> t.is_float && exists|m: Seq<char>, first: bool|
            t.name@ == #[trigger] factor_name(m, first),
{
    factors_are_known_by_their_modules(Seq::empty(), true, t.name@);
    if exists|m: Seq<char>, first: bool| t.name@ == #[trigger] factor_name(m, first) {
        let (m, first) = choose|m: Seq<char>, first: bool|
            t.name@ == #[trigger] factor_name(m, first);
        factors_are_known_by_their_modules(m, first, t.name@);
    }
}

/// The index of a checkpoint names exactly the weights under the language
/// model, and exactly the files that hold one, each once and in alphabetical
/// order.
pub proof fn indices_name_the_language_model(index: &TextIndex, map: Seq<WeightPlace>, k: int)
    requires
        index.indexes(map, map.len() as int),
    ensures
        0 <= k < map.len() && (exists|rest: Seq<char>|
            map[k].name@ == #[trigger] ("model.language_model."@ + rest)) ==> (exists|j: int|
            0 <= j < index.names@.len() && #[trigger] index.names@[j].0 == map[k].name@) && (exists|
            j: int,
        |
            0 <= j < index.shards@.len() && #[trigger] index.shards@[j].0 == map[k].file@),
        0 <= k < index.names@.len() ==> exists|i: int|
            0 <= i < map.len() && (#[trigger] map[i]).name@ == index.names@[k].0 && exists|
                rest: Seq<char>,
            |
                map[i].name@ == #[trigger] ("model.language_model."@ + rest),
        0 <= k < index.shards@.len() ==> exists|i: int|
            0 <= i < map.len() && (#[trigger] map[i]).file@ == index.shards@[k].0 && exists|
                rest: Seq<char>,
            |
                map[i].name@ == #[trigger] ("model.language_model."@ + rest),
        sorted_keys(index.names@),
        sorted_keys(index.shards@),
{
    let prefix = "model.language_model."@;
    let n = map.len() as int;
    let named = |name: Seq<char>| names_text(map, n, name);
    let held = |file: Seq<char>| holds_text(map, n, file);
    if 0 <= k < map.len() {
        held_texts_stand_between_others(map[k].name@, prefix);
        if exists|rest: Seq<char>| map[k].name@ == #[trigger] (prefix + rest) {
            assert(is_text(&map[k]));
            assert(named(map[k].name@));
            assert(held(map[k].file@));
            let j = choose|j: int| stands_under(index.names@, map[k].name@, j);
            assert(index.names@[j].0 == map[k].name@);
            let l = choose|l: int| stands_under(index.shards@, map[k].file@, l);
            assert(index.shards@[l].0 == map[k].file@);
        }
    }
    if 0 <= k < index.names@.len() {
        let name = index.names@[k].0;
        assert(named(name));
        let i = choose|i: int| 0 <= i < n && is_text(#[trigger] &map[i]) && map[i].name@ == name;
        held_texts_stand_between_others(map[i].name@, prefix);
    }
    if 0 <= k < index.shards@.len() {
        let file = index.shards@[k].0;
        assert(held(file));
        let i = choose|i: int| 0 <= i < n && is_text(#[trigger] &map[i]) && map[i].file@ == file;
        held_texts_stand_between_others(map[i].name@, prefix);
    }
}

/// The element types that hold numbers with a fraction.
pub open spec fn holds_fractions(dtype: DType) -> bool {
    ||| dtype is BF16
    ||| dtype is F16
    ||| dtype is F32
    ||| dtype is F64
    ||| dtype is F8E4M3
    ||| dtype is F6E2M3
    ||| dtype is F6E3M2
    ||| dtype is F4
    ||| dtype is F8E8M0
}

/// Weights are loaded as numbers with a fraction, from a checkpoint that has
/// some under the language model.
pub proof fn weights_are_loaded_from_text_checkpoints(map: Seq<WeightPlace>, dtype: DType)
    ensures
        load_failure(map, dtype) is None <==> {
            &&& holds_fractions(dtype)
            &&& exists|i: int, rest: Seq<char>|
                0 <= i < map.len() && (#[trigger] map[i]).name@ == #[trigger] (
                "model.language_model."@ + rest)
        },
        !holds_fractions(dtype) ==> load_failure(map, dtype) == Some(
            Failure::Config("Qwen3.5 text weights require a floating-point dtype"@),
        ),
        holds_fractions(dtype) && load_failure(map, dtype) is Some ==> load_failure(map, dtype) == Some(
            Failure::Config("checkpoint index contains no Qwen3.5 text weights"@),
        ),
{
    let prefix = "model.language_model."@;
    if exists|i: int| 0 <= i < map.len() && is_text(#[trigger] &map[i]) {
        let i = choose|i: int| 0 <= i < map.len() && is_text(#[trigger] &map[i]);
        held_texts_stand_between_others(map[i].name@, prefix);
        let rest = choose|rest: Seq<char>| map[i].name@ == #[trigger] (prefix + rest);
        assert(map[i].name@ == prefix + rest);
    }
    if exists|i: int, rest: Seq<char>|
        0 <= i < map.len() && (#[trigger] map[i]).name@ == #[trigger] (prefix + rest) {
        let (i, rest) = choose|i: int, rest: Seq<char>|
            0 <= i < map.len() && (#[trigger] map[i]).name@ == #[trigger] (prefix + rest);
        held_texts_stand_between_others(map[i].name@, prefix);
        assert(is_text(&map[i]));
    }
}

} // verus!
