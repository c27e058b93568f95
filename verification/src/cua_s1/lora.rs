//! Low-rank adapters: which tensors make up a module, and which weight each
//! module changes.
use crate::error::{config_error, Failure, SystemOneError};
use crate::score::Double;
use crate::sorted::{lex, sorted_keys, stands_under, Sorted};
use crate::text::{
    after_prefix, before_suffix, decimal, decimal_text, join_texts, joined_texts, list_text, same, texts,
    without_prefix, without_suffix, write_list,
};
use vstd::prelude::*;
use vstd::string::StringExecFns;

verus! {

/// The settings of an adapter.
#[derive(Debug)]
pub struct LoraConfig {
    pub peft_type: String,
    pub r: usize,
    pub lora_alpha: Double,
    pub bias: String,
    pub use_dora: bool,
    pub use_rslora: bool,
    pub lora_bias: bool,
    pub fan_in_fan_out: bool,
    pub use_qalora: bool,
    /// Whether ranks differ between modules.
    pub rank_pattern: bool,
    /// Whether scales differ between modules.
    pub alpha_pattern: bool,
    /// Whether whole modules are saved.
    pub modules_to_save: bool,
    /// Whether layers are replicated.
    pub layer_replication: bool,
    /// Whether tokens invoke the adapter.
    pub alora_invocation_tokens: bool,
    /// Whether single parameters are adapted.
    pub target_parameters: bool,
    /// Whether token embeddings are trained.
    pub trainable_token_indices: bool,
}

impl LoraConfig {
    /// Every setting that must be off, in the order in which they are looked
    /// at, and whether it is on.
    pub open spec fn settings(&self) -> Seq<(Seq<char>, bool)> {
        seq![
            ("peft_type"@, self.peft_type@ != "LORA"@),
            ("bias"@, self.bias@ != "none"@),
            ("use_dora"@, self.use_dora),
            ("use_rslora"@, self.use_rslora),
            ("lora_bias"@, self.lora_bias),
            ("fan_in_fan_out"@, self.fan_in_fan_out),
            ("use_qalora"@, self.use_qalora),
            ("rank_pattern"@, self.rank_pattern),
            ("alpha_pattern"@, self.alpha_pattern),
            ("modules_to_save"@, self.modules_to_save),
            ("layer_replication"@, self.layer_replication),
            ("alora_invocation_tokens"@, self.alora_invocation_tokens),
            ("target_parameters"@, self.target_parameters),
            ("trainable_token_indices"@, self.trainable_token_indices),
        ]
    }

    /// Why an adapter with these settings cannot be used.
    pub open spec fn failure(&self) -> Option<Failure> {
        match first_on(self.settings()) {
            Some(setting) => Some(Failure::Config("unsupported LoRA setting: "@ + setting)),
            None => if self.r == 0 || !self.lora_alpha.finite() {
                Some(Failure::Config("LoRA requires a positive r and finite lora_alpha"@))
            } else {
                None
            },
        }
    }

    /// Accepts the settings of an adapter.
    pub fn check(&self) -> (result: Result<(), SystemOneError>)
        ensures
            match result {
                Ok(_) => self.failure() is None,
                Err(e) => self.failure() == Some(e@),
            },
    {
        let settings: Vec<(&'static str, bool)> = vec![
            ("peft_type", !same(self.peft_type.as_str(), "LORA")),
            ("bias", !same(self.bias.as_str(), "none")),
            ("use_dora", self.use_dora),
            ("use_rslora", self.use_rslora),
            ("lora_bias", self.lora_bias),
            ("fan_in_fan_out", self.fan_in_fan_out),
            ("use_qalora", self.use_qalora),
            ("rank_pattern", self.rank_pattern),
            ("alpha_pattern", self.alpha_pattern),
            ("modules_to_save", self.modules_to_save),
            ("layer_replication", self.layer_replication),
            ("alora_invocation_tokens", self.alora_invocation_tokens),
            ("target_parameters", self.target_parameters),
            ("trainable_token_indices", self.trainable_token_indices),
        ];
        let ghost all = self.settings();
        assert(settings@.map_values(|s: (&'static str, bool)| (s.0@, s.1)) =~= all);
        let mut i: usize = 0;
        assert(all.skip(0) =~= all);
        while i < settings.len()
            invariant
                i <= settings.len(),
                all == self.settings(),
                settings@.map_values(|s: (&'static str, bool)| (s.0@, s.1)) == all,
                first_on(all) == first_on(all.skip(i as int)),
            decreases settings.len() - i,
        {
            assert(all[i as int] == settings@.map_values(
                |s: (&'static str, bool)| (s.0@, s.1),
            )[i as int]);
            assert(all.skip(i as int)[0] == all[i as int]);
            assert(all.skip(i as int).skip(1) =~= all.skip(i + 1));
            if settings[i].1 {
                let mut message = "unsupported LoRA setting: ".to_owned();
                message.append(settings[i].0);
                return Err(config_error(message.as_str()));
            }
            i += 1;
        }
        if self.r == 0 || !self.lora_alpha.is_finite() {
            return Err(config_error("LoRA requires a positive r and finite lora_alpha"));
        }
        Ok(())
    }
}

/// The first setting that is on.
pub open spec fn first_on(settings: Seq<(Seq<char>, bool)>) -> Option<Seq<char>>
    decreases settings.len(),
{
    if settings.len() == 0 {
        None
    } else if settings[0].1 {
        Some(settings[0].0)
    } else {
        first_on(settings.skip(1))
    }
}

/// A tensor of an adapter.
#[derive(Debug)]
pub struct LoraTensor {
    pub name: String,
    pub dims: Vec<usize>,
    pub is_float: bool,
}

/// The module that a tensor belongs to, and whether it is the module's first
/// factor.
pub open spec fn part_name(name: Seq<char>) -> Option<(Seq<char>, bool)> {
    match after_prefix(name, "base_model.model.model.layers."@) {
        None => None,
        Some(rest) => match before_suffix(rest, ".lora_A.weight"@) {
            Some(module) => Some((module, true)),
            None => match before_suffix(rest, ".lora_B.weight"@) {
                Some(module) => Some((module, false)),
                None => None,
            },
        },
    }
}

/// The weight that a module changes.
pub open spec fn weight_name(module: Seq<char>) -> Seq<char> {
    "model.language_model.layers."@ + module + ".weight"@
}

/// The weight that a tensor takes part in changing, and whether it is the
/// first factor.
pub open spec fn part_of(name: Seq<char>) -> Option<(Seq<char>, bool)> {
    match part_name(name) {
        Some(part) => Some((weight_name(part.0), part.1)),
        None => None,
    }
}

/// The part as a sequence.
pub open spec fn part_view(part: Option<(String, bool)>) -> Option<(Seq<char>, bool)> {
    match part {
        Some(p) => Some((p.0@, p.1)),
        None => None,
    }
}

/// Reads which weight a tensor takes part in changing.
pub fn read_part(name: &str) -> (part: Option<(String, bool)>)
    ensures
        part_view(part) == part_of(name@),
{
    let rest = match without_prefix(name, "base_model.model.model.layers.") {
        Some(rest) => rest,
        None => {
            return None;
        },
    };
    let (module, first) = match without_suffix(rest.as_str(), ".lora_A.weight") {
        Some(module) => (module, true),
        None => match without_suffix(rest.as_str(), ".lora_B.weight") {
            Some(module) => (module, false),
            None => {
                return None;
            },
        },
    };
    let mut weight = "model.language_model.layers.".to_owned();
    weight.append(module.as_str());
    weight.append(".weight");
    Some((weight, first))
}

/// Why a tensor cannot be part of an adapter.
pub open spec fn tensor_failure(t: &LoraTensor) -> Option<Failure> {
    if part_of(t.name@) is None {
        Some(Failure::Config("unsupported LoRA tensor name: "@ + t.name@))
    } else if !t.is_float {
        Some(Failure::Config("LoRA tensor must be floating point: "@ + t.name@))
    } else {
        None
    }
}

/// The last of the first `n` tensors that is this factor of the change of
/// `weight`.
pub open spec fn factor(
    tensors: Seq<LoraTensor>,
    n: nat,
    weight: Seq<char>,
    first: bool,
) -> Option<usize>
    decreases n,
{
    if n == 0 {
        None
    } else if part_of(tensors[n - 1].name@) == Some((weight, first)) {
        Some((n - 1) as usize)
    } else {
        factor(tensors, (n - 1) as nat, weight, first)
    }
}

/// A factor is one of the tensors.
proof fn factor_in_range(tensors: Seq<LoraTensor>, n: nat, weight: Seq<char>, first: bool)
    requires
        n <= usize::MAX,
    ensures
        factor(tensors, n, weight, first) matches Some(i) ==> i < n && part_of(
            tensors[i as int].name@,
        ) == Some((weight, first)),
    decreases n,
{
    if n > 0 {
        factor_in_range(tensors, (n - 1) as nat, weight, first);
    }
}

/// The factors fit each other and the rank: `r` rows in the first, `r`
/// columns in the second, and neither without the other dimension.
pub open spec fn factors_fit(a: Seq<usize>, b: Seq<usize>, r: usize) -> bool {
    a.len() == 2 && b.len() == 2 && a[0] == r && b[1] == r && a[1] != 0 && b[0] != 0
}

/// Why the factors of the change of `weight` cannot be used.
pub open spec fn module_failure(tensors: Seq<LoraTensor>, r: usize, weight: Seq<char>) -> Option<
    Failure,
> {
    let n = tensors.len();
    match (factor(tensors, n, weight, true), factor(tensors, n, weight, false)) {
        (Some(a), Some(b)) => {
            let a_dims = tensors[a as int].dims@;
            let b_dims = tensors[b as int].dims@;
            if factors_fit(a_dims, b_dims, r) {
                None
            } else {
                Some(
                    Failure::Config(
                        "LoRA shape mismatch for "@ + weight + ": A "@ + list_text(a_dims) + ", B "@
                            + list_text(b_dims) + ", r "@ + decimal(r as nat),
                    ),
                )
            }
        },
        _ => Some(Failure::Config("LoRA module requires both A and B: "@ + weight)),
    }
}

/// Some tensor takes part in changing `weight`.
pub open spec fn is_changed(tensors: Seq<LoraTensor>, n: nat, weight: Seq<char>) -> bool {
    factor(tensors, n, weight, true) is Some || factor(tensors, n, weight, false) is Some
}

/// The factors that were found among the first `n` tensors.
pub open spec fn pairs_up(
    tensors: Seq<LoraTensor>,
    n: nat,
    pairs: Seq<(Seq<char>, (Option<usize>, Option<usize>))>,
) -> bool {
    &&& forall|k: int|
        0 <= k < pairs.len() ==> (#[trigger] pairs[k]).1.0 == factor(
            tensors,
            n,
            pairs[k].0,
            true,
        ) && pairs[k].1.1 == factor(tensors, n, pairs[k].0, false)
    &&& forall|k: int| 0 <= k < pairs.len() ==> is_changed(tensors, n, (#[trigger] pairs[k]).0)
    &&& forall|weight: Seq<char>|
        #[trigger] is_changed(tensors, n, weight) ==> exists|k: int|
            stands_under(pairs, weight, k)
}

/// One low-rank change of a weight.
#[derive(Clone, Copy, Debug, PartialEq, Eq, Structural)]
pub struct LoraModule {
    /// The tensor that is the first factor.
    pub a: usize,
    /// The tensor that is the second factor.
    pub b: usize,
    /// The shape of the weight that is changed.
    pub rows: usize,
    pub columns: usize,
    /// Whether the change was made.
    pub used: bool,
}

/// Low-rank changes under the names of the weights that they change.
pub struct LoraAdapter {
    pub modules: Sorted<LoraModule>,
}

/// The module that changes `weight`.
pub open spec fn module_for(tensors: Seq<LoraTensor>, weight: Seq<char>, used: bool) -> LoraModule {
    let n = tensors.len();
    let a = factor(tensors, n, weight, true)->0;
    let b = factor(tensors, n, weight, false)->0;
    LoraModule {
        a,
        b,
        rows: tensors[b as int].dims@[0],
        columns: tensors[a as int].dims@[1],
        used,
    }
}

/// A weight whose change has no fault comes before `weight`, where both are
/// changed.
pub open spec fn first_fault(tensors: Seq<LoraTensor>, r: usize, weight: Seq<char>) -> bool {
    &&& is_changed(tensors, tensors.len(), weight)
    &&& module_failure(tensors, r, weight) is Some
    &&& forall|other: Seq<char>|
        #[trigger] is_changed(tensors, tensors.len(), other) && lex(other, weight)
            ==> module_failure(tensors, r, other) is None
}

/// The first tensor that cannot be part of an adapter.
pub open spec fn first_bad(tensors: Seq<LoraTensor>, i: int) -> bool {
    &&& 0 <= i < tensors.len()
    &&& tensor_failure(&tensors[i]) is Some
    &&& forall|k: int| 0 <= k < i ==> tensor_failure(#[trigger] &tensors[k]) is None
}

/// Writes why factors do not fit.
fn shape_failure(weight: &str, a: &Vec<usize>, b: &Vec<usize>, r: usize) -> (error: SystemOneError)
    ensures
        error@ == Failure::Config(
            "LoRA shape mismatch for "@ + weight@ + ": A "@ + list_text(a@) + ", B "@ + list_text(b@)
                + ", r "@ + decimal(r as nat),
        ),
{
    let mut message = "LoRA shape mismatch for ".to_owned();
    message.append(weight);
    message.append(": A ");
    message.append(write_list(a).as_str());
    message.append(", B ");
    message.append(write_list(b).as_str());
    message.append(", r ");
    message.append(decimal_text(r).as_str());
    config_error(message.as_str())
}

/// Pairs the factors up by the weight that they change.
fn pair_up(tensors: &Vec<LoraTensor>) -> (result: Result<
    Sorted<(Option<usize>, Option<usize>)>,
    SystemOneError,
>)
    ensures
        match result {
            Ok(pairs) => {
                &&& forall|k: int|
                    0 <= k < tensors.len() ==> tensor_failure(#[trigger] &tensors@[k]) is None
                &&& pairs.wf()
                &&& pairs_up(tensors@, tensors@.len(), pairs@)
            },
            Err(e) => exists|i: int| #[trigger]
                first_bad(tensors@, i) && tensor_failure(&tensors@[i]) == Some(e@),
        },
{
    let mut pairs: Sorted<(Option<usize>, Option<usize>)> = Sorted::new();
    let mut i: usize = 0;
    while i < tensors.len()
        invariant
            i <= tensors.len(),
            forall|k: int| 0 <= k < i ==> tensor_failure(#[trigger] &tensors@[k]) is None,
            pairs.wf(),
            pairs_up(tensors@, i as nat, pairs@),
        decreases tensors.len() - i,
    {
        let t = &tensors[i];
        let (weight, first) = match read_part(t.name.as_str()) {
            Some(part) => part,
            None => {
                assert(first_bad(tensors@, i as int));
                let mut message = "unsupported LoRA tensor name: ".to_owned();
                message.append(t.name.as_str());
                return Err(config_error(message.as_str()));
            },
        };
        if !t.is_float {
            assert(first_bad(tensors@, i as int));
            let mut message = "LoRA tensor must be floating point: ".to_owned();
            message.append(t.name.as_str());
            return Err(config_error(message.as_str()));
        }
        assert(tensor_failure(&tensors@[i as int]) is None);
        let ghost before = pairs@;
        let ghost key = weight@;
        let ghost n = i as nat;
        match pairs.find(weight.as_str()) {
            Ok(at) => {
                let (a, b) = *pairs.value(at);
                let pair = if first {
                    (Some(i), b)
                } else {
                    (a, Some(i))
                };
                pairs.set(at, pair);
                proof {
                    pairs_after(tensors@, n, before, pairs@, key, first, at as int);
                }
            },
            Err(at) => {
                let pair: (Option<usize>, Option<usize>) = if first {
                    (Some(i), None)
                } else {
                    (None, Some(i))
                };
                proof {
                    if is_changed(tensors@, n, key) {
                        let k = choose|k: int| stands_under(before, key, k);
                        assert(stands_under(before, key, k));
                    }
                }
                pairs.insert_at(at, weight, pair);
                proof {
                    pairs_after_new(tensors@, n, before, pairs@, key, first, at as int);
                }
            },
        }
        i += 1;
    }
    Ok(pairs)
}

/// A further factor of a change that has one already.
proof fn pairs_after(
    tensors: Seq<LoraTensor>,
    n: nat,
    before: Seq<(Seq<char>, (Option<usize>, Option<usize>))>,
    after: Seq<(Seq<char>, (Option<usize>, Option<usize>))>,
    key: Seq<char>,
    first: bool,
    at: int,
)
    requires
        n < tensors.len() <= usize::MAX,
        sorted_keys(before),
        sorted_keys(after),
        pairs_up(tensors, n, before),
        part_of(tensors[n as int].name@) == Some((key, first)),
        stands_under(before, key, at),
        after == before.update(
            at,
            (
                key,
                if first {
                    (Some(n as usize), before[at].1.1)
                } else {
                    (before[at].1.0, Some(n as usize))
                },
            ),
        ),
    ensures
        pairs_up(tensors, n + 1, after),
{
    assert forall|k: int| 0 <= k < after.len() implies (#[trigger] after[k]).1.0 == factor(
        tensors,
        n + 1,
        after[k].0,
        true,
    ) && after[k].1.1 == factor(tensors, n + 1, after[k].0, false) by {
        if k != at {
            assert(after[k] == before[k]);
            crate::sorted::lex_irreflexive(key);
            if k < at {
                assert(lex(before[k].0, before[at].0));
            } else {
                assert(lex(before[at].0, before[k].0));
            }
        } else {
            assert(before[at].0 == key);
        }
    }
    assert forall|k: int| 0 <= k < after.len() implies is_changed(
        tensors,
        n + 1,
        (#[trigger] after[k]).0,
    ) by {
        assert(after[k].0 == before[k].0);
        assert(is_changed(tensors, n, before[k].0));
    }
    assert forall|weight: Seq<char>| #[trigger] is_changed(tensors, n + 1, weight) implies exists|
        k: int,
    | stands_under(after, weight, k) by {
        if weight == key {
            assert(stands_under(after, weight, at));
        } else {
            assert(is_changed(tensors, n, weight));
            let k = choose|k: int| stands_under(before, weight, k);
            assert(stands_under(after, weight, k));
        }
    }
}

/// The first factor of a change.
proof fn pairs_after_new(
    tensors: Seq<LoraTensor>,
    n: nat,
    before: Seq<(Seq<char>, (Option<usize>, Option<usize>))>,
    after: Seq<(Seq<char>, (Option<usize>, Option<usize>))>,
    key: Seq<char>,
    first: bool,
    at: int,
)
    requires
        n < tensors.len() <= usize::MAX,
        pairs_up(tensors, n, before),
        !is_changed(tensors, n, key),
        part_of(tensors[n as int].name@) == Some((key, first)),
        0 <= at <= before.len(),
        after == before.insert(
            at,
            (
                key,
                if first {
                    (Some(n as usize), None)
                } else {
                    (None, Some(n as usize))
                },
            ),
        ),
    ensures
        pairs_up(tensors, n + 1, after),
{
    assert forall|k: int| 0 <= k < after.len() implies (#[trigger] after[k]).1.0 == factor(
        tensors,
        n + 1,
        after[k].0,
        true,
    ) && after[k].1.1 == factor(tensors, n + 1, after[k].0, false) && is_changed(
        tensors,
        n + 1,
        after[k].0,
    ) by {
        if k != at {
            let j = if k < at {
                k
            } else {
                k - 1
            };
            assert(after[k] == before[j]);
            assert(is_changed(tensors, n, before[j].0));
            assert(before[j].0 != key);
        }
    }
    assert forall|weight: Seq<char>| #[trigger] is_changed(tensors, n + 1, weight) implies exists|
        k: int,
    | stands_under(after, weight, k) by {
        if weight == key {
            assert(stands_under(after, weight, at));
        } else {
            assert(is_changed(tensors, n, weight));
            let k = choose|k: int| stands_under(before, weight, k);
            let j = if k < at {
                k
            } else {
                k + 1
            };
            assert(after[j] == before[k]);
            assert(stands_under(after, weight, j));
        }
    }
}

impl LoraAdapter {
    /// The modules stand in alphabetical order.
    pub open spec fn wf(&self) -> bool {
        self.modules.wf()
    }

    /// Makes an adapter of its tensors: every module needs both factors, and
    /// they have to fit each other and the rank.
    pub fn from_tensors(config: &LoraConfig, tensors: &Vec<LoraTensor>) -> (result: Result<
        Self,
        SystemOneError,
    >)
        ensures
            match result {
                Ok(adapter) => {
                    &&& forall|k: int|
                        0 <= k < tensors.len() ==> tensor_failure(#[trigger] &tensors@[k]) is None
                    &&& tensors@.len() > 0
                    &&& adapter.wf()
                    &&& forall|weight: Seq<char>|
                        #[trigger] is_changed(tensors@, tensors@.len(), weight) ==> exists|k: int|
                            stands_under(adapter.modules@, weight, k)
                    &&& forall|k: int|
                        0 <= k < adapter.modules@.len() ==> ({
                            let (weight, module) = #[trigger] adapter.modules@[k];
                            &&& is_changed(tensors@, tensors@.len(), weight)
                            &&& module_failure(tensors@, config.r, weight) is None
                            &&& module == module_for(tensors@, weight, false)
                        })
                },
                Err(e) => {
                    ||| exists|i: int| #[trigger]
                        first_bad(tensors@, i) && tensor_failure(&tensors@[i]) == Some(e@)
                    ||| tensors@.len() == 0 && e@ == Failure::Config("empty LoRA adapter"@)
                    ||| {
                        &&& forall|k: int|
                            0 <= k < tensors.len() ==> tensor_failure(#[trigger] &tensors@[k]) is None
                        &&& exists|weight: Seq<char>| #[trigger]
                            first_fault(tensors@, config.r, weight) && module_failure(
                                tensors@,
                                config.r,
                                weight,
                            ) == Some(e@)
                    }
                },
            },
    {
        let pairs = match pair_up(tensors) {
            Ok(pairs) => pairs,
            Err(e) => {
                return Err(e);
            },
        };
        let ghost n = tensors@.len();
        if pairs.len() == 0 {
            proof {
                if n > 0 {
                    assert(tensor_failure(&tensors@[n - 1]) is None);
                    let part = part_of(tensors@[n - 1].name@)->0;
                    assert(is_changed(tensors@, n, part.0));
                    let k = choose|k: int| stands_under(pairs@, part.0, k);
                    assert(stands_under(pairs@, part.0, k));
                }
            }
            return Err(config_error("empty LoRA adapter"));
        }
        let mut modules: Sorted<LoraModule> = Sorted::new();
        let mut i: usize = 0;
        while i < pairs.len()
            invariant
                i <= pairs@.len(),
                n == tensors@.len(),
                pairs.wf(),
                pairs_up(tensors@, n, pairs@),
                forall|k: int|
                    0 <= k < tensors.len() ==> tensor_failure(#[trigger] &tensors@[k]) is None,
                modules.wf(),
                modules@.len() == i,
                forall|k: int|
                    0 <= k < i ==> {
                        &&& (#[trigger] modules@[k]).0 == pairs@[k].0
                        &&& module_failure(tensors@, config.r, modules@[k].0) is None
                        &&& modules@[k].1 == module_for(tensors@, modules@[k].0, false)
                    },
            decreases pairs@.len() - i,
        {
            let weight = pairs.key(i);
            let (a, b) = *pairs.value(i);
            proof {
                assert(is_changed(tensors@, n, pairs@[i as int].0));
                assert forall|other: Seq<char>|
                    #[trigger] is_changed(tensors@, n, other) && lex(other, weight@) implies
                    module_failure(tensors@, config.r, other) is None by {
                    let k = choose|k: int| stands_under(pairs@, other, k);
                    assert(stands_under(pairs@, other, k));
                    if k >= i {
                        if k > i {
                            assert(lex(pairs@[i as int].0, pairs@[k].0));
                            crate::sorted::lex_transitive(other, weight@, other);
                        }
                        crate::sorted::lex_irreflexive(other);
                    }
                    assert(modules@[k].0 == pairs@[k].0);
                }
                factor_in_range(tensors@, n, weight@, true);
                factor_in_range(tensors@, n, weight@, false);
            }
            let (a, b) = match (a, b) {
                (Some(a), Some(b)) => (a, b),
                _ => {
                    assert(first_fault(tensors@, config.r, weight@));
                    let mut message = "LoRA module requires both A and B: ".to_owned();
                    message.append(weight);
                    return Err(config_error(message.as_str()));
                },
            };
            let first = &tensors[a].dims;
            let second = &tensors[b].dims;
            if first.len() != 2 || second.len() != 2 || first[0] != config.r || second[1]
                != config.r || first[1] == 0 || second[0] == 0 {
                assert(first_fault(tensors@, config.r, weight@));
                return Err(shape_failure(weight, first, second, config.r));
            }
            let module = LoraModule {
                a,
                b,
                rows: second[0],
                columns: first[1],
                used: false,
            };
            proof {
                assert forall|k: int| 0 <= k < modules@.len() implies lex(
                    (#[trigger] modules@[k]).0,
                    weight@,
                ) by {
                    assert(lex(pairs@[k].0, pairs@[i as int].0));
                }
            }
            let at: usize = modules.len();
            let ghost before = modules@;
            modules.insert_at(at, weight.to_owned(), module);
            assert(modules@ =~= before.push((weight@, module)));
            i += 1;
        }
        proof {
            assert(is_changed(tensors@, n, pairs@[0].0));
            assert(n > 0);
            assert forall|weight: Seq<char>| #[trigger] is_changed(tensors@, n, weight) implies exists|
                k: int,
            | stands_under(modules@, weight, k) by {
                let k = choose|k: int| stands_under(pairs@, weight, k);
                assert(stands_under(pairs@, weight, k));
                assert(modules@[k].0 == pairs@[k].0);
                assert(stands_under(modules@, weight, k));
            }
            assert forall|k: int| 0 <= k < modules@.len() implies is_changed(
                tensors@,
                n,
                (#[trigger] modules@[k]).0,
            ) by {
                assert(modules@[k].0 == pairs@[k].0);
            }
        }
        Ok(LoraAdapter { modules })
    }

    /// How many weights the adapter changes.
    pub fn module_count(&self) -> (n: usize)
        ensures
            n == self.modules@.len(),
    {
        self.modules.len()
    }

    /// Why a weight of this shape and kind cannot be changed by `module`.
    pub open spec fn merge_failure(
        name: Seq<char>,
        dims: Seq<usize>,
        is_float: bool,
        module: LoraModule,
    ) -> Option<Failure> {
        if dims != seq![module.rows, module.columns] {
            Some(
                Failure::Config(
                    "LoRA base shape mismatch for "@ + name + ": expected "@ + list_text(
                        seq![module.rows, module.columns],
                    ) + ", got "@ + list_text(dims),
                ),
            )
        } else if !is_float {
            Some(Failure::Config("LoRA base weight must be floating point: "@ + name))
        } else {
            None
        }
    }

    /// Finds the change that is to be made to a weight. A weight without one
    /// stays as it is. Once the change was made, `merged` notes it.
    pub fn merge(&self, name: &str, dims: &Vec<usize>, is_float: bool) -> (result: Result<
        Option<LoraModule>,
        SystemOneError,
    >)
        requires
            self.wf(),
        ensures
            match result {
                Ok(None) => forall|k: int| !#[trigger] stands_under(self.modules@, name@, k),
                Ok(Some(module)) => exists|k: int|
                    {
                        &&& #[trigger] stands_under(self.modules@, name@, k)
                        &&& module == self.modules@[k].1
                        &&& Self::merge_failure(name@, dims@, is_float, module) is None
                    },
                Err(e) => exists|k: int| #[trigger]
                    stands_under(self.modules@, name@, k) && Self::merge_failure(
                        name@,
                        dims@,
                        is_float,
                        self.modules@[k].1,
                    ) == Some(e@),
            },
    {
        let at = match self.modules.find(name) {
            Ok(at) => at,
            Err(_) => {
                return Ok(None);
            },
        };
        let module = *self.modules.value(at);
        let mut expected: Vec<usize> = Vec::new();
        expected.push(module.rows);
        expected.push(module.columns);
        assert(expected@ =~= seq![module.rows, module.columns]);
        if !crate::tokens::same_numbers(dims, &expected) {
            let mut message = "LoRA base shape mismatch for ".to_owned();
            message.append(name);
            message.append(": expected ");
            message.append(write_list(&expected).as_str());
            message.append(", got ");
            message.append(write_list(dims).as_str());
            return Err(config_error(message.as_str()));
        }
        if !is_float {
            let mut message = "LoRA base weight must be floating point: ".to_owned();
            message.append(name);
            return Err(config_error(message.as_str()));
        }
        Ok(Some(module))
    }

    /// The modules after the change to a weight, if there is one, was made.
    pub open spec fn marks(
        before: Seq<(Seq<char>, LoraModule)>,
        name: Seq<char>,
        after: Seq<(Seq<char>, LoraModule)>,
    ) -> bool {
        if exists|k: int| stands_under(before, name, k) {
            exists|k: int|
                {
                    let used = LoraModule { used: true, ..before[k].1 };
                    &&& #[trigger] stands_under(before, name, k)
                    &&& after == before.update(k, (name, used))
                }
        } else {
            after == before
        }
    }

    /// Notes that the change to a weight was made.
    pub fn merged(&mut self, name: &str)
        requires
            old(self).wf(),
        ensures
            final(self).wf(),
            Self::marks(old(self).modules@, name@, final(self).modules@),
    {
        match self.modules.find(name) {
            Ok(at) => {
                assert(stands_under(self.modules@, name@, at as int));
                let module = *self.modules.value(at);
                self.modules.set(at, LoraModule { used: true, ..module });
            },
            Err(_) => {},
        }
    }

    /// Reports the changes that were not made.
    pub fn check_all_used(&self) -> (result: Result<(), SystemOneError>)
        ensures
            match result {
                Ok(_) => unused(self.modules@).len() == 0,
                Err(e) => {
                    let names = unused(self.modules@);
                    &&& names.len() > 0
                    &&& e@ == Failure::Config(
                        "unused LoRA modules ("@ + decimal(names.len()) + "): "@ + joined_texts(
                            names,
                            ", "@,
                        ),
                    )
                },
            },
    {
        let ghost entries = self.modules@;
        let mut names: Vec<String> = Vec::new();
        let mut i: usize = 0;
        while i < self.modules.len()
            invariant
                i <= entries.len(),
                entries == self.modules@,
                texts(names@) == unused(entries.take(i as int)),
            decreases entries.len() - i,
        {
            let ghost before = names@;
            assert(entries.take(i + 1).drop_last() =~= entries.take(i as int));
            assert(entries.take(i + 1).last() == entries[i as int]);
            if !self.modules.value(i).used {
                let name = self.modules.key(i).to_owned();
                names.push(name);
                assert(texts(names@) =~= texts(before).push(entries[i as int].0));
            }
            i += 1;
        }
        assert(entries.take(entries.len() as int) =~= entries);
        assert(texts(names@).len() == names@.len());
        if names.len() > 0 {
            let mut message = "unused LoRA modules (".to_owned();
            message.append(decimal_text(names.len()).as_str());
            message.append("): ");
            message.append(join_texts(&names, ", ").as_str());
            return Err(config_error(message.as_str()));
        }
        Ok(())
    }
}

/// The weights whose changes were not made.
pub open spec fn unused(entries: Seq<(Seq<char>, LoraModule)>) -> Seq<Seq<char>>
    decreases entries.len(),
{
    if entries.len() == 0 {
        Seq::empty()
    } else {
        let before = unused(entries.drop_last());
        if entries.last().1.used {
            before
        } else {
            before.push(entries.last().0)
        }
    }
}

/// Nothing is reported unused exactly where every change was made.
pub proof fn unused_is_exact(entries: Seq<(Seq<char>, LoraModule)>)
    ensures
        unused(entries).len() == 0 <==> forall|k: int|
            0 <= k < entries.len() ==> (#[trigger] entries[k]).1.used,
    decreases entries.len(),
{
    if entries.len() > 0 {
        let rest = entries.drop_last();
        unused_is_exact(rest);
        assert forall|k: int| 0 <= k < rest.len() implies rest[k] == #[trigger] entries[k] by {}
        if unused(entries).len() == 0 {
            assert forall|k: int| 0 <= k < entries.len() implies (#[trigger] entries[k]).1.used by {
                if k < rest.len() {
                    assert(rest[k].1.used);
                }
            }
        } else if forall|k: int| 0 <= k < entries.len() ==> (#[trigger] entries[k]).1.used {
            assert forall|k: int| 0 <= k < rest.len() implies (#[trigger] rest[k]).1.used by {
                assert(entries[k].1.used);
            }
            assert(entries[entries.len() - 1].1.used);
        }
    }
}

} // verus!
