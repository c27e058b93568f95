//! Which weights of a checkpoint belong to the text decoder, and which of
//! them an adapter changes.
use crate::cua_s1::lora::{LoraAdapter, LoraModule};
use crate::device::DType;
use crate::error::{config_error, Failure, SystemOneError};
use crate::sorted::{stands_under, Sorted};
use crate::text::{begins_with, starts_with};
use vstd::prelude::*;
use vstd::string::StringExecFns;

verus! {

/// What the names of the text decoder's weights begin with.
pub const TEXT_PREFIX: &'static str = "model.language_model.";

/// One weight of a checkpoint and the file that holds it.
#[derive(Debug)]
pub struct WeightPlace {
    pub name: String,
    pub file: String,
}

/// The weight belongs to the text decoder.
pub open spec fn is_text(place: &WeightPlace) -> bool {
    starts_with(place.name@, TEXT_PREFIX@)
}

/// Some text weight of the first `n` has this name.
pub open spec fn names_text(map: Seq<WeightPlace>, n: int, name: Seq<char>) -> bool {
    exists|i: int| 0 <= i < n && is_text(#[trigger] &map[i]) && map[i].name@ == name
}

/// Some text weight of the first `n` stands in this file.
pub open spec fn holds_text(map: Seq<WeightPlace>, n: int, file: Seq<char>) -> bool {
    exists|i: int| 0 <= i < n && is_text(#[trigger] &map[i]) && map[i].file@ == file
}

/// A set of texts in alphabetical order.
pub type TextSet = Sorted<()>;

/// Puts a text into a set.
fn put_in(set: &mut TextSet, text: &str)
    requires
        old(set).wf(),
    ensures
        final(set).wf(),
        forall|k: int|
            #![trigger final(set)@[k]]
            0 <= k < final(set)@.len() ==> final(set)@[k].0 == text@ || exists|j: int|
                stands_under(old(set)@, final(set)@[k].0, j),
        exists|k: int| stands_under(final(set)@, text@, k),
        forall|other: Seq<char>, j: int|
            #[trigger] stands_under(old(set)@, other, j) ==> exists|k: int|
                stands_under(final(set)@, other, k),
{
    match set.find(text) {
        Ok(at) => {
            proof {
                assert forall|k: int|
                    #![trigger set@[k]]
                    0 <= k < set@.len() implies set@[k].0 == text@ || exists|j: int|
                    stands_under(set@, set@[k].0, j) by {
                    assert(stands_under(set@, set@[k].0, k));
                }
            }
        },
        Err(at) => {
            let ghost before = set@;
            set.insert_at(at, text.to_owned(), ());
            proof {
                let after = set@;
                assert(stands_under(after, text@, at as int));
                assert forall|k: int|
                    #![trigger after[k]]
                    0 <= k < after.len() implies after[k].0 == text@ || exists|j: int|
                    stands_under(before, after[k].0, j) by {
                    if k != at {
                        let j = if k < at {
                            k
                        } else {
                            k - 1
                        };
                        assert(after[k] == before[j]);
                        assert(stands_under(before, after[k].0, j));
                    }
                }
                assert forall|other: Seq<char>, j: int|
                    #[trigger] stands_under(before, other, j) implies exists|k: int|
                    stands_under(after, other, k) by {
                    let k = if j < at {
                        j
                    } else {
                        j + 1
                    };
                    assert(after[k] == before[j]);
                    assert(stands_under(after, other, k));
                }
            }
        },
    }
}

/// The set holds exactly the texts of which `member` is true.
pub open spec fn is_set_of(set: Seq<(Seq<char>, ())>, member: spec_fn(Seq<char>) -> bool) -> bool {
    &&& forall|k: int| 0 <= k < set.len() ==> member((#[trigger] set[k]).0)
    &&& forall|text: Seq<char>| #[trigger] member(text) ==> exists|k: int| stands_under(set, text, k)
}

/// The text weights of a checkpoint and the files that hold them.
pub struct TextIndex {
    pub names: TextSet,
    pub shards: TextSet,
}

impl TextIndex {
    /// The index of the first `n` weights.
    pub open spec fn indexes(&self, map: Seq<WeightPlace>, n: int) -> bool {
        &&& self.names.wf()
        &&& self.shards.wf()
        &&& is_set_of(self.names@, |name: Seq<char>| names_text(map, n, name))
        &&& is_set_of(self.shards@, |file: Seq<char>| holds_text(map, n, file))
    }

    /// Picks the text weights out of a checkpoint.
    pub fn new(map: &Vec<WeightPlace>) -> (index: Self)
        ensures
            index.indexes(map@, map@.len() as int),
    {
        let mut names: TextSet = Sorted::new();
        let mut shards: TextSet = Sorted::new();
        let mut i: usize = 0;
        while i < map.len()
            invariant
                i <= map.len(),
                (TextIndex { names, shards }).indexes(map@, i as int),
            decreases map.len() - i,
        {
            let place = &map[i];
            let ghost old_names = names@;
            let ghost old_shards = shards@;
            let ghost named = |name: Seq<char>| names_text(map@, i as int, name);
            let ghost held = |file: Seq<char>| holds_text(map@, i as int, file);
            let ghost named_next = |name: Seq<char>| names_text(map@, i + 1, name);
            let ghost held_next = |file: Seq<char>| holds_text(map@, i + 1, file);
            assert(is_set_of(old_names, named));
            assert(is_set_of(old_shards, held));
            if begins_with(place.name.as_str(), TEXT_PREFIX) {
                assert(is_text(&map@[i as int]));
                put_in(&mut names, place.name.as_str());
                put_in(&mut shards, place.file.as_str());
                proof {
                    assert forall|k: int| 0 <= k < names@.len() implies named_next(
                        (#[trigger] names@[k]).0,
                    ) by {
                        if names@[k].0 != place.name@ {
                            let j = choose|j: int| stands_under(old_names, names@[k].0, j);
                            assert(stands_under(old_names, names@[k].0, j));
                            assert(named(old_names[j].0));
                        }
                    }
                    assert forall|text: Seq<char>| #[trigger] named_next(text) implies exists|
                        k: int,
                    | stands_under(names@, text, k) by {
                        if text != place.name@ {
                            assert(named(text));
                            let j = choose|j: int| stands_under(old_names, text, j);
                            assert(stands_under(old_names, text, j));
                        }
                    }
                    assert forall|k: int| 0 <= k < shards@.len() implies held_next(
                        (#[trigger] shards@[k]).0,
                    ) by {
                        if shards@[k].0 != place.file@ {
                            let j = choose|j: int| stands_under(old_shards, shards@[k].0, j);
                            assert(stands_under(old_shards, shards@[k].0, j));
                            assert(held(old_shards[j].0));
                        }
                    }
                    assert forall|text: Seq<char>| #[trigger] held_next(text) implies exists|k: int|
                        stands_under(shards@, text, k) by {
                        if text != place.file@ {
                            assert(held(text));
                            let j = choose|j: int| stands_under(old_shards, text, j);
                            assert(stands_under(old_shards, text, j));
                        }
                    }
                }
            } else {
                proof {
                    assert forall|text: Seq<char>| named_next(text) == #[trigger] named(text) by {}
                    assert forall|text: Seq<char>| held_next(text) == #[trigger] held(text) by {}
                    assert forall|k: int| 0 <= k < names@.len() implies named_next(
                        (#[trigger] names@[k]).0,
                    ) by {
                        assert(named(names@[k].0));
                    }
                    assert forall|text: Seq<char>| #[trigger] named_next(text) implies exists|
                        k: int,
                    | stands_under(names@, text, k) by {
                        assert(named(text));
                    }
                    assert forall|k: int| 0 <= k < shards@.len() implies held_next(
                        (#[trigger] shards@[k]).0,
                    ) by {
                        assert(held(shards@[k].0));
                    }
                    assert forall|text: Seq<char>| #[trigger] held_next(text) implies exists|k: int|
                        stands_under(shards@, text, k) by {
                        assert(held(text));
                    }
                }
            }
            assert(is_set_of(names@, named_next));
            assert(is_set_of(shards@, held_next));
            i += 1;
        }
        TextIndex { names, shards }
    }
}

/// The text decoder's weights, with the adapter that changes them.
pub struct TextWeights {
    pub index: TextIndex,
    pub adapter: Option<LoraAdapter>,
    pub dtype: DType,
}

/// Why the weights of a checkpoint cannot be loaded.
pub open spec fn load_failure(map: Seq<WeightPlace>, dtype: DType) -> Option<Failure> {
    if !dtype.float() {
        Some(Failure::Config("Qwen3.5 text weights require a floating-point dtype"@))
    } else if !(exists|i: int| 0 <= i < map.len() && is_text(#[trigger] &map[i])) {
        Some(Failure::Config("checkpoint index contains no Qwen3.5 text weights"@))
    } else {
        None
    }
}

impl TextWeights {
    /// The tables stand in alphabetical order.
    pub open spec fn wf(&self) -> bool {
        &&& self.index.names.wf()
        &&& self.index.shards.wf()
        &&& self.adapter matches Some(a) ==> a.wf()
    }

    /// The weight is one of the text decoder's.
    pub open spec fn knows(&self, name: Seq<char>) -> bool {
        exists|k: int| stands_under(self.index.names@, name, k)
    }

    /// Takes up the text weights of a checkpoint.
    pub fn load(map: &Vec<WeightPlace>, adapter: Option<LoraAdapter>, dtype: DType) -> (result:
        Result<Self, SystemOneError>)
        requires
            adapter matches Some(a) ==> a.wf(),
        ensures
            match result {
                Ok(weights) => {
                    &&& load_failure(map@, dtype) is None
                    &&& weights.wf()
                    &&& weights.index.indexes(map@, map@.len() as int)
                    &&& weights.adapter == adapter
                    &&& weights.dtype == dtype
                },
                Err(e) => load_failure(map@, dtype) == Some(e@),
            },
    {
        if !dtype.is_float() {
            return Err(config_error("Qwen3.5 text weights require a floating-point dtype"));
        }
        let index = TextIndex::new(map);
        let ghost named = |name: Seq<char>| names_text(map@, map@.len() as int, name);
        assert(is_set_of(index.names@, named));
        if index.names.len() == 0 {
            proof {
                if exists|i: int| 0 <= i < map@.len() && is_text(#[trigger] &map@[i]) {
                    let i = choose|i: int| 0 <= i < map@.len() && is_text(#[trigger] &map@[i]);
                    assert(named(map@[i].name@));
                    let k = choose|k: int| stands_under(index.names@, map@[i].name@, k);
                    assert(stands_under(index.names@, map@[i].name@, k));
                }
            }
            return Err(config_error("checkpoint index contains no Qwen3.5 text weights"));
        }
        assert(named(index.names@[0].0));
        Ok(TextWeights { index, adapter, dtype })
    }

    /// Why a weight cannot be fetched.
    pub open spec fn missing(name: Seq<char>) -> Failure {
        Failure::Config("weight is not in the text checkpoint index: "@ + name)
    }

    /// Whether a weight can be fetched by its full name.
    pub fn tensor(&self, name: &str) -> (result: Result<(), SystemOneError>)
        requires
            self.wf(),
        ensures
            match result {
                Ok(_) => self.knows(name@),
                Err(e) => !self.knows(name@) && e@ == Self::missing(name@),
            },
    {
        match self.index.names.find(name) {
            Ok(at) => {
                assert(stands_under(self.index.names@, name@, at as int));
                Ok(())
            },
            Err(_) => {
                let mut message = "weight is not in the text checkpoint index: ".to_owned();
                message.append(name);
                Err(config_error(message.as_str()))
            },
        }
    }

    /// The change that an adapter makes to a weight of this shape, if any.
    /// Without one the weight stays as it is. Once the change was made,
    /// `merged` notes it.
    pub fn linear_weight(&self, name: &str, dims: &Vec<usize>, is_float: bool) -> (result: Result<
        Option<LoraModule>,
        SystemOneError,
    >)
        requires
            self.wf(),
        ensures
            !self.knows(name@) ==> result is Err && result->Err_0@ == Self::missing(name@),
            self.knows(name@) ==> match self.adapter {
                None => result == Ok::<Option<LoraModule>, SystemOneError>(None),
                Some(adapter) => match result {
                    Ok(None) => forall|k: int|
                        !#[trigger] stands_under(adapter.modules@, name@, k),
                    Ok(Some(module)) => exists|k: int|
                        {
                            &&& #[trigger] stands_under(adapter.modules@, name@, k)
                            &&& module == adapter.modules@[k].1
                            &&& LoraAdapter::merge_failure(name@, dims@, is_float, module) is None
                        },
                    Err(e) => exists|k: int| #[trigger]
                        stands_under(adapter.modules@, name@, k) && LoraAdapter::merge_failure(
                            name@,
                            dims@,
                            is_float,
                            adapter.modules@[k].1,
                        ) == Some(e@),
                },
            },
    {
        match self.tensor(name) {
            Ok(_) => {},
            Err(e) => {
                return Err(e);
            },
        }
        match &self.adapter {
            Some(adapter) => adapter.merge(name, dims, is_float),
            None => Ok(None),
        }
    }

    /// Notes that the change to a weight was made.
    pub fn merged(&mut self, name: &str)
        requires
            old(self).wf(),
        ensures
            final(self).wf(),
            final(self).index == old(self).index,
            final(self).dtype == old(self).dtype,
            match old(self).adapter {
                None => final(self).adapter is None,
                Some(before) => final(self).adapter matches Some(after) && LoraAdapter::marks(
                    before.modules@,
                    name@,
                    after.modules@,
                ),
            },
    {
        match &mut self.adapter {
            Some(adapter) => adapter.merged(name),
            None => {},
        }
    }

    /// Reports the changes of the adapter that were not made.
    pub fn check_all_used(&self) -> (result: Result<(), SystemOneError>)
        ensures
            match self.adapter {
                None => result is Ok,
                Some(adapter) => match result {
                    Ok(_) => crate::cua_s1::lora::unused(adapter.modules@).len() == 0,
                    Err(e) => {
                        let names = crate::cua_s1::lora::unused(adapter.modules@);
                        &&& names.len() > 0
                        &&& e@ == Failure::Config(
                            "unused LoRA modules ("@ + crate::text::decimal(names.len()) + "): "@
                                + crate::text::joined_texts(names, ", "@),
                        )
                    },
                },
            },
    {
        match &self.adapter {
            Some(adapter) => adapter.check_all_used(),
            None => Ok(()),
        }
    }
}

} // verus!
