//! What holds of Cua-S1 prompts.
use crate::cua_s1::prompt::{
    letters_of, may_cut, may_encode, may_encode_within, may_shorten, shortened, Asked, InputView,
    Shortening,
};
use crate::error::Failure;
use crate::text::{occurs_at, starts_with};
use crate::tokens::{decoding, encoding};
use tokenizers::Tokenizer;
use vstd::prelude::*;

verus! {

/// The input asks with `state` in place of the tree, and its tokens are an
/// encoding of that prompt of at most `max_len` tokens.
pub open spec fn asks_with(
    tokenizer: Tokenizer,
    asked: Asked,
    max_len: nat,
    input: InputView,
    state: Seq<char>,
) -> bool {
    &&& starts_with(asked.ax_tree, state)
    &&& input.chat_text == asked.prompt(state)
    &&& encoding(tokenizer, asked.prompt(state), true, Ok(input.input_ids))
    &&& input.input_ids.len() <= max_len
    &&& input.letters == letters_of(asked.options.len())
}

proof fn shortened_inputs_ask(
    tokenizer: Tokenizer,
    asked: Asked,
    full: InputView,
    limits: Shortening,
    kept: nat,
    outcome: Result<(InputView, nat), Failure>,
)
    requires
        kept <= limits.state_ids.len(),
        full.letters == letters_of(asked.options.len()),
        encoding(tokenizer, asked.prompt(Seq::empty()), true, Ok(limits.empty_ids)),
        limits.empty_ids.len() <= limits.max_len,
        may_shorten(tokenizer, asked, full, limits, kept, outcome),
        outcome is Ok,
    ensures
        exists|state: Seq<char>|
            asks_with(tokenizer, asked, limits.max_len, outcome->Ok_0.0, state),
        outcome->Ok_0.1 <= limits.state_ids.len(),
        limits.state_ids.len() - kept <= outcome->Ok_0.1,
    decreases kept,
{
    if kept == 0 {
        assert(occurs_at(asked.ax_tree, Seq::empty(), 0)) by {
            assert(asked.ax_tree.subrange(0, 0) =~= Seq::empty());
        }
        assert(asks_with(tokenizer, asked, limits.max_len, outcome->Ok_0.0, Seq::empty()));
    } else {
        let state = decoding(tokenizer, limits.state_ids.take(kept as int), false)->Ok_0;
        if !starts_with(asked.ax_tree, state) {
            shortened_inputs_ask(tokenizer, asked, full, limits, (kept - 1) as nat, outcome);
        } else {
            let encoded = choose|encoded: Result<Seq<u32>, Seq<char>>|
                #[trigger] encoding(tokenizer, asked.prompt(state), true, encoded) && match encoded {
                    Err(message) => outcome == Err::<(InputView, nat), Failure>(
                        Failure::Tokenizer(message),
                    ),
                    Ok(ids) => if ids.len() <= limits.max_len {
                        outcome == shortened(
                            full,
                            asked,
                            state,
                            ids,
                            limits.state_ids.len() - kept,
                        )
                    } else if ids.len() - limits.max_len >= kept {
                        may_shorten(tokenizer, asked, full, limits, 0, outcome)
                    } else {
                        may_shorten(
                            tokenizer,
                            asked,
                            full,
                            limits,
                            (kept - (ids.len() - limits.max_len)) as nat,
                            outcome,
                        )
                    },
                };
            let ids = encoded->Ok_0;
            if ids.len() <= limits.max_len {
                assert(asks_with(tokenizer, asked, limits.max_len, outcome->Ok_0.0, state));
            } else if ids.len() - limits.max_len >= kept {
                shortened_inputs_ask(tokenizer, asked, full, limits, 0, outcome);
            } else {
                shortened_inputs_ask(
                    tokenizer,
                    asked,
                    full,
                    limits,
                    (kept - (ids.len() - limits.max_len)) as nat,
                    outcome,
                );
            }
        }
    }
}

/// A prompt of bounded length drops nothing but the end of the state: goal,
/// options and letters stay, what is left of the state is a beginning of it,
/// and the whole prompt keeps the bound.
pub proof fn bounded_prompts_drop_only_the_end_of_the_state(
    tokenizer: Tokenizer,
    asked: Asked,
    max_len: nat,
    input: InputView,
    dropped: nat,
)
    requires
        may_encode_within(tokenizer, asked, max_len, Ok((input, dropped))),
    ensures
        exists|state: Seq<char>| asks_with(tokenizer, asked, max_len, input, state),
{
    let outcome: Result<(InputView, nat), Failure> = Ok((input, dropped));
    let built = choose|built: Result<InputView, Failure>|
        #[trigger] may_encode(tokenizer, asked, built) && match built {
            Err(failure) => outcome == Err::<(InputView, nat), Failure>(failure),
            Ok(full) => if full.input_ids.len() <= max_len {
                outcome == Ok::<(InputView, nat), Failure>((full, 0))
            } else {
                may_cut(tokenizer, asked, full, max_len, outcome)
            },
        };
    let full = built->Ok_0;
    if full.input_ids.len() <= max_len {
        assert(occurs_at(asked.ax_tree, asked.ax_tree, 0)) by {
            assert(asked.ax_tree.subrange(0, asked.ax_tree.len() as int) =~= asked.ax_tree);
        }
        assert(asks_with(tokenizer, asked, max_len, input, asked.ax_tree));
    } else {
        let empty = choose|empty: Result<Seq<u32>, Seq<char>>|
            #[trigger] encoding(tokenizer, asked.prompt(Seq::empty()), true, empty) && match empty {
                Err(message) => outcome == Err::<(InputView, nat), Failure>(
                    Failure::Tokenizer(message),
                ),
                Ok(empty_ids) => if empty_ids.len() > max_len {
                    outcome == Err::<(InputView, nat), Failure>(
                        crate::cua_s1::prompt::too_long(
                            asked.task_family,
                            empty_ids.len(),
                            max_len,
                        ),
                    )
                } else {
                    exists|state: Result<Seq<u32>, Seq<char>>|
                        #[trigger] encoding(tokenizer, asked.ax_tree, false, state) && match state {
                            Err(message) => outcome == Err::<(InputView, nat), Failure>(
                                Failure::Tokenizer(message),
                            ),
                            Ok(state_ids) => may_shorten(
                                tokenizer,
                                asked,
                                full,
                                Shortening { state_ids, empty_ids, max_len },
                                if max_len - empty_ids.len() <= state_ids.len() {
                                    (max_len - empty_ids.len()) as nat
                                } else {
                                    state_ids.len()
                                },
                                outcome,
                            ),
                        }
                },
            };
        let empty_ids = empty->Ok_0;
        let state = choose|state: Result<Seq<u32>, Seq<char>>|
            #[trigger] encoding(tokenizer, asked.ax_tree, false, state) && match state {
                Err(message) => outcome == Err::<(InputView, nat), Failure>(
                    Failure::Tokenizer(message),
                ),
                Ok(state_ids) => may_shorten(
                    tokenizer,
                    asked,
                    full,
                    Shortening { state_ids, empty_ids, max_len },
                    if max_len - empty_ids.len() <= state_ids.len() {
                        (max_len - empty_ids.len()) as nat
                    } else {
                        state_ids.len()
                    },
                    outcome,
                ),
            };
        let state_ids = state->Ok_0;
        let kept = if max_len - empty_ids.len() <= state_ids.len() {
            (max_len - empty_ids.len()) as nat
        } else {
            state_ids.len()
        };
        shortened_inputs_ask(
            tokenizer,
            asked,
            full,
            Shortening { state_ids, empty_ids, max_len },
            kept,
            outcome,
        );
    }
}

/// A prompt that fits as it is stays as it is.
pub proof fn short_prompts_stay(
    tokenizer: Tokenizer,
    asked: Asked,
    max_len: nat,
    full: InputView,
)
    requires
        may_encode(tokenizer, asked, Ok(full)),
        full.input_ids.len() <= max_len,
    ensures
        may_encode_within(tokenizer, asked, max_len, Ok((full, 0))),
{
    let built: Result<InputView, Failure> = Ok(full);
    assert(may_encode(tokenizer, asked, built));
}

} // verus!
