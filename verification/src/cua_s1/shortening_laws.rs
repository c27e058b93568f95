//! How much of a state is given up.
use crate::cua_s1::prompt::{
    may_cut, may_encode, may_encode_within, may_shorten, shortened, too_long, Asked, InputView,
    Shortening,
};
use crate::error::Failure;
use crate::text::starts_with;
use crate::tokens::{decoding, encoding};
use tokenizers::Tokenizer;
use vstd::prelude::*;

verus! {

/// The prompt holds what the first `held` tokens of the state stand for, which
/// is a beginning of the state.
pub open spec fn holds_tokens(
    tokenizer: Tokenizer,
    asked: Asked,
    state_ids: Seq<u32>,
    held: int,
    input: InputView,
) -> bool {
    if held == 0 {
        input.chat_text == asked.prompt(Seq::empty())
    } else {
        &&& decoding(tokenizer, state_ids.subrange(0, held), false) is Ok
        &&& starts_with(
            asked.ax_tree,
            decoding(tokenizer, state_ids.subrange(0, held), false)->Ok_0,
        )
        &&& input.chat_text == asked.prompt(
            decoding(tokenizer, state_ids.subrange(0, held), false)->Ok_0,
        )
    }
}

/// What is reported as dropped is what the prompt lacks: the tokens behind
/// those it holds.
pub proof fn dropped_tokens_are_those_that_are_missing(
    tokenizer: Tokenizer,
    asked: Asked,
    full: InputView,
    limits: Shortening,
    kept: nat,
    input: InputView,
    dropped: nat,
)
    requires
        kept <= limits.state_ids.len(),
        may_shorten(tokenizer, asked, full, limits, kept, Ok((input, dropped))),
    ensures
        dropped <= limits.state_ids.len(),
        limits.state_ids.len() - dropped <= kept,
        holds_tokens(tokenizer, asked, limits.state_ids, limits.state_ids.len() - dropped, input),
        dropped < limits.state_ids.len() ==> input.input_ids.len() <= limits.max_len && encoding(
            tokenizer,
            input.chat_text,
            true,
            Ok(input.input_ids),
        ),
        dropped == limits.state_ids.len() ==> input.input_ids == limits.empty_ids,
        input.letters == full.letters,
    decreases kept,
{
    let outcome: Result<(InputView, nat), Failure> = Ok((input, dropped));
    let n = limits.state_ids.len();
    if kept > 0 {
        let beginning = limits.state_ids.take(kept as int);
        assert(beginning =~= limits.state_ids.subrange(0, kept as int));
        let state = decoding(tokenizer, beginning, false)->Ok_0;
        if !starts_with(asked.ax_tree, state) {
            dropped_tokens_are_those_that_are_missing(
                tokenizer,
                asked,
                full,
                limits,
                (kept - 1) as nat,
                input,
                dropped,
            );
        } else {
            let encoded = choose|encoded: Result<Seq<u32>, Seq<char>>|
                #[trigger] encoding(tokenizer, asked.prompt(state), true, encoded) && match encoded {
                    Err(message) => outcome == Err::<(InputView, nat), Failure>(
                        Failure::Tokenizer(message),
                    ),
                    Ok(ids) => if ids.len() <= limits.max_len {
                        outcome == shortened(full, asked, state, ids, n - kept)
                    } else if ids.len() - limits.max_len >= kept {
                        may_shorten(tokenizer, asked, full, limits, 0, outcome)
                    } else {
                        may_shorten(
                            tokenizer,
                            asked,
                            full,
                            limits,
                            (kept - (ids.len() - limits.max_len)) as nat,
                            outcome,
                        )
                    },
                };
            let ids = encoded->Ok_0;
            if ids.len() > limits.max_len {
                dropped_tokens_are_those_that_are_missing(
                    tokenizer,
                    asked,
                    full,
                    limits,
                    if ids.len() - limits.max_len >= kept {
                        0
                    } else {
                        (kept - (ids.len() - limits.max_len)) as nat
                    },
                    input,
                    dropped,
                );
            }
        }
    }
}

/// What fits is not shortened further: where the first `kept` tokens make a
/// beginning of the state, and the prompt with it always fits, no more than
/// the rest is dropped.
pub proof fn what_fits_is_not_shortened(
    tokenizer: Tokenizer,
    asked: Asked,
    full: InputView,
    limits: Shortening,
    kept: nat,
    state: Seq<char>,
    input: InputView,
    dropped: nat,
)
    requires
        0 < kept <= limits.state_ids.len(),
        decoding(tokenizer, limits.state_ids.take(kept as int), false) == Ok::<
            Seq<char>,
            Seq<char>,
        >(state),
        starts_with(asked.ax_tree, state),
        forall|ids: Seq<u32>|
            #[trigger] encoding(tokenizer, asked.prompt(state), true, Ok(ids)) ==> ids.len()
                <= limits.max_len,
        may_shorten(tokenizer, asked, full, limits, kept, Ok((input, dropped))),
    ensures
        dropped == limits.state_ids.len() - kept,
        input.chat_text == asked.prompt(state),
        encoding(tokenizer, asked.prompt(state), true, Ok(input.input_ids)),
{
}

/// A prompt that is too long by some tokens is tried again with as many tokens
/// of the state fewer.
pub proof fn excess_is_given_up(
    tokenizer: Tokenizer,
    asked: Asked,
    full: InputView,
    limits: Shortening,
    kept: nat,
    excess: nat,
    state: Seq<char>,
    input: InputView,
    dropped: nat,
)
    requires
        0 < excess < kept <= limits.state_ids.len(),
        decoding(tokenizer, limits.state_ids.take(kept as int), false) == Ok::<
            Seq<char>,
            Seq<char>,
        >(state),
        starts_with(asked.ax_tree, state),
        forall|ids: Seq<u32>|
            #[trigger] encoding(tokenizer, asked.prompt(state), true, Ok(ids)) ==> ids.len()
                == limits.max_len + excess,
        may_shorten(tokenizer, asked, full, limits, kept, Ok((input, dropped))),
    ensures
        may_shorten(tokenizer, asked, full, limits, (kept - excess) as nat, Ok((input, dropped))),
        dropped >= limits.state_ids.len() - kept + excess,
{
    dropped_tokens_are_those_that_are_missing(
        tokenizer,
        asked,
        full,
        limits,
        (kept - excess) as nat,
        input,
        dropped,
    );
}

/// The whole prompt did not fit, the one without a state does, and the state's
/// tokens but for the dropped ones have room beside it.
pub open spec fn cut_to_the_room(
    tokenizer: Tokenizer,
    asked: Asked,
    max_len: nat,
    full: InputView,
    empty_ids: Seq<u32>,
    state_ids: Seq<u32>,
    input: InputView,
    dropped: nat,
) -> bool {
    &&& may_encode(tokenizer, asked, Ok(full))
    &&& full.input_ids.len() > max_len
    &&& encoding(tokenizer, asked.prompt(Seq::empty()), true, Ok(empty_ids))
    &&& empty_ids.len() <= max_len
    &&& encoding(tokenizer, asked.ax_tree, false, Ok(state_ids))
    &&& dropped <= state_ids.len()
    &&& state_ids.len() - dropped <= max_len - empty_ids.len()
    &&& holds_tokens(tokenizer, asked, state_ids, state_ids.len() - dropped, input)
}

/// A prompt that fits is handed out as it is, with nothing dropped; one that
/// does not keeps no more of the state than there is room for.
pub proof fn states_are_cut_to_the_room_there_is(
    tokenizer: Tokenizer,
    asked: Asked,
    max_len: nat,
    input: InputView,
    dropped: nat,
)
    requires
        may_encode_within(tokenizer, asked, max_len, Ok((input, dropped))),
    ensures
        dropped == 0 && may_encode(tokenizer, asked, Ok(input)) && input.input_ids.len() <= max_len
            || exists|full: InputView, empty_ids: Seq<u32>, state_ids: Seq<u32>|
            #[trigger] cut_to_the_room(
                tokenizer,
                asked,
                max_len,
                full,
                empty_ids,
                state_ids,
                input,
                dropped,
            ),
{
    let outcome: Result<(InputView, nat), Failure> = Ok((input, dropped));
    let built = choose|built: Result<InputView, Failure>|
        #[trigger] may_encode(tokenizer, asked, built) && match built {
            Err(failure) => outcome == Err::<(InputView, nat), Failure>(failure),
            Ok(full) => if full.input_ids.len() <= max_len {
                outcome == Ok::<(InputView, nat), Failure>((full, 0))
            } else {
                may_cut(tokenizer, asked, full, max_len, outcome)
            },
        };
    let full = built->Ok_0;
    assert(may_encode(tokenizer, asked, Ok(full)));
    if full.input_ids.len() > max_len {
        let empty = choose|empty: Result<Seq<u32>, Seq<char>>|
            #[trigger] encoding(tokenizer, asked.prompt(Seq::empty()), true, empty) && match empty {
                Err(message) => outcome == Err::<(InputView, nat), Failure>(
                    Failure::Tokenizer(message),
                ),
                Ok(empty_ids) => if empty_ids.len() > max_len {
                    outcome == Err::<(InputView, nat), Failure>(
                        too_long(asked.task_family, empty_ids.len(), max_len),
                    )
                } else {
                    exists|state: Result<Seq<u32>, Seq<char>>|
                        #[trigger] encoding(tokenizer, asked.ax_tree, false, state) && match state {
                            Err(message) => outcome == Err::<(InputView, nat), Failure>(
                                Failure::Tokenizer(message),
                            ),
                            Ok(state_ids) => may_shorten(
                                tokenizer,
                                asked,
                                full,
                                Shortening { state_ids, empty_ids, max_len },
                                room(max_len, empty_ids.len(), state_ids.len()),
                                outcome,
                            ),
                        }
                },
            };
        let empty_ids = empty->Ok_0;
        let state = choose|state: Result<Seq<u32>, Seq<char>>|
            #[trigger] encoding(tokenizer, asked.ax_tree, false, state) && match state {
                Err(message) => outcome == Err::<(InputView, nat), Failure>(
                    Failure::Tokenizer(message),
                ),
                Ok(state_ids) => may_shorten(
                    tokenizer,
                    asked,
                    full,
                    Shortening { state_ids, empty_ids, max_len },
                    room(max_len, empty_ids.len(), state_ids.len()),
                    outcome,
                ),
            };
        let state_ids = state->Ok_0;
        dropped_tokens_are_those_that_are_missing(
            tokenizer,
            asked,
            full,
            Shortening { state_ids, empty_ids, max_len },
            room(max_len, empty_ids.len(), state_ids.len()),
            input,
            dropped,
        );
        assert(cut_to_the_room(
            tokenizer,
            asked,
            max_len,
            full,
            empty_ids,
            state_ids,
            input,
            dropped,
        ));
    }
}

/// How many tokens of the state there is room for.
spec fn room(max_len: nat, empty: nat, state: nat) -> nat {
    if max_len - empty <= state {
        (max_len - empty) as nat
    } else {
        state
    }
}

} // verus!
