//! What a chat prompt says, and where.
use crate::cua_s1::api::{predicts, CuaS1OptionPrediction};
use crate::cua_s1::prompt::{
    action_text, asked, chat_text, goal_text, goal_view, letter, letters_of, may_encode,
    may_encode_letters, may_fail_letters, may_shorten, option_line, option_lines, shortened,
    too_long, Asked, CuaS1Option, InputView, Shortening,
};
use crate::error::Failure;
use crate::score::Float;
use crate::text::{decimal, starts_with};
use crate::tokens::{decoding, encoding};
use tokenizers::Tokenizer;
use vstd::prelude::*;

verus! {

/// Texts one behind the other.
pub open spec fn run(parts: Seq<Seq<char>>) -> Seq<char>
    decreases parts.len(),
{
    if parts.len() == 0 {
        Seq::empty()
    } else {
        run(parts.drop_last()) + parts.last()
    }
}

proof fn run_grows(parts: Seq<Seq<char>>, part: Seq<char>)
    ensures
        run(parts.push(part)) == run(parts) + part,
{
    assert(parts.push(part).drop_last() =~= parts);
}

proof fn parts_stand(parts: Seq<Seq<char>>, k: int)
    requires
        0 <= k < parts.len(),
    ensures
        ({
            let at = run(parts.take(k)).len() as int;
            let to = run(parts.take(k + 1)).len() as int;
            &&& 0 <= at <= to <= run(parts).len()
            &&& run(parts).subrange(at, to) == parts[k]
        }),
    decreases parts.len(),
{
    let whole = run(parts);
    let before = parts.drop_last();
    let at = run(parts.take(k)).len() as int;
    let to = run(parts.take(k + 1)).len() as int;
    assert(parts.take(k + 1).drop_last() =~= parts.take(k));
    assert(parts.take(k + 1).last() == parts[k]);
    if k == parts.len() - 1 {
        assert(parts.take(k) =~= before);
        assert(parts.take(k + 1) =~= parts);
        assert(whole.subrange(at, to) =~= parts[k]);
    } else {
        parts_stand(before, k);
        assert(before.take(k) =~= parts.take(k));
        assert(before.take(k + 1) =~= parts.take(k + 1));
        assert(whole.subrange(at, to) =~= run(before).subrange(at, to));
    }
}

/// The text, cut at these places, is these parts, one behind the other, and
/// nothing else.
pub open spec fn is_cut_into(text: Seq<char>, cuts: Seq<int>, parts: Seq<Seq<char>>) -> bool {
    &&& cuts.len() == parts.len() + 1
    &&& cuts[0] == 0
    &&& cuts.last() == text.len()
    &&& forall|k: int|
        #![trigger parts[k]]
        0 <= k < parts.len() ==> 0 <= cuts[k] <= cuts[k + 1] <= text.len() && text.subrange(
            cuts[k],
            cuts[k + 1],
        ) == parts[k]
}

/// Texts one behind the other can be cut into these texts.
pub proof fn runs_are_cut(parts: Seq<Seq<char>>) -> (cuts: Seq<int>)
    ensures
        is_cut_into(run(parts), cuts, parts),
{
    let cuts = Seq::new(parts.len() + 1, |k: int| run(parts.take(k)).len() as int);
    assert(parts.take(0) =~= Seq::empty());
    assert(parts.take(parts.len() as int) =~= parts);
    assert forall|k: int|
        #![trigger parts[k]]
        0 <= k < parts.len() implies 0 <= cuts[k] <= cuts[k + 1] <= run(parts).len() && run(
        parts,
    ).subrange(cuts[k], cuts[k + 1]) == parts[k] by {
        parts_stand(parts, k);
    }
    cuts
}

/// The parts of a prompt: the message of the system, and the user's message
/// with the goal, the app, the family of the task, the tree and the options,
/// each behind its own heading.
pub open spec fn prompt_parts(
    app: Seq<char>,
    task_family: Seq<char>,
    ax_tree: Seq<char>,
    goal: Option<Seq<char>>,
    lines: Seq<char>,
) -> Seq<Seq<char>> {
    let stated = goal is Some && goal->0.len() > 0;
    seq![
        "<|im_start|>system\n"@,
        "You are a one-pass computer-use decision model. You are shown the current state of a screen and a fixed, closed list of candidate (element, action) options, each given a single letter. Choose exactly one option: the single best next action to take. Answer with ONLY that option's letter -- no words, no punctuation, no explanation."@,
        "<|im_end|>\n<|im_start|>user\n"@,
        if stated {
            "Goal: "@
        } else {
            Seq::empty()
        },
        if stated {
            goal->0
        } else {
            Seq::empty()
        },
        if stated {
            "\n\n"@
        } else {
            Seq::empty()
        },
        "App: "@,
        app,
        "\nTask family: "@,
        task_family,
        "\n\nAccessibility tree:\n"@,
        ax_tree,
        "\n\nOptions:\n"@,
        lines,
        "\n\nAnswer with a single letter."@,
        "<|im_end|>\n<|im_start|>assistant\n<think>\n"@,
    ]
}

/// What an option does, with the entity that a fill fills in.
pub open spec fn deed(option: &CuaS1Option) -> Seq<char> {
    if option.action@ == "fill"@ && option.entity_id is Some && option.entity_id->0@.len() > 0 {
        "fill (with entity '"@ + option.entity_id->0@ + "')"@
    } else {
        option.action@
    }
}

/// The parts of the option lines, four for each option but the first, which
/// has no line break in front: its letter, its role, its label and its deed.
pub open spec fn line_parts(options: Seq<CuaS1Option>, k: int) -> Seq<Seq<char>> {
    seq![
        if k == 0 {
            Seq::empty()
        } else {
            "\n"@
        },
        seq!["ABCDEFGHIJKLMNOPQRSTUVWXYZ"@[k]],
        ". "@,
        options[k].role@,
        " \""@,
        options[k].label@,
        "\" -> "@,
        deed(&options[k]),
    ]
}

/// The parts of the first `n` option lines.
pub open spec fn all_line_parts(options: Seq<CuaS1Option>, n: int) -> Seq<Seq<char>>
    decreases n,
{
    if n <= 0 {
        Seq::empty()
    } else {
        all_line_parts(options, n - 1) + line_parts(options, n - 1)
    }
}

proof fn run_joins(a: Seq<Seq<char>>, b: Seq<Seq<char>>)
    ensures
        run(a + b) == run(a) + run(b),
    decreases b.len(),
{
    if b.len() == 0 {
        assert(a + b =~= a);
        assert(run(a) + run(b) =~= run(a));
    } else {
        run_joins(a, b.drop_last());
        assert((a + b).drop_last() =~= a + b.drop_last());
        assert((a + b).last() == b.last());
        assert(run(a) + run(b) =~= run(a) + run(b.drop_last()) + b.last());
    }
}

proof fn alphabet()
    ensures
        "ABCDEFGHIJKLMNOPQRSTUVWXYZ"@.len() == 26,
        forall|i: int|
            0 <= i < 26 ==> #[trigger] "ABCDEFGHIJKLMNOPQRSTUVWXYZ"@[i] == letter(i),
{
    reveal_strlit("ABCDEFGHIJKLMNOPQRSTUVWXYZ");
    assert forall|i: int| 0 <= i < 26 implies #[trigger] "ABCDEFGHIJKLMNOPQRSTUVWXYZ"@[i] == letter(
        i,
    ) by {
        assert('A' as u32 == 65);
        assert("ABCDEFGHIJKLMNOPQRSTUVWXYZ"@[i] as u32 == 65 + i);
    }
}

proof fn lines_run(options: Seq<CuaS1Option>, n: nat)
    requires
        n <= options.len(),
        n <= 26,
    ensures
        option_lines(options, n) == run(all_line_parts(options, n as int)),
    decreases n,
{
    if n > 0 {
        let m = (n - 1) as nat;
        lines_run(options, m);
        let parts = line_parts(options, m as int);
        let option = &options[m as int];
        let front = all_line_parts(options, m as int);
        run_joins(front, parts);
        alphabet();
        let e = Seq::<Seq<char>>::empty();
        let s0 = e.push(parts[0]);
        let s1 = s0.push(parts[1]);
        let s2 = s1.push(parts[2]);
        let s3 = s2.push(parts[3]);
        let s4 = s3.push(parts[4]);
        let s5 = s4.push(parts[5]);
        let s6 = s5.push(parts[6]);
        let s7 = s6.push(parts[7]);
        run_grows(e, parts[0]);
        run_grows(s0, parts[1]);
        run_grows(s1, parts[2]);
        run_grows(s2, parts[3]);
        run_grows(s3, parts[4]);
        run_grows(s4, parts[5]);
        run_grows(s5, parts[6]);
        run_grows(s6, parts[7]);
        assert(s7 =~= parts);
        reveal_strlit("fill");
        reveal_strlit(" (with entity '");
        reveal_strlit("fill (with entity '");
        assert("fill"@ + " (with entity '"@ =~= "fill (with entity '"@);
        assert(action_text(option) =~= deed(option));
        let line = option_line(letter(m as int), option);
        assert(run(parts) =~= parts[0] + line);
        if m == 0 {
            assert(option_lines(options, 1) =~= run(front) + run(parts));
        } else {
            assert(option_lines(options, n) =~= run(front) + run(parts));
        }
    } else {
        assert(option_lines(options, 0) =~= run(all_line_parts(options, 0)));
    }
}

/// A prompt says what the caller said, each thing in its own place: the app
/// stands behind the heading for apps, the family of the task behind its own,
/// the tree and the options behind theirs, and the goal in front of all where
/// there is one. Nothing else stands in the prompt but the system's message
/// and the marks of the chat.
pub proof fn prompts_say_what_the_caller_said(
    options: Seq<CuaS1Option>,
    app: Seq<char>,
    task_family: Seq<char>,
    ax_tree: Seq<char>,
    goal: Option<Seq<char>>,
) -> (cuts: Seq<int>)
    ensures
        ({
            let text = chat_text(options, app, task_family, ax_tree, goal);
            let lines = option_lines(options, options.len());
            &&& is_cut_into(text, cuts, prompt_parts(app, task_family, ax_tree, goal, lines))
            &&& text.subrange(cuts[6], cuts[7]) == "App: "@
            &&& text.subrange(cuts[7], cuts[8]) == app
            &&& text.subrange(cuts[8], cuts[9]) == "\nTask family: "@
            &&& text.subrange(cuts[9], cuts[10]) == task_family
            &&& text.subrange(cuts[10], cuts[11]) == "\n\nAccessibility tree:\n"@
            &&& text.subrange(cuts[11], cuts[12]) == ax_tree
            &&& text.subrange(cuts[12], cuts[13]) == "\n\nOptions:\n"@
            &&& text.subrange(cuts[13], cuts[14]) == lines
            &&& goal matches Some(g) ==> g.len() > 0 ==> text.subrange(cuts[3], cuts[6])
                == "Goal: "@ + g + "\n\n"@
            &&& goal is None || goal->0.len() == 0 ==> cuts[3] == cuts[6]
        }),
{
    let lines = option_lines(options, options.len());
    let text = chat_text(options, app, task_family, ax_tree, goal);
    let parts = prompt_parts(app, task_family, ax_tree, goal, lines);
    let cuts = runs_are_cut(parts);
    let e = Seq::<Seq<char>>::empty();
    let s0 = e.push(parts[0]);
    let s1 = s0.push(parts[1]);
    let s2 = s1.push(parts[2]);
    let s3 = s2.push(parts[3]);
    let s4 = s3.push(parts[4]);
    let s5 = s4.push(parts[5]);
    let s6 = s5.push(parts[6]);
    let s7 = s6.push(parts[7]);
    let s8 = s7.push(parts[8]);
    let s9 = s8.push(parts[9]);
    let s10 = s9.push(parts[10]);
    let s11 = s10.push(parts[11]);
    let s12 = s11.push(parts[12]);
    let s13 = s12.push(parts[13]);
    let s14 = s13.push(parts[14]);
    let s15 = s14.push(parts[15]);
    run_grows(e, parts[0]);
    run_grows(s0, parts[1]);
    run_grows(s1, parts[2]);
    run_grows(s2, parts[3]);
    run_grows(s3, parts[4]);
    run_grows(s4, parts[5]);
    run_grows(s5, parts[6]);
    run_grows(s6, parts[7]);
    run_grows(s7, parts[8]);
    run_grows(s8, parts[9]);
    run_grows(s9, parts[10]);
    run_grows(s10, parts[11]);
    run_grows(s11, parts[12]);
    run_grows(s12, parts[13]);
    run_grows(s13, parts[14]);
    run_grows(s14, parts[15]);
    assert(s15 =~= parts);
    assert(run(e) + parts[0] =~= parts[0]);
    let front = parts[0] + parts[1] + parts[2];
    assert(front + parts[3] + parts[4] + parts[5] =~= front + goal_text(goal));
    assert(run(parts) == text);
    assert(parts[3] == parts[3] && parts[4] == parts[4] && parts[5] == parts[5]);
    let said = parts[3] + parts[4] + parts[5];
    assert(text.subrange(cuts[3], cuts[6]) =~= said) by {
        let a = text.subrange(cuts[3], cuts[4]);
        let b = text.subrange(cuts[4], cuts[5]);
        let c = text.subrange(cuts[5], cuts[6]);
        assert(a == parts[3] && b == parts[4] && c == parts[5]);
        assert(text.subrange(cuts[3], cuts[6]) =~= a + b + c);
    }
    assert(text.subrange(cuts[6], cuts[7]) == parts[6]);
    assert(text.subrange(cuts[7], cuts[8]) == parts[7]);
    assert(text.subrange(cuts[8], cuts[9]) == parts[8]);
    assert(text.subrange(cuts[9], cuts[10]) == parts[9]);
    assert(text.subrange(cuts[10], cuts[11]) == parts[10]);
    assert(text.subrange(cuts[11], cuts[12]) == parts[11]);
    assert(text.subrange(cuts[12], cuts[13]) == parts[12]);
    assert(text.subrange(cuts[13], cuts[14]) == parts[13]);
    cuts
}

/// Every option has a line of its own, in order, behind the letter of its
/// place in the alphabet: its role, its quoted label and what it does.
pub proof fn option_lines_are_lettered_in_order(options: Seq<CuaS1Option>) -> (cuts: Seq<int>)
    requires
        options.len() <= 26,
    ensures
        is_cut_into(
            option_lines(options, options.len()),
            cuts,
            all_line_parts(options, options.len() as int),
        ),
{
    lines_run(options, options.len());
    runs_are_cut(all_line_parts(options, options.len() as int))
}

/// The letters of options are those of the alphabet, in order.
pub proof fn letters_follow_the_alphabet(n: nat)
    requires
        n <= 26,
    ensures
        letters_of(n).len() == n,
        forall|i: int|
            0 <= i < n ==> #[trigger] letters_of(n)[i] == "ABCDEFGHIJKLMNOPQRSTUVWXYZ"@[i],
{
    alphabet();
    assert forall|i: int| 0 <= i < n implies #[trigger] letters_of(n)[i]
        == "ABCDEFGHIJKLMNOPQRSTUVWXYZ"@[i] by {
        assert("ABCDEFGHIJKLMNOPQRSTUVWXYZ"@[i] == letter(i));
    }
}

/// What is asked is what the caller gave, each under its own name.
pub proof fn nothing_asked_is_mixed_up(
    options: &[CuaS1Option],
    app: &str,
    task_family: &str,
    ax_tree: &str,
    goal: Option<&str>,
)
    ensures
        asked(options, app, task_family, ax_tree, goal).options == options@,
        asked(options, app, task_family, ax_tree, goal).app == app@,
        asked(options, app, task_family, ax_tree, goal).task_family == task_family@,
        asked(options, app, task_family, ax_tree, goal).ax_tree == ax_tree@,
        goal matches Some(g) ==> asked(options, app, task_family, ax_tree, goal).goal == Some(g@),
        goal is None ==> asked(options, app, task_family, ax_tree, goal).goal is None,
{
}

/// An input is the prompt for what was asked, some encoding of that prompt
/// with special tokens, and for every option its letter with the one token
/// that the letter alone is. A decision needs a tree and one to twenty-six
/// options.
pub proof fn inputs_hold_the_prompt_and_the_letters(
    tokenizer: Tokenizer,
    asked: Asked,
    input: InputView,
)
    requires
        may_encode(tokenizer, asked, Ok(input)),
    ensures
        asked.ax_tree.len() > 0,
        1 <= asked.options.len() <= 26,
        input.chat_text == chat_text(
            asked.options,
            asked.app,
            asked.task_family,
            asked.ax_tree,
            asked.goal,
        ),
        encoding(tokenizer, input.chat_text, true, Ok(input.input_ids)),
        input.letters.len() == asked.options.len(),
        input.letter_ids.len() == asked.options.len(),
        forall|i: int|
            0 <= i < asked.options.len() ==> #[trigger] input.letters[i]
                == "ABCDEFGHIJKLMNOPQRSTUVWXYZ"@[i] && encoding(
                tokenizer,
                seq!["ABCDEFGHIJKLMNOPQRSTUVWXYZ"@[i]],
                false,
                Ok(seq![input.letter_ids[i]]),
            ),
{
    let n = asked.options.len();
    letters_follow_the_alphabet(n);
    assert(may_encode_letters(tokenizer, letters_of(n), input.letter_ids));
    assert forall|i: int| 0 <= i < n implies #[trigger] input.letters[i]
        == "ABCDEFGHIJKLMNOPQRSTUVWXYZ"@[i] && encoding(
        tokenizer,
        seq!["ABCDEFGHIJKLMNOPQRSTUVWXYZ"@[i]],
        false,
        Ok(seq![input.letter_ids[i]]),
    ) by {
        assert(letters_of(n)[i] == "ABCDEFGHIJKLMNOPQRSTUVWXYZ"@[i]);
        assert(encoding(
            tokenizer,
            seq![letters_of(n)[i]],
            false,
            Ok(seq![input.letter_ids[i]]),
        ));
    }
}

/// Without a tree, and with no option or more than the alphabet has letters,
/// nothing is encoded, and the refusal says which it was.
pub proof fn decisions_need_a_tree_and_options(
    tokenizer: Tokenizer,
    asked: Asked,
    outcome: Result<InputView, Failure>,
)
    requires
        may_encode(tokenizer, asked, outcome),
        asked.ax_tree.len() == 0 || asked.options.len() == 0 || asked.options.len() > 26,
    ensures
        outcome is Err,
        asked.ax_tree.len() == 0 ==> outcome->Err_0 == Failure::Config(
            "Cua-S1 text modality requires ax_tree"@,
        ),
        asked.ax_tree.len() > 0 ==> outcome->Err_0 == Failure::Config(
            "Cua-S1 requires between 1 and 26 options"@,
        ),
{
}

/// Every option is predicted with its own letter, logit and probability.
pub proof fn options_keep_their_scores(
    predictions: Seq<CuaS1OptionPrediction>,
    options: Seq<CuaS1Option>,
    logits: Seq<Float>,
    probabilities: Seq<Float>,
    i: int,
)
    requires
        options.len() <= 26,
        predicts(predictions, options, letters_of(options.len()), logits, probabilities),
        0 <= i < options.len(),
    ensures
        predictions.len() == options.len(),
        predictions[i].letter == "ABCDEFGHIJKLMNOPQRSTUVWXYZ"@[i],
        predictions[i].option == options[i],
        predictions[i].logit == logits[i],
        predictions[i].probability == probabilities[i],
{
    letters_follow_the_alphabet(options.len());
    assert(predictions[i].option == options[i]);
    assert(letters_of(options.len())[i] == "ABCDEFGHIJKLMNOPQRSTUVWXYZ"@[i]);
}

/// A prompt that is too long even without its state is refused under the name
/// of the task's family, with both lengths.
pub proof fn long_prompts_are_refused(task_family: Seq<char>, needed: nat, max_len: nat)
    ensures
        too_long(task_family, needed, max_len) == (Failure::Question {
            id: task_family,
            reason: run(
                seq![
                    "Cua-S1 prompt requires "@,
                    decimal(needed),
                    " tokens even with an empty state, exceeding max_len ("@,
                    decimal(max_len),
                    "); shorten the goal or options, or increase max_len"@,
                ],
            ),
        }),
{
    let parts = seq![
        "Cua-S1 prompt requires "@,
        decimal(needed),
        " tokens even with an empty state, exceeding max_len ("@,
        decimal(max_len),
        "); shorten the goal or options, or increase max_len"@,
    ];
    let e = Seq::<Seq<char>>::empty();
    let s0 = e.push(parts[0]);
    let s1 = s0.push(parts[1]);
    let s2 = s1.push(parts[2]);
    let s3 = s2.push(parts[3]);
    let s4 = s3.push(parts[4]);
    run_grows(e, parts[0]);
    run_grows(s0, parts[1]);
    run_grows(s1, parts[2]);
    run_grows(s2, parts[3]);
    run_grows(s3, parts[4]);
    assert(s4 =~= parts);
    assert(run(e) + parts[0] =~= parts[0]);
}

} // verus!
