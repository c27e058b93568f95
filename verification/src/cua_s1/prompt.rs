//! The chat prompt that offers options under single letters.
use crate::error::{config_error, Failure, SystemOneError};
use crate::text::{begins_with, decimal, decimal_text, starts_with};
use crate::tokens::{decode, decodes, decoding, encode, encodes, encoding};
use tokenizers::Tokenizer;
use vstd::prelude::*;
use vstd::string::StringExecFns;

verus! {

pub const SYSTEM_PROMPT: &'static str =
    "You are a one-pass computer-use decision model. You are shown the current state of a screen and a fixed, closed list of candidate (element, action) options, each given a single letter. Choose exactly one option: the single best next action to take. Answer with ONLY that option's letter -- no words, no punctuation, no explanation.";

/// One candidate: an action on an element.
#[derive(Debug)]
pub struct CuaS1Option {
    pub element_id: String,
    pub role: String,
    pub label: String,
    pub action: String,
    pub entity_id: Option<String>,
}

impl CuaS1Option {
    /// The same option.
    pub fn copy(&self) -> (option: CuaS1Option)
        ensures
            option == *self,
    {
        CuaS1Option {
            element_id: self.element_id.clone(),
            role: self.role.clone(),
            label: self.label.clone(),
            action: self.action.clone(),
            entity_id: match &self.entity_id {
                Some(e) => Some(e.clone()),
                None => None,
            },
        }
    }
}

/// Tokens for one forward pass, with answer letters in option order.
#[derive(Debug)]
pub struct CuaS1Input {
    pub chat_text: String,
    pub input_ids: Vec<u32>,
    pub letters: Vec<char>,
    pub letter_ids: Vec<u32>,
}

/// An input with its values as sequences.
pub struct InputView {
    pub chat_text: Seq<char>,
    pub input_ids: Seq<u32>,
    pub letters: Seq<char>,
    pub letter_ids: Seq<u32>,
}

impl View for CuaS1Input {
    type V = InputView;

    open spec fn view(&self) -> InputView {
        InputView {
            chat_text: self.chat_text@,
            input_ids: self.input_ids@,
            letters: self.letters@,
            letter_ids: self.letter_ids@,
        }
    }
}

/// The letter of option `i`.
pub open spec fn letter(i: int) -> char {
    (65 + i) as char
}

/// The letters of `n` options.
pub open spec fn letters_of(n: nat) -> Seq<char> {
    Seq::new(n, |i: int| letter(i))
}

/// What an option does: only a fill names the entity that it fills in.
pub open spec fn action_text(option: &CuaS1Option) -> Seq<char> {
    match option.entity_id {
        Some(entity) => if option.action@ == "fill"@ && entity@.len() > 0 {
            option.action@ + " (with entity '"@ + entity@ + "')"@
        } else {
            option.action@
        },
        None => option.action@,
    }
}

/// The line of an option.
pub open spec fn option_line(letter: char, option: &CuaS1Option) -> Seq<char> {
    seq![letter] + ". "@ + option.role@ + " \""@ + option.label@ + "\" -> "@ + action_text(option)
}

/// The lines of the first `n` options, a line break between two of them.
pub open spec fn option_lines(options: Seq<CuaS1Option>, n: nat) -> Seq<char>
    decreases n,
{
    if n == 0 {
        Seq::empty()
    } else if n == 1 {
        option_line(letter(0), &options[0])
    } else {
        option_lines(options, (n - 1) as nat) + "\n"@ + option_line(letter(n - 1), &options[n - 1])
    }
}

/// The line of the goal, where there is one.
pub open spec fn goal_text(goal: Option<Seq<char>>) -> Seq<char> {
    match goal {
        Some(g) => if g.len() > 0 {
            "Goal: "@ + g + "\n\n"@
        } else {
            Seq::empty()
        },
        None => Seq::empty(),
    }
}

/// The whole prompt.
pub open spec fn chat_text(
    options: Seq<CuaS1Option>,
    app: Seq<char>,
    task_family: Seq<char>,
    ax_tree: Seq<char>,
    goal: Option<Seq<char>>,
) -> Seq<char> {
    "<|im_start|>system\n"@ + SYSTEM_PROMPT@ + "<|im_end|>\n<|im_start|>user\n"@ + goal_text(goal)
        + "App: "@ + app + "\nTask family: "@ + task_family + "\n\nAccessibility tree:\n"@ + ax_tree
        + "\n\nOptions:\n"@ + option_lines(options, options.len())
        + "\n\nAnswer with a single letter."@
        + "<|im_end|>\n<|im_start|>assistant\n<think>\n"@
}

/// An optional text as a sequence.
pub open spec fn goal_view(goal: Option<&str>) -> Option<Seq<char>> {
    match goal {
        Some(g) => Some(g@),
        None => None,
    }
}

/// Appends one character.
fn append_char(s: &mut String, c: char)
    ensures
        final(s)@ == old(s)@ + seq![c],
{
    let mut one: Vec<char> = Vec::new();
    one.push(c);
    let text = crate::text::text_of(&one);
    s.append(text.as_str());
}

/// Writes the line of an option.
pub fn describe_option(letter: char, option: &CuaS1Option) -> (line: String)
    ensures
        line@ == option_line(letter, option),
{
    let mut line = String::new();
    append_char(&mut line, letter);
    line.append(". ");
    line.append(option.role.as_str());
    line.append(" \"");
    line.append(option.label.as_str());
    line.append("\" -> ");
    line.append(option.action.as_str());
    if let Some(entity) = &option.entity_id {
        if crate::text::same(option.action.as_str(), "fill") && !entity.as_str().is_empty() {
            line.append(" (with entity '");
            line.append(entity.as_str());
            line.append("')");
        }
    }
    assert(line@ =~= option_line(letter, option));
    line
}

/// Writes the prompt and lists the letters of the options, of which there
/// must be one to twenty-six.
pub fn build_prompt(
    options: &[CuaS1Option],
    app: &str,
    task_family: &str,
    ax_tree: &str,
    goal: Option<&str>,
) -> (result: Result<(String, Vec<char>), SystemOneError>)
    ensures
        match result {
            Ok(made) => {
                &&& 1 <= options@.len() <= 26
                &&& made.0@ == chat_text(
                    options@,
                    app@,
                    task_family@,
                    ax_tree@,
                    goal_view(goal),
                )
                &&& made.1@ == letters_of(options@.len())
            },
            Err(e) => {
                &&& !(1 <= options@.len() <= 26)
                &&& e@ == Failure::Config("Cua-S1 requires between 1 and 26 options"@)
            },
        },
{
    if options.len() < 1 || options.len() > 26 {
        return Err(config_error("Cua-S1 requires between 1 and 26 options"));
    }
    let mut letters: Vec<char> = Vec::new();
    let mut lines = String::new();
    let mut i: usize = 0;
    while i < options.len()
        invariant
            i <= options.len() <= 26,
            letters@ == letters_of(i as nat),
            lines@ == option_lines(options@, i as nat),
        decreases options.len() - i,
    {
        let here: char = (65u8 + i as u8) as char;
        assert(here == letter(i as int));
        if i > 0 {
            lines.append("\n");
        }
        lines.append(describe_option(here, &options[i]).as_str());
        proof {
            if i == 0 {
                assert(lines@ =~= option_lines(options@, 1));
            }
        }
        letters.push(here);
        assert(letters@ =~= letters_of((i + 1) as nat));
        i += 1;
    }
    let mut text = "<|im_start|>system\n".to_owned();
    text.append(SYSTEM_PROMPT);
    text.append("<|im_end|>\n<|im_start|>user\n");
    let ghost front = text@;
    if let Some(g) = goal {
        if !g.is_empty() {
            text.append("Goal: ");
            text.append(g);
            text.append("\n\n");
        }
    }
    assert(text@ =~= front + goal_text(goal_view(goal)));
    text.append("App: ");
    text.append(app);
    text.append("\nTask family: ");
    text.append(task_family);
    text.append("\n\nAccessibility tree:\n");
    text.append(ax_tree);
    text.append("\n\nOptions:\n");
    text.append(lines.as_str());
    text.append("\n\nAnswer with a single letter.");
    text.append("<|im_end|>\n<|im_start|>assistant\n<think>\n");
    Ok((text, letters))
}

/// Why a letter that is not exactly one token cannot be an answer.
pub open spec fn letter_failure(letter: char, count: nat) -> Failure {
    Failure::Tokenizer(
        "letter '"@ + seq![letter] + "' must encode to exactly one token, got "@ + decimal(count),
    )
}

/// Some encoding of each of the letters is the one token in `ids`.
pub open spec fn may_encode_letters(tokenizer: Tokenizer, letters: Seq<char>, ids: Seq<u32>) -> bool {
    &&& ids.len() == letters.len()
    &&& forall|i: int|
        0 <= i < letters.len() ==> encoding(
            tokenizer,
            seq![#[trigger] letters[i]],
            false,
            Ok(seq![ids[i]]),
        )
}

/// Encoding the letters may fail: one of them, the ones before it having been
/// encoded, cannot be encoded or is not exactly one token.
pub open spec fn may_fail_letters(
    tokenizer: Tokenizer,
    letters: Seq<char>,
    failure: Failure,
) -> bool {
    exists|k: int, ids: Seq<u32>, encoded: Result<Seq<u32>, Seq<char>>|
        {
            &&& 0 <= k < letters.len()
            &&& #[trigger] may_encode_letters(tokenizer, letters.take(k), ids)
            &&& #[trigger] encoding(tokenizer, seq![letters[k]], false, encoded)
            &&& match encoded {
                Err(message) => failure == Failure::Tokenizer(message),
                Ok(tokens) => tokens.len() != 1 && failure == letter_failure(
                    letters[k],
                    tokens.len(),
                ),
            }
        }
}

/// Encodes each letter, which must be exactly one token.
pub fn encode_letters(tokenizer: &Tokenizer, letters: &Vec<char>) -> (result: Result<
    Vec<u32>,
    SystemOneError,
>)
    requires
        encodes(*tokenizer, false),
        forall|i: int| 0 <= i < letters.len() ==> 'A' <= #[trigger] letters@[i] <= 'Z',
    ensures
        match result {
            Ok(ids) => may_encode_letters(*tokenizer, letters@, ids@),
            Err(e) => may_fail_letters(*tokenizer, letters@, e@),
        },
{
    let mut ids: Vec<u32> = Vec::new();
    let mut i: usize = 0;
    while i < letters.len()
        invariant
            encodes(*tokenizer, false),
            forall|k: int| 0 <= k < letters.len() ==> 'A' <= #[trigger] letters@[k] <= 'Z',
            i <= letters.len(),
            may_encode_letters(*tokenizer, letters@.take(i as int), ids@),
        decreases letters.len() - i,
    {
        let c: char = letters[i];
        let mut text = String::new();
        append_char(&mut text, c);
        assert(text@ =~= seq![c]);
        let ghost before = ids@;
        match encode(tokenizer, text.as_str(), false) {
            Err(message) => {
                let ghost encoded: Result<Seq<u32>, Seq<char>> = Err(message@);
                assert(encoding(*tokenizer, seq![letters@[i as int]], false, encoded));
                return Err(SystemOneError::Tokenizer(message));
            },
            Ok(tokens) => {
                let ghost encoded: Result<Seq<u32>, Seq<char>> = Ok(tokens@);
                assert(encoding(*tokenizer, seq![letters@[i as int]], false, encoded));
                if tokens.len() != 1 {
                    let mut message = "letter '".to_owned();
                    append_char(&mut message, c);
                    message.append("' must encode to exactly one token, got ");
                    message.append(decimal_text(tokens.len()).as_str());
                    return Err(SystemOneError::Tokenizer(message));
                }
                ids.push(tokens[0]);
                proof {
                    assert(tokens@ =~= seq![tokens@[0]]);
                    let now = letters@.take(i + 1);
                    assert forall|k: int| 0 <= k < now.len() implies encoding(
                        *tokenizer,
                        seq![#[trigger] now[k]],
                        false,
                        Ok(seq![ids@[k]]),
                    ) by {
                        if k < i {
                            assert(letters@.take(i as int)[k] == now[k]);
                            assert(ids@[k] == before[k]);
                        }
                    }
                }
            },
        }
        i += 1;
    }
    assert(letters@.take(letters@.len() as int) =~= letters@);
    Ok(ids)
}

/// What is asked: the options and the texts around them.
pub struct Asked {
    pub options: Seq<CuaS1Option>,
    pub app: Seq<char>,
    pub task_family: Seq<char>,
    pub ax_tree: Seq<char>,
    pub goal: Option<Seq<char>>,
}

impl Asked {
    /// The prompt with another state in place of the accessibility tree.
    pub open spec fn prompt(self, state: Seq<char>) -> Seq<char> {
        chat_text(self.options, self.app, self.task_family, state, self.goal)
    }
}

/// What is asked, with its values as sequences.
pub open spec fn asked(
    options: &[CuaS1Option],
    app: &str,
    task_family: &str,
    ax_tree: &str,
    goal: Option<&str>,
) -> Asked {
    Asked {
        options: options@,
        app: app@,
        task_family: task_family@,
        ax_tree: ax_tree@,
        goal: goal_view(goal),
    }
}

/// The result of building an input, with its values as sequences.
pub open spec fn input_outcome(result: Result<CuaS1Input, SystemOneError>) -> Result<
    InputView,
    Failure,
> {
    match result {
        Ok(input) => Ok(input@),
        Err(error) => Err(error@),
    }
}

/// `outcome` is one that building an input may have.
pub open spec fn may_encode(
    tokenizer: Tokenizer,
    asked: Asked,
    outcome: Result<InputView, Failure>,
) -> bool {
    let n = asked.options.len();
    if asked.ax_tree.len() == 0 {
        outcome == Err::<InputView, Failure>(
            Failure::Config("Cua-S1 text modality requires ax_tree"@),
        )
    } else if !(1 <= n <= 26) {
        outcome == Err::<InputView, Failure>(
            Failure::Config("Cua-S1 requires between 1 and 26 options"@),
        )
    } else {
        ||| outcome matches Err(failure) && may_fail_letters(tokenizer, letters_of(n), failure)
        ||| exists|letter_ids: Seq<u32>, encoded: Result<Seq<u32>, Seq<char>>|
            {
                &&& #[trigger] may_encode_letters(tokenizer, letters_of(n), letter_ids)
                &&& #[trigger] encoding(tokenizer, asked.prompt(asked.ax_tree), true, encoded)
                &&& outcome == (match encoded {
                    Err(message) => Err(Failure::Tokenizer(message)),
                    Ok(input_ids) => Ok(
                        InputView {
                            chat_text: asked.prompt(asked.ax_tree),
                            input_ids,
                            letters: letters_of(n),
                            letter_ids,
                        },
                    ),
                })
            }
    }
}

impl CuaS1Input {
    /// Builds the input for one decision. There must be one to twenty-six
    /// options and a tree, and each letter must be one token.
    pub fn encode(
        tokenizer: &Tokenizer,
        options: &[CuaS1Option],
        app: &str,
        task_family: &str,
        ax_tree: &str,
        goal: Option<&str>,
    ) -> (result: Result<Self, SystemOneError>)
        requires
            encodes(*tokenizer, true),
            encodes(*tokenizer, false),
        ensures
            may_encode(
                *tokenizer,
                asked(options, app, task_family, ax_tree, goal),
                input_outcome(result),
            ),
    {
        if ax_tree.is_empty() {
            return Err(config_error("Cua-S1 text modality requires ax_tree"));
        }
        let (text, letters) = match build_prompt(options, app, task_family, ax_tree, goal) {
            Ok(made) => made,
            Err(e) => {
                return Err(e);
            },
        };
        let letter_ids = match encode_letters(tokenizer, &letters) {
            Ok(ids) => ids,
            Err(e) => {
                return Err(e);
            },
        };
        match encode(tokenizer, text.as_str(), true) {
            Err(message) => {
                let ghost encoded: Result<Seq<u32>, Seq<char>> = Err(message@);
                assert(encoding(*tokenizer, text@, true, encoded));
                Err(SystemOneError::Tokenizer(message))
            },
            Ok(input_ids) => {
                let ghost encoded: Result<Seq<u32>, Seq<char>> = Ok(input_ids@);
                assert(encoding(*tokenizer, text@, true, encoded));
                Ok(CuaS1Input { chat_text: text, input_ids, letters, letter_ids })
            },
        }
    }
}

/// Why a prompt that needs `needed` tokens without its state is too long.
pub open spec fn too_long(task_family: Seq<char>, needed: nat, max_len: nat) -> Failure {
    Failure::Question {
        id: task_family,
        reason: "Cua-S1 prompt requires "@ + decimal(needed)
            + " tokens even with an empty state, exceeding max_len ("@ + decimal(max_len)
            + "); shorten the goal or options, or increase max_len"@,
    }
}

/// The limits that a state is shortened to.
pub struct Shortening {
    /// The tokens of the whole state.
    pub state_ids: Seq<u32>,
    /// The tokens of the prompt with an empty state.
    pub empty_ids: Seq<u32>,
    pub max_len: nat,
}

/// The input with a shortened state, and how many state tokens it lacks.
pub open spec fn shortened(
    full: InputView,
    asked: Asked,
    state: Seq<char>,
    input_ids: Seq<u32>,
    dropped: int,
) -> Result<(InputView, nat), Failure> {
    Ok(
        (
            InputView { chat_text: asked.prompt(state), input_ids, ..full },
            dropped as nat,
        ),
    )
}

/// `outcome` may come of keeping at most the first `kept` state tokens: they
/// are given up from the right, one where they end inside a character, and as
/// many as the prompt is too long by where it is.
pub open spec fn may_shorten(
    tokenizer: Tokenizer,
    asked: Asked,
    full: InputView,
    limits: Shortening,
    kept: nat,
    outcome: Result<(InputView, nat), Failure>,
) -> bool
    decreases kept,
{
    let n = limits.state_ids.len();
    if kept == 0 {
        outcome == shortened(full, asked, Seq::empty(), limits.empty_ids, n as int)
    } else {
        match decoding(tokenizer, limits.state_ids.take(kept as int), false) {
            Err(message) => outcome == Err::<(InputView, nat), Failure>(
                Failure::Tokenizer(message),
            ),
            Ok(state) => if !starts_with(asked.ax_tree, state) {
                may_shorten(tokenizer, asked, full, limits, (kept - 1) as nat, outcome)
            } else {
                exists|encoded: Result<Seq<u32>, Seq<char>>|
                    #[trigger] encoding(tokenizer, asked.prompt(state), true, encoded) && match encoded {
                        Err(message) => outcome == Err::<(InputView, nat), Failure>(
                            Failure::Tokenizer(message),
                        ),
                        Ok(ids) => if ids.len() <= limits.max_len {
                            outcome == shortened(full, asked, state, ids, n - kept)
                        } else if ids.len() - limits.max_len >= kept {
                            may_shorten(tokenizer, asked, full, limits, 0, outcome)
                        } else {
                            may_shorten(
                                tokenizer,
                                asked,
                                full,
                                limits,
                                (kept - (ids.len() - limits.max_len)) as nat,
                                outcome,
                            )
                        },
                    }
            },
        }
    }
}

/// `outcome` is one that building an input of at most `max_len` tokens may
/// have.
pub open spec fn may_encode_within(
    tokenizer: Tokenizer,
    asked: Asked,
    max_len: nat,
    outcome: Result<(InputView, nat), Failure>,
) -> bool {
    exists|built: Result<InputView, Failure>|
        #[trigger] may_encode(tokenizer, asked, built) && match built {
            Err(failure) => outcome == Err::<(InputView, nat), Failure>(failure),
            Ok(full) => if full.input_ids.len() <= max_len {
                outcome == Ok::<(InputView, nat), Failure>((full, 0))
            } else {
                may_cut(tokenizer, asked, full, max_len, outcome)
            },
        }
}

/// `outcome` may come of cutting the state of a prompt that is too long.
pub open spec fn may_cut(
    tokenizer: Tokenizer,
    asked: Asked,
    full: InputView,
    max_len: nat,
    outcome: Result<(InputView, nat), Failure>,
) -> bool {
    exists|empty: Result<Seq<u32>, Seq<char>>|
        #[trigger] encoding(tokenizer, asked.prompt(Seq::empty()), true, empty) && match empty {
            Err(message) => outcome == Err::<(InputView, nat), Failure>(
                Failure::Tokenizer(message),
            ),
            Ok(empty_ids) => if empty_ids.len() > max_len {
                outcome == Err::<(InputView, nat), Failure>(
                    too_long(asked.task_family, empty_ids.len(), max_len),
                )
            } else {
                exists|state: Result<Seq<u32>, Seq<char>>|
                    #[trigger] encoding(tokenizer, asked.ax_tree, false, state) && match state {
                        Err(message) => outcome == Err::<(InputView, nat), Failure>(
                            Failure::Tokenizer(message),
                        ),
                        Ok(state_ids) => may_shorten(
                            tokenizer,
                            asked,
                            full,
                            Shortening { state_ids, empty_ids, max_len },
                            if max_len - empty_ids.len() <= state_ids.len() {
                                (max_len - empty_ids.len()) as nat
                            } else {
                                state_ids.len()
                            },
                            outcome,
                        ),
                    }
            },
        }
}

/// The result of building an input of bounded length, with its values as
/// sequences.
pub open spec fn bounded_outcome(result: Result<(CuaS1Input, usize), SystemOneError>) -> Result<
    (InputView, nat),
    Failure,
> {
    match result {
        Ok(made) => Ok((made.0@, made.1 as nat)),
        Err(error) => Err(error@),
    }
}

impl CuaS1Input {
    /// Builds an input of at most `max_len` tokens. Only the end of the state
    /// is dropped; the count says how many of its tokens.
    pub fn encode_with_max_len(
        tokenizer: &Tokenizer,
        options: &[CuaS1Option],
        app: &str,
        task_family: &str,
        ax_tree: &str,
        goal: Option<&str>,
        max_len: usize,
    ) -> (result: Result<(Self, usize), SystemOneError>)
        requires
            encodes(*tokenizer, true),
            encodes(*tokenizer, false),
            decodes(*tokenizer),
        ensures
            may_encode_within(
                *tokenizer,
                asked(options, app, task_family, ax_tree, goal),
                max_len as nat,
                bounded_outcome(result),
            ),
    {
        let ghost what = asked(options, app, task_family, ax_tree, goal);
        let input = match Self::encode(tokenizer, options, app, task_family, ax_tree, goal) {
            Ok(input) => input,
            Err(e) => {
                assert(may_encode(*tokenizer, what, Err(e@)));
                return Err(e);
            },
        };
        let ghost full = input@;
        assert(may_encode(*tokenizer, what, Ok(full)));
        if input.input_ids.len() <= max_len {
            return Ok((input, 0));
        }
        let (empty_prompt, letters) = match build_prompt(options, app, task_family, "", goal) {
            Ok(made) => made,
            Err(e) => {
                return Err(e);
            },
        };
        proof {
            reveal_strlit("");
            assert(""@ =~= Seq::<char>::empty());
            assert(empty_prompt@ == what.prompt(Seq::empty()));
        }
        let empty_ids = match encode(tokenizer, empty_prompt.as_str(), true) {
            Ok(ids) => ids,
            Err(message) => {
                let ghost empty: Result<Seq<u32>, Seq<char>> = Err(message@);
                assert(encoding(*tokenizer, what.prompt(Seq::empty()), true, empty));
                let e = SystemOneError::Tokenizer(message);
                assert(may_cut(*tokenizer, what, full, max_len as nat, Err(e@)));
                return Err(e);
            },
        };
        let ghost empty: Result<Seq<u32>, Seq<char>> = Ok(empty_ids@);
        assert(encoding(*tokenizer, what.prompt(Seq::empty()), true, empty));
        if empty_ids.len() > max_len {
            let mut reason = "Cua-S1 prompt requires ".to_owned();
            reason.append(decimal_text(empty_ids.len()).as_str());
            reason.append(" tokens even with an empty state, exceeding max_len (");
            reason.append(decimal_text(max_len).as_str());
            reason.append("); shorten the goal or options, or increase max_len");
            let e = SystemOneError::Question { id: task_family.to_owned(), reason };
            assert(may_cut(*tokenizer, what, full, max_len as nat, Err(e@)));
            return Err(e);
        }
        let state_ids = match encode(tokenizer, ax_tree, false) {
            Ok(ids) => ids,
            Err(message) => {
                let ghost state: Result<Seq<u32>, Seq<char>> = Err(message@);
                assert(encoding(*tokenizer, what.ax_tree, false, state));
                let e = SystemOneError::Tokenizer(message);
                assert(may_cut(*tokenizer, what, full, max_len as nat, Err(e@)));
                return Err(e);
            },
        };
        let ghost state: Result<Seq<u32>, Seq<char>> = Ok(state_ids@);
        assert(encoding(*tokenizer, what.ax_tree, false, state));
        let room: usize = max_len - empty_ids.len();
        let mut kept: usize = if room <= state_ids.len() {
            room
        } else {
            state_ids.len()
        };
        let ghost limits = Shortening {
            state_ids: state_ids@,
            empty_ids: empty_ids@,
            max_len: max_len as nat,
        };
        let ghost start = kept as nat;
        while kept > 0
            invariant
                encodes(*tokenizer, true),
                decodes(*tokenizer),
                what == asked(options, app, task_family, ax_tree, goal),
                1 <= options@.len() <= 26,
                full == input@,
                may_encode(*tokenizer, what, Ok(full)),
                full.input_ids.len() > max_len,
                empty == Ok::<Seq<u32>, Seq<char>>(empty_ids@),
                encoding(*tokenizer, what.prompt(Seq::empty()), true, empty),
                empty_ids@.len() <= max_len,
                state == Ok::<Seq<u32>, Seq<char>>(state_ids@),
                encoding(*tokenizer, what.ax_tree, false, state),
                limits == (Shortening {
                    state_ids: state_ids@,
                    empty_ids: empty_ids@,
                    max_len: max_len as nat,
                }),
                start == if max_len - empty_ids@.len() <= state_ids@.len() {
                    (max_len - empty_ids@.len()) as nat
                } else {
                    state_ids@.len()
                },
                kept <= state_ids@.len(),
                forall|outcome: Result<(InputView, nat), Failure>|
                    #[trigger] may_shorten(
                        *tokenizer,
                        what,
                        full,
                        limits,
                        kept as nat,
                        outcome,
                    ) ==> may_shorten(*tokenizer, what, full, limits, start, outcome),
            decreases kept,
        {
            let ghost before = kept as nat;
            let head = first_ids(&state_ids, kept);
            let prefix = match decode(tokenizer, head.as_slice(), false) {
                Ok(text) => text,
                Err(message) => {
                    let e = SystemOneError::Tokenizer(message);
                    assert(may_shorten(*tokenizer, what, full, limits, before, Err(e@)));
                    assert(may_cut(*tokenizer, what, full, max_len as nat, Err(e@)));
                    return Err(e);
                },
            };
            if !begins_with(ax_tree, prefix.as_str()) {
                kept = kept - 1;
                assert forall|outcome: Result<(InputView, nat), Failure>|
                    #[trigger] may_shorten(
                        *tokenizer,
                        what,
                        full,
                        limits,
                        kept as nat,
                        outcome,
                    ) implies may_shorten(*tokenizer, what, full, limits, start, outcome) by {
                    assert(may_shorten(*tokenizer, what, full, limits, before, outcome));
                }
                continue;
            }
            let (text, same_letters) = match build_prompt(
                options,
                app,
                task_family,
                prefix.as_str(),
                goal,
            ) {
                Ok(made) => made,
                Err(e) => {
                    return Err(e);
                },
            };
            assert(text@ == what.prompt(prefix@));
            match encode(tokenizer, text.as_str(), true) {
                Err(message) => {
                    let ghost encoded: Result<Seq<u32>, Seq<char>> = Err(message@);
                    assert(encoding(*tokenizer, what.prompt(prefix@), true, encoded));
                    let e = SystemOneError::Tokenizer(message);
                    assert(may_shorten(*tokenizer, what, full, limits, before, Err(e@)));
                    assert(may_cut(*tokenizer, what, full, max_len as nat, Err(e@)));
                    return Err(e);
                },
                Ok(ids) => {
                    let ghost encoded: Result<Seq<u32>, Seq<char>> = Ok(ids@);
                    assert(encoding(*tokenizer, what.prompt(prefix@), true, encoded));
                    if ids.len() <= max_len {
                        let ghost outcome = shortened(
                            full,
                            what,
                            prefix@,
                            ids@,
                            state_ids@.len() - before,
                        );
                        assert(may_shorten(*tokenizer, what, full, limits, before, outcome));
                        assert(may_cut(*tokenizer, what, full, max_len as nat, outcome));
                        let short = CuaS1Input {
                            chat_text: text,
                            input_ids: ids,
                            letters: input.letters,
                            letter_ids: input.letter_ids,
                        };
                        return Ok((short, state_ids.len() - kept));
                    }
                    let excess: usize = ids.len() - max_len;
                    if excess >= kept {
                        kept = 0;
                    } else {
                        kept = kept - excess;
                    }
                    assert forall|outcome: Result<(InputView, nat), Failure>|
                        #[trigger] may_shorten(
                            *tokenizer,
                            what,
                            full,
                            limits,
                            kept as nat,
                            outcome,
                        ) implies may_shorten(*tokenizer, what, full, limits, start, outcome) by {
                        assert(may_shorten(*tokenizer, what, full, limits, before, outcome));
                    }
                },
            }
        }
        let ghost outcome = shortened(
            full,
            what,
            Seq::empty(),
            empty_ids@,
            state_ids@.len() as int,
        );
        assert(may_shorten(*tokenizer, what, full, limits, 0, outcome));
        assert(may_cut(*tokenizer, what, full, max_len as nat, outcome));
        let short = CuaS1Input {
            chat_text: empty_prompt,
            input_ids: empty_ids,
            letters: input.letters,
            letter_ids: input.letter_ids,
        };
        Ok((short, state_ids.len()))
    }
}

/// The first `n` token ids.
fn first_ids(ids: &Vec<u32>, n: usize) -> (head: Vec<u32>)
    requires
        n <= ids.len(),
    ensures
        head@ == ids@.take(n as int),
{
    let mut head: Vec<u32> = Vec::new();
    let mut i: usize = 0;
    while i < n
        invariant
            i <= n <= ids.len(),
            head@ == ids@.take(i as int),
        decreases n - i,
    {
        head.push(ids[i]);
        assert(head@ =~= ids@.take(i + 1));
        i += 1;
    }
    head
}

} // verus!
