//! What stands where in the input of a request.
use crate::error::Failure;
use crate::gliner_decide::input::{
    all_markers, all_pieces, input_of, kept_words, kept_words_fit, marker_piece, schema_pieces,
    task_markers, task_start, tasks_of, GlinerDecide, InputView,
};
use crate::gliner_decide::laws::tasks_follow_questions;
use crate::gliner_decide::schema::{
    described_text, has_marker, label_tokens, label_tokens_at, label_tokens_len, normalized,
    reserved_markers, task_of, TaskView,
};
use crate::gliner_decide::schema_laws::{marked, marks};
use crate::gliner_decide::words::{lowercase, pattern_matches, words_of};
use crate::text::decimal;
use crate::tokens::{encodes_all, encoding, joined, joined_grows};
use crate::tokens_laws::{counts_add_up, counts_agree, joined_lists_stand_in_order, token_count};
use crate::types::SystemOneRequest;
use vstd::prelude::*;

verus! {

/// A piece of a heading that describes a label.
pub open spec fn described_as(label: Seq<char>, text: Seq<char>) -> Seq<char> {
    " [DESCRIPTION] "@ + label + ": "@ + text
}

/// The name of a task with its instructions.
pub open spec fn named(task: TaskView) -> Seq<char> {
    match task.prompt {
        Some(prompt) => task.name + ": "@ + prompt,
        None => task.name,
    }
}

/// Where the description of each label starts in a heading.
spec fn heading_cuts(task: TaskView) -> Seq<int> {
    Seq::new(
        task.descriptions.len() + 1,
        |k: int| (named(task).len() + described_text(task.descriptions.take(k)).len()) as int,
    )
}

proof fn descriptions_stand_in_order(entries: Seq<(Seq<char>, Seq<char>)>, k: int)
    requires
        0 <= k < entries.len(),
    ensures
        ({
            let whole = described_text(entries);
            let at = described_text(entries.take(k)).len() as int;
            let to = described_text(entries.take(k + 1)).len() as int;
            &&& 0 <= at <= to <= whole.len()
            &&& whole.subrange(at, to) == described_as(entries[k].0, entries[k].1)
        }),
    decreases entries.len(),
{
    let whole = described_text(entries);
    let before = entries.drop_last();
    let front = described_text(before);
    let at = described_text(entries.take(k)).len() as int;
    let to = described_text(entries.take(k + 1)).len() as int;
    assert(entries.take(k + 1).drop_last() =~= entries.take(k));
    assert(entries.take(k + 1).last() == entries[k]);
    reveal_strlit(" ");
    reveal_strlit("[DESCRIPTION]");
    reveal_strlit(" [DESCRIPTION] ");
    assert(" "@ + "[DESCRIPTION]"@ + " "@ =~= " [DESCRIPTION] "@);
    let last = described_as(entries.last().0, entries.last().1);
    assert(whole =~= front + last);
    if k == entries.len() - 1 {
        assert(entries.take(k) =~= before);
        assert(entries.take(k + 1) =~= entries);
        assert(whole.subrange(at, to) =~= last);
    } else {
        descriptions_stand_in_order(before, k);
        assert(before.take(k) =~= entries.take(k));
        assert(before.take(k + 1) =~= entries.take(k + 1));
        assert(whole.subrange(at, to) =~= front.subrange(at, to));
    }
}

/// The heading of a task is its name, with its instructions behind a colon
/// where it has any, and then one description after the other, each behind its
/// mark and the label it is about; and that is all.
pub proof fn headings_hold_name_prompt_and_descriptions(task: TaskView) -> (cuts: Seq<int>)
    ensures
        cuts.len() == task.descriptions.len() + 1,
        task.prompt is None ==> cuts[0] == task.name.len() && task.heading().take(cuts[0])
            == task.name,
        task.prompt matches Some(prompt) ==> cuts[0] == task.name.len() + 2 + prompt.len()
            && task.heading().take(cuts[0]) == task.name + ": "@ + prompt,
        forall|k: int|
            #![trigger cuts[k]]
            0 <= k < task.descriptions.len() ==> {
                &&& 0 <= cuts[k] <= cuts[k + 1] <= task.heading().len()
                &&& task.heading().subrange(cuts[k], cuts[k + 1]) == " [DESCRIPTION] "@
                    + task.descriptions[k].0 + ": "@ + task.descriptions[k].1
            },
        cuts.last() == task.heading().len(),
{
    let cuts = heading_cuts(task);
    let heading = task.heading();
    let n = task.descriptions.len() as int;
    reveal_strlit(": ");
    assert(task.descriptions.take(0) =~= Seq::empty());
    assert(task.descriptions.take(n) =~= task.descriptions);
    assert(heading == named(task) + described_text(task.descriptions));
    assert(described_text(task.descriptions.take(0)).len() == 0);
    assert(heading.take(cuts[0]) =~= named(task));
    assert forall|k: int|
        #![trigger cuts[k]]
        0 <= k < n implies {
        &&& 0 <= cuts[k] <= cuts[k + 1] <= heading.len()
        &&& heading.subrange(cuts[k], cuts[k + 1]) == " [DESCRIPTION] "@ + task.descriptions[k].0
            + ": "@ + task.descriptions[k].1
    } by {
        descriptions_stand_in_order(task.descriptions, k);
        let at = described_text(task.descriptions.take(k)).len() as int;
        let to = described_text(task.descriptions.take(k + 1)).len() as int;
        assert(heading.subrange(cuts[k], cuts[k + 1]) =~= described_text(
            task.descriptions,
        ).subrange(at, to));
    }
    cuts
}

/// How many pieces stand in front of task `i`: seven for each task before it,
/// and two for each label of such a task.
pub open spec fn pieces_before(tasks: Seq<TaskView>, i: int) -> int
    decreases i,
{
    if i <= 0 {
        0
    } else {
        pieces_before(tasks, i - 1) + 7 + 2 * tasks[i - 1].labels.len()
    }
}

proof fn pieces_are_counted(tasks: Seq<TaskView>, n: nat)
    requires
        n <= tasks.len(),
    ensures
        n > 0 ==> schema_pieces(tasks, n).len() == pieces_before(tasks, n as int) - 1,
        n == 0 ==> schema_pieces(tasks, n).len() == 0,
    decreases n,
{
    if n > 0 {
        pieces_are_counted(tasks, (n - 1) as nat);
        label_tokens_len(tasks[n - 1].labels);
        assert(tasks[n - 1].schema().len() == 6 + 2 * tasks[n - 1].labels.len());
        assert(pieces_before(tasks, n - 1) >= 0);
        if n == 1 {
            assert(pieces_before(tasks, 0) == 0);
            assert(schema_pieces(tasks, 0).len() == 0);
        }
    }
}

/// The mark of label `j` and the label behind it stand in their places.
pub open spec fn label_stands(pieces: Seq<Seq<char>>, at: int, task: TaskView, j: int) -> bool {
    pieces[at + 4 + 2 * j] == "[L]"@ && pieces[at + 5 + 2 * j] == task.labels[j]
}

/// The pieces of a task stand from `at` on: the marks around its heading, and
/// every label behind a mark of its own, in order.
pub open spec fn task_stands(pieces: Seq<Seq<char>>, at: int, task: TaskView) -> bool {
    let n = task.labels.len() as int;
    &&& 0 <= at
    &&& at + 6 + 2 * n <= pieces.len()
    &&& pieces[at] == "("@
    &&& pieces[at + 1] == "[P]"@
    &&& pieces[at + 2] == task.heading()
    &&& pieces[at + 3] == "("@
    &&& forall|j: int| 0 <= j < n ==> #[trigger] label_stands(pieces, at, task, j)
    &&& pieces[at + 4 + 2 * n] == ")"@
    &&& pieces[at + 5 + 2 * n] == ")"@
}

proof fn schema_stands(task: TaskView)
    ensures
        task.schema().len() == 6 + 2 * task.labels.len(),
        task_stands(task.schema(), 0, task),
{
    let schema = task.schema();
    let labels = label_tokens(task.labels);
    let n = task.labels.len() as int;
    label_tokens_len(task.labels);
    assert(schema.len() == 6 + 2 * n);
    assert(schema[4 + 2 * n] == ")"@);
    assert(schema[5 + 2 * n] == ")"@);
    assert(schema[0] == "("@ && schema[1] == "[P]"@ && schema[2] == task.heading() && schema[3]
        == "("@);
    assert forall|j: int| 0 <= j < n implies #[trigger] label_stands(schema, 0, task, j) by {
        label_tokens_at(task.labels, j);
        assert(schema[4 + 2 * j] == labels[2 * j]);
        assert(schema[5 + 2 * j] == labels[2 * j + 1]);
    }
}

proof fn task_moves(a: Seq<Seq<char>>, b: Seq<Seq<char>>, at: int, shift: int, task: TaskView)
    requires
        task_stands(a, at, task),
        0 <= shift,
        shift + a.len() <= b.len(),
        forall|k: int| 0 <= k < a.len() ==> #[trigger] b[shift + k] == a[k],
    ensures
        task_stands(b, shift + at, task),
{
    let n = task.labels.len() as int;
    assert(b[shift + at] == a[at]);
    assert(b[shift + (at + 1)] == a[at + 1]);
    assert(b[shift + (at + 2)] == a[at + 2]);
    assert(b[shift + (at + 3)] == a[at + 3]);
    assert(b[shift + (at + 4 + 2 * n)] == a[at + 4 + 2 * n]);
    assert(b[shift + (at + 5 + 2 * n)] == a[at + 5 + 2 * n]);
    assert forall|j: int| 0 <= j < n implies #[trigger] label_stands(b, shift + at, task, j) by {
        assert(label_stands(a, at, task, j));
        assert(b[shift + (at + 4 + 2 * j)] == a[at + 4 + 2 * j]);
        assert(b[shift + (at + 5 + 2 * j)] == a[at + 5 + 2 * j]);
    }
}

/// The pieces of a task stand where those of the tasks before it end, and a
/// mark behind them ends the task. The last mark says that the state follows,
/// and nothing stands behind it.
pub proof fn pieces_of_tasks_stand_in_order(tasks: Seq<TaskView>, i: int)
    requires
        0 <= i < tasks.len(),
    ensures
        ({
            let pieces = all_pieces(tasks);
            let at = pieces_before(tasks, i);
            let behind = at + 6 + 2 * tasks[i].labels.len();
            &&& pieces.len() == pieces_before(tasks, tasks.len() as int)
            &&& task_stands(pieces, at, tasks[i])
            &&& behind < pieces.len()
            &&& i == tasks.len() - 1 ==> behind == pieces.len() - 1 && pieces[behind]
                == "[SEP_TEXT]"@
            &&& i < tasks.len() - 1 ==> pieces[behind] == "[SEP_STRUCT]"@
        }),
{
    let m = tasks.len();
    pieces_are_counted(tasks, m);
    pieces_stand(tasks, m, i);
    let front = schema_pieces(tasks, m);
    let pieces = all_pieces(tasks);
    assert forall|k: int| 0 <= k < front.len() implies #[trigger] pieces[0 + k] == front[k] by {}
    task_moves(front, pieces, pieces_before(tasks, i), 0, tasks[i]);
}

proof fn pieces_stand(tasks: Seq<TaskView>, m: nat, i: int)
    requires
        0 <= i < m <= tasks.len(),
    ensures
        ({
            let pieces = schema_pieces(tasks, m);
            let at = pieces_before(tasks, i);
            let behind = at + 6 + 2 * tasks[i].labels.len();
            &&& task_stands(pieces, at, tasks[i])
            &&& i < m - 1 ==> behind < pieces.len() && pieces[behind] == "[SEP_STRUCT]"@
        }),
    decreases m,
{
    let pieces = schema_pieces(tasks, m);
    let before = schema_pieces(tasks, (m - 1) as nat);
    let at = pieces_before(tasks, i);
    let behind = at + 6 + 2 * tasks[i].labels.len();
    pieces_are_counted(tasks, (m - 1) as nat);
    pieces_are_counted(tasks, m);
    schema_stands(tasks[m - 1]);
    if i == m - 1 {
        let schema = tasks[i].schema();
        assert(at == pieces.len() - schema.len());
        assert forall|k: int| 0 <= k < schema.len() implies #[trigger] pieces[at + k] == schema[k] by {}
        task_moves(schema, pieces, 0, at, tasks[i]);
    } else {
        pieces_stand(tasks, (m - 1) as nat, i);
        assert forall|k: int| 0 <= k < before.len() implies #[trigger] pieces[0 + k] == before[k] by {}
        task_moves(before, pieces, at, 0, tasks[i]);
        if i == m - 2 {
            assert(pieces_before(tasks, m - 1) == at + 7 + 2 * tasks[i].labels.len());
            assert(before.len() == behind);
            assert(pieces[before.len() as int] == "[SEP_STRUCT]"@);
        } else {
            assert(pieces[0 + behind] == before[behind]);
        }
    }
}

/// The marker of a label points at the tokens of the mark that stands right in
/// front of that very label, in its own task.
pub proof fn markers_stand_in_front_of_their_labels(
    tasks: Seq<TaskView>,
    schema: Seq<Seq<u32>>,
    words: Seq<Seq<u32>>,
    max_len: nat,
    i: int,
    j: int,
)
    requires
        schema.len() == all_pieces(tasks).len(),
        joined(schema, schema.len()).len() <= usize::MAX,
        0 <= i < tasks.len(),
        0 <= j < tasks[i].labels.len(),
    ensures
        ({
            let input = input_of(tasks, schema, words, max_len);
            let piece = pieces_before(tasks, i) + 4 + 2 * j;
            &&& input.tasks == tasks
            &&& input.markers.len() == tasks.len()
            &&& input.markers[i].len() == tasks[i].labels.len()
            &&& 0 <= piece < all_pieces(tasks).len() - 1
            &&& all_pieces(tasks)[piece] == "[L]"@
            &&& all_pieces(tasks)[piece + 1] == tasks[i].labels[j]
            &&& input.markers[i][j] == token_count(schema.subrange(0, piece))
        }),
{
    pieces_of_tasks_stand_in_order(tasks, i);
    pieces_are_counted(tasks, i as nat);
    let piece = pieces_before(tasks, i) + 4 + 2 * j;
    assert(label_stands(all_pieces(tasks), pieces_before(tasks, i), tasks[i], j));
    assert(task_start(tasks, i) == pieces_before(tasks, i));
    assert(marker_piece(tasks, i, j) == piece);
    counts_agree(schema, piece as nat);
    joined_grows(schema, piece as nat, schema.len());
    let input = input_of(tasks, schema, words, max_len);
    assert(input.markers[i] == task_markers(tasks, schema, i));
}

/// An input is the tokens of all pieces, in order, and behind them the tokens
/// of the words of the state from the left, as many whole words as the context
/// has room for: the next one would not fit. What was dropped is the tokens of
/// all other words.
pub proof fn inputs_hold_pieces_and_words(
    tasks: Seq<TaskView>,
    schema: Seq<Seq<u32>>,
    words: Seq<Seq<u32>>,
    max_len: nat,
) -> (kept: int)
    requires
        token_count(schema) <= max_len,
    ensures
        0 <= kept <= words.len(),
        ({
            let input = input_of(tasks, schema, words, max_len);
            let front = token_count(schema) as int;
            let shown = token_count(words.subrange(0, kept)) as int;
            &&& input.ids.len() == front + shown
            &&& front + shown <= max_len
            &&& kept < words.len() ==> front + shown + words[kept].len() > max_len
            &&& input.dropped_tokens == token_count(words.subrange(kept, words.len() as int))
            &&& forall|k: int|
                #![trigger schema[k]]
                0 <= k < schema.len() ==> {
                    let at = token_count(schema.subrange(0, k)) as int;
                    at + schema[k].len() <= front && input.ids.subrange(at, at + schema[k].len())
                        == schema[k]
                }
            &&& forall|k: int|
                #![trigger words[k]]
                0 <= k < kept ==> {
                    let at = front + token_count(words.subrange(0, k)) as int;
                    at + words[k].len() <= input.ids.len() && input.ids.subrange(
                        at,
                        at + words[k].len(),
                    ) == words[k]
                }
        }),
{
    let front = joined(schema, schema.len());
    counts_agree(schema, schema.len());
    assert(schema.subrange(0, schema.len() as int) =~= schema);
    let kept = kept_words(front.len(), words, max_len, words.len());
    kept_words_fit(front.len(), words, max_len, words.len());
    let input = input_of(tasks, schema, words, max_len);
    let state = joined(words, kept);
    counts_agree(words, kept);
    counts_agree(words, words.len());
    assert(words.subrange(0, words.len() as int) =~= words);
    counts_add_up(words.subrange(0, kept as int), words.subrange(kept as int, words.len() as int));
    assert(words.subrange(0, kept as int) + words.subrange(kept as int, words.len() as int)
        =~= words);
    assert forall|k: int|
        #![trigger schema[k]]
        0 <= k < schema.len() implies {
        let at = token_count(schema.subrange(0, k)) as int;
        at + schema[k].len() <= front.len() && input.ids.subrange(at, at + schema[k].len())
            == schema[k]
    } by {
        joined_lists_stand_in_order(schema, schema.len(), k);
        let at = token_count(schema.subrange(0, k)) as int;
        assert(input.ids.subrange(at, at + schema[k].len()) =~= front.subrange(
            at,
            at + schema[k].len(),
        ));
    }
    assert forall|k: int|
        #![trigger words[k]]
        0 <= k < kept implies {
        let at = front.len() + token_count(words.subrange(0, k)) as int;
        at + words[k].len() <= input.ids.len() && input.ids.subrange(at, at + words[k].len())
            == words[k]
    } by {
        joined_lists_stand_in_order(words, kept, k);
        let at = token_count(words.subrange(0, k)) as int;
        assert(input.ids.subrange(front.len() + at, front.len() + at + words[k].len())
            =~= state.subrange(at, at + words[k].len()));
    }
    kept as int
}

/// Text is closed with a full stop unless it ends a sentence already; nothing
/// else of it changes, and closing it again changes nothing.
pub proof fn texts_are_closed(s: Seq<char>)
    ensures
        normalized(s).len() > 0,
        normalized(s).last() == '.' || normalized(s).last() == '!' || normalized(s).last() == '?',
        s.len() > 0 && (s.last() == '.' || s.last() == '!' || s.last() == '?') ==> normalized(s)
            == s,
        s.len() == 0 || !(s.last() == '.' || s.last() == '!' || s.last() == '?') ==> normalized(s)
            == s.push('.'),
        normalized(normalized(s)) == normalized(s),
{
    reveal_strlit(".");
    assert("."@ =~= seq!['.']);
    if s.len() == 0 {
        assert(s.push('.') =~= "."@);
    } else {
        assert(s.push('.') =~= s + "."@);
    }
}

/// Where an input is built, each question of the request became a task of its
/// own, in order; the pieces and the words of the closed state, each in lower
/// case, were encoded without special tokens; and the input is made of these
/// encodings within the model's context.
pub proof fn inputs_are_built_from_the_request(
    model: &GlinerDecide,
    request: &SystemOneRequest,
    input: InputView,
)
    requires
        model.may_build(request, Ok(input)),
    ensures
        request.questions@.len() > 0,
        input.tasks.len() == request.questions@.len(),
        forall|k: int|
            0 <= k < input.tasks.len() ==> task_of(
                request.questions@[k].0,
                &request.questions@[k].1,
            ) == Ok::<TaskView, Failure>(#[trigger] input.tasks[k]),
        exists|schema: Seq<Seq<u32>>, words: Seq<Seq<u32>>|
            {
                &&& schema.len() == all_pieces(input.tasks).len()
                &&& forall|k: int|
                    0 <= k < schema.len() ==> encoding(
                        model.tokenizer,
                        all_pieces(input.tasks)[k],
                        false,
                        Ok(#[trigger] schema[k]),
                    )
                &&& words.len() == words_of(normalized(request.state.text@)).len()
                &&& forall|k: int|
                    0 <= k < words.len() ==> encoding(
                        model.tokenizer,
                        words_of(normalized(request.state.text@))[k],
                        false,
                        Ok(#[trigger] words[k]),
                    )
                &&& token_count(schema) <= model.max_len
                &&& input == #[trigger] input_of(
                    input.tasks,
                    schema,
                    words,
                    model.max_len as nat,
                )
            },
        !marked(normalized(request.state.text@)),
{
    let n = request.questions@.len();
    let tasks = tasks_of(request, n)->Ok_0;
    let outcome: Result<InputView, Failure> = Ok(input);
    tasks_follow_questions(request, n);
    let schema = choose|schema: Seq<Seq<u32>>|
        #[trigger] encodes_all(model.tokenizer, all_pieces(tasks), schema) && model.may_follow(
            tasks,
            schema,
            request.state.text@,
            outcome,
        );
    let found = words_of(normalized(request.state.text@));
    let words = choose|lists: Seq<Seq<u32>>|
        #[trigger] encodes_all(model.tokenizer, found, lists) && outcome == Ok::<
            InputView,
            Failure,
        >(input_of(tasks, schema, lists, model.max_len as nat));
    assert(input.tasks == tasks);
    counts_agree(schema, schema.len());
    assert(schema.subrange(0, schema.len() as int) =~= schema);
    assert forall|k: int| 0 <= k < schema.len() implies encoding(
        model.tokenizer,
        all_pieces(input.tasks)[k],
        false,
        Ok(#[trigger] schema[k]),
    ) by {
        assert(encoding(model.tokenizer, all_pieces(tasks)[k], false, Ok(schema[k])));
    }
    assert forall|k: int| 0 <= k < words.len() implies encoding(
        model.tokenizer,
        found[k],
        false,
        Ok(#[trigger] words[k]),
    ) by {
        assert(encoding(model.tokenizer, found[k], false, Ok(words[k])));
    }
    assert(input == input_of(input.tasks, schema, words, model.max_len as nat));
    assert(reserved_markers() =~= marks());
}

/// The words of a text are the matches of the word pattern, in order and in
/// lower case.
pub proof fn words_are_matches_in_lower_case(text: Seq<char>)
    ensures
        ({
            let found = pattern_matches(
                r"(?i)(?:https?://\S+|www\.\S+)|[a-z0-9._%+-]+@[a-z0-9.-]+\.[a-z]{2,}|@[a-z0-9_]+|\w+(?:[-_]\w+)*|\S"@,
                text,
            );
            &&& words_of(text).len() == found.len()
            &&& forall|k: int|
                0 <= k < found.len() ==> #[trigger] words_of(text)[k] == lowercase(found[k])
        }),
{
}

} // verus!
