//! What the schema of a request says to the model.
use crate::error::Failure;
use crate::gliner_decide::schema::{
    described_text, has_marker, label_descriptions, label_names, label_tokens, label_tokens_at,
    label_tokens_len, normalized, option_descriptions, reserved_markers, said_if_any,
    step_descriptions, task_of, with_description, TaskView,
};
use crate::table::{has_key, place, put};
use crate::text::{blank, contains, decimal, texts};
use crate::text_laws::{blank_texts_hold_white_space_alone, white_space};
use crate::types::{ChoiceCriteria, ChoiceOption, Description, Question};
use vstd::prelude::*;

verus! {

/// How many labels a question has.
pub open spec fn label_count(q: &Question) -> nat {
    match q {
        Question::Choice(c) => match c.criteria {
            ChoiceCriteria::Labels(labels) => labels@.len(),
            ChoiceCriteria::Labelled(options) => options@.len(),
        },
        Question::Score(s) => s.criteria@.len(),
        Question::Noul(_) => 2,
    }
}

/// Label `i` of a question: the label of an option, the number of a step, or
/// "yes" and "no" for a statement.
pub open spec fn label_at(q: &Question, i: int) -> Seq<char> {
    match q {
        Question::Choice(c) => match c.criteria {
            ChoiceCriteria::Labels(labels) => labels@[i]@,
            ChoiceCriteria::Labelled(options) => options@[i].label@,
        },
        Question::Score(_) => decimal(i as nat),
        Question::Noul(_) => if i == 0 {
            "yes"@
        } else {
            "no"@
        },
    }
}

/// What the caller says about label `i`, where they say anything.
pub open spec fn given_for(q: &Question, i: int) -> Option<Seq<char>> {
    match q {
        Question::Choice(c) => match c.criteria {
            ChoiceCriteria::Labels(_) => None,
            ChoiceCriteria::Labelled(options) => match options@[i].description {
                Some(d) => Some(d.text@),
                None => None,
            },
        },
        Question::Score(s) => Some(s.criteria@[i].text@),
        Question::Noul(n) => match n.criteria {
            Some(c) => if i == 0 {
                match c.yes {
                    Some(d) => Some(d.text@),
                    None => None,
                }
            } else {
                match c.no {
                    Some(d) => Some(d.text@),
                    None => None,
                }
            },
            None => None,
        },
    }
}

/// A text has a character that is not white space.
pub open spec fn speaks(s: Seq<char>) -> bool {
    exists|i: int| 0 <= i < s.len() && !white_space().contains(#[trigger] s[i])
}

/// The caller describes label `i` with a text that says something.
pub open spec fn described_as(q: &Question, i: int, text: Seq<char>) -> bool {
    given_for(q, i) == Some(text) && speaks(text)
}

/// Entry `j` is about label `from[j]`, with the very text by which the caller
/// describes that label. The entries stand in the order of the labels, and no
/// label that the caller describes is left out.
pub open spec fn describe_labels_in_order(
    q: &Question,
    n: int,
    entries: Seq<(Seq<char>, Seq<char>)>,
    from: Seq<int>,
) -> bool {
    &&& from.len() == entries.len()
    &&& forall|j: int|
        #![trigger from[j]]
        0 <= j < from.len() ==> {
            &&& 0 <= from[j] < n
            &&& entries[j].0 == label_at(q, from[j])
            &&& described_as(q, from[j], entries[j].1)
        }
    &&& forall|j: int, k: int| 0 <= j < k < from.len() ==> #[trigger] from[j] < #[trigger] from[k]
    &&& forall|i: int|
        0 <= i < n && (#[trigger] given_for(q, i)) is Some && speaks(given_for(q, i)->0)
            ==> from.contains(i)
}

/// The entries hold the descriptions of the first `n` labels, and nothing
/// else.
pub open spec fn hold_descriptions(
    q: &Question,
    n: int,
    entries: Seq<(Seq<char>, Seq<char>)>,
) -> bool {
    exists|from: Seq<int>| describe_labels_in_order(q, n, entries, from)
}

/// The first `n` labels are told apart.
spec fn apart(q: &Question, n: int) -> bool {
    forall|a: int, b: int|
        0 <= a < n && 0 <= b < n && a != b ==> #[trigger] label_at(q, a) != #[trigger] label_at(q, b)
}

proof fn one_more_description(
    q: &Question,
    n: int,
    entries: Seq<(Seq<char>, Seq<char>)>,
    next: Seq<(Seq<char>, Seq<char>)>,
)
    requires
        0 <= n,
        apart(q, n + 1),
        hold_descriptions(q, n, entries),
        match given_for(q, n) {
            Some(text) => if speaks(text) {
                next == put(entries, label_at(q, n), text)
            } else {
                next == entries
            },
            None => next == entries,
        },
    ensures
        hold_descriptions(q, n + 1, next),
{
    let key = label_at(q, n);
    let from = choose|from: Seq<int>| describe_labels_in_order(q, n, entries, from);
    assert forall|j: int| 0 <= j < entries.len() implies (#[trigger] entries[j]).0 != key by {
        assert(label_at(q, from[j]) != label_at(q, n));
    }
    assert(!has_key(entries, key));
    if given_for(q, n) is Some && speaks(given_for(q, n)->0) {
        let text = given_for(q, n)->0;
        assert(next == entries.push((key, text)));
        let more = from.push(n);
        assert forall|j: int|
            #![trigger more[j]]
            0 <= j < more.len() implies {
            &&& 0 <= more[j] < n + 1
            &&& next[j].0 == label_at(q, more[j])
            &&& described_as(q, more[j], next[j].1)
        } by {
            if j < from.len() {
                assert(more[j] == from[j]);
                assert(next[j] == entries[j]);
            }
        }
        assert forall|i: int|
            0 <= i < n + 1 && (#[trigger] given_for(q, i)) is Some && speaks(
                given_for(q, i)->0,
            ) implies more.contains(i) by {
            if i < n {
                let j = choose|j: int| 0 <= j < from.len() && from[j] == i;
                assert(more[j] == i);
            } else {
                assert(more[from.len() as int] == i);
            }
        }
        assert(describe_labels_in_order(q, n + 1, next, more));
    } else {
        assert(describe_labels_in_order(q, n + 1, next, from));
    }
}

proof fn no_descriptions_yet(q: &Question)
    ensures
        hold_descriptions(q, 0, Seq::empty()),
{
    assert(describe_labels_in_order(q, 0, Seq::empty(), Seq::empty()));
}

proof fn said_speaks(d: Option<Description>)
    ensures
        said_if_any(d) == match d {
            Some(x) => if speaks(x.text@) {
                Some(x.text@)
            } else {
                None
            },
            None => None,
        },
{
    if let Some(x) = d {
        blank_texts_hold_white_space_alone(x.text@);
    }
}

proof fn options_hold(q: &Question, options: Seq<ChoiceOption>, n: nat)
    requires
        q matches Question::Choice(c) && c.criteria matches ChoiceCriteria::Labelled(o) && o@
            == options,
        n <= options.len(),
        apart(q, n as int),
    ensures
        hold_descriptions(q, n as int, option_descriptions(options, n)),
    decreases n,
{
    if n == 0 {
        no_descriptions_yet(q);
    } else {
        let m = (n - 1) as nat;
        options_hold(q, options, m);
        said_speaks(options[n - 1].description);
        one_more_description(
            q,
            n - 1,
            option_descriptions(options, m),
            option_descriptions(options, n),
        );
    }
}

proof fn steps_hold(q: &Question, criteria: Seq<Description>, n: nat)
    requires
        q matches Question::Score(s) && s.criteria@ == criteria,
        n <= criteria.len(),
        apart(q, n as int),
    ensures
        hold_descriptions(q, n as int, step_descriptions(criteria, n)),
    decreases n,
{
    if n == 0 {
        no_descriptions_yet(q);
    } else {
        let m = (n - 1) as nat;
        steps_hold(q, criteria, m);
        said_speaks(Some(criteria[n - 1]));
        one_more_description(
            q,
            n - 1,
            step_descriptions(criteria, m),
            step_descriptions(criteria, n),
        );
    }
}

proof fn nothing_is_described(q: &Question, n: int)
    requires
        0 <= n,
        forall|i: int| 0 <= i < n ==> #[trigger] given_for(q, i) is None,
    ensures
        hold_descriptions(q, n, Seq::empty()),
{
    assert(describe_labels_in_order(q, n, Seq::empty(), Seq::empty()));
}

proof fn labels_are_listed(q: &Question)
    ensures
        label_names(q).len() == label_count(q),
        forall|i: int|
            0 <= i < label_count(q) ==> #[trigger] label_names(q)[i] == label_at(q, i),
{
    match q {
        Question::Choice(c) => match c.criteria {
            ChoiceCriteria::Labels(labels) => {
                assert(label_names(q) == texts(labels@));
                assert forall|i: int| 0 <= i < label_count(q) implies #[trigger] label_names(q)[i]
                    == label_at(q, i) by {
                    assert(texts(labels@)[i] == labels@[i]@);
                }
            },
            ChoiceCriteria::Labelled(options) => {},
        },
        Question::Score(_) => {},
        Question::Noul(_) => {},
    }
}

/// A task says what the caller said: it has the question's name and labels, in
/// order; its instructions where they say anything; and under every label that
/// the caller describes that very description, and no other.
pub proof fn tasks_say_what_the_caller_said(id: Seq<char>, q: &Question)
    requires
        task_of(id, q) is Ok,
    ensures
        ({
            let task = task_of(id, q)->Ok_0;
            let instructions = match q {
                Question::Choice(c) => c.instructions.text@,
                Question::Score(s) => s.instructions.text@,
                Question::Noul(n) => n.instructions.text@,
            };
            &&& task.name == id
            &&& task.labels.len() == label_count(q)
            &&& forall|i: int|
                0 <= i < label_count(q) ==> #[trigger] task.labels[i] == label_at(q, i)
            &&& speaks(instructions) ==> task.prompt == Some(instructions)
            &&& !speaks(instructions) ==> task.prompt is None
            &&& hold_descriptions(q, label_count(q) as int, task.descriptions)
        }),
{
    let task = task_of(id, q)->Ok_0;
    let labels = label_names(q);
    labels_are_listed(q);
    blank_texts_hold_white_space_alone(q.asked());
    assert(apart(q, label_count(q) as int)) by {
        assert forall|a: int, b: int|
            0 <= a < label_count(q) && 0 <= b < label_count(q) && a != b implies #[trigger] label_at(
            q,
            a,
        ) != #[trigger] label_at(q, b) by {
            assert(labels[a] != labels[b]);
        }
    }
    match q {
        Question::Choice(c) => match c.criteria {
            ChoiceCriteria::Labels(_) => {
                nothing_is_described(q, label_count(q) as int);
            },
            ChoiceCriteria::Labelled(options) => {
                options_hold(q, options@, options@.len());
            },
        },
        Question::Score(s) => {
            steps_hold(q, s.criteria@, s.criteria@.len());
        },
        Question::Noul(n) => match n.criteria {
            Some(c) => {
                let one = with_description(Seq::empty(), "yes"@, c.yes);
                let two = with_description(one, "no"@, c.no);
                said_speaks(c.yes);
                said_speaks(c.no);
                no_descriptions_yet(q);
                one_more_description(q, 0, Seq::empty(), one);
                one_more_description(q, 1, one, two);
            },
            None => {
                nothing_is_described(q, 2);
            },
        },
    }
}

/// The words that the model reads as marks, and that no caller may use.
pub open spec fn marks() -> Seq<Seq<char>> {
    seq![
        "[SEP_STRUCT]"@,
        "[SEP_TEXT]"@,
        "[P]"@,
        "[C]"@,
        "[E]"@,
        "[R]"@,
        "[L]"@,
        "[EXAMPLE]"@,
        "[OUTPUT]"@,
        "[DESCRIPTION]"@,
    ]
}

/// A text holds one of the marks.
pub open spec fn marked(s: Seq<char>) -> bool {
    exists|i: int| 0 <= i < marks().len() && contains(s, #[trigger] marks()[i])
}

pub(crate) proof fn marks_are_reserved(s: Seq<char>)
    ensures
        has_marker(s) <==> marked(s),
{
    assert(reserved_markers() =~= marks());
}

/// The name, the instructions, a label or a description holds a mark.
pub open spec fn brings_mark(id: Seq<char>, q: &Question) -> bool {
    let instructions = match q {
        Question::Choice(c) => c.instructions.text@,
        Question::Score(s) => s.instructions.text@,
        Question::Noul(n) => n.instructions.text@,
    };
    ||| marked(id)
    ||| speaks(instructions) && marked(instructions)
    ||| exists|i: int| 0 <= i < label_count(q) && marked(#[trigger] label_at(q, i))
    ||| exists|i: int, text: Seq<char>|
        0 <= i < label_count(q) && #[trigger] described_as(q, i, text) && marked(text)
}

/// A question becomes a task where it has two labels at least, none of them
/// empty and no two alike, and brings no mark of the schema with it. The first
/// of these that fails is why it is refused, and the refusal names the
/// question.
pub proof fn questions_become_tasks_or_are_refused(id: Seq<char>, q: &Question)
    ensures
        ({
            let named = forall|i: int| 0 <= i < label_count(q) ==> #[trigger] label_at(q, i).len() > 0;
            let distinct = forall|a: int, b: int|
                0 <= a < b < label_count(q) ==> #[trigger] label_at(q, a) != #[trigger] label_at(
                    q,
                    b,
                );
            match task_of(id, q) {
                Ok(_) => label_count(q) >= 2 && named && distinct && !brings_mark(id, q),
                Err(failure) => {
                    let reason = failure->Question_reason;
                    &&& failure is Question
                    &&& failure->Question_id == id
                    &&& if label_count(q) < 2 {
                        reason == "needs at least two labels"@
                    } else if !(named && distinct) {
                        reason == "labels must be distinct and non-empty"@
                    } else {
                        brings_mark(id, q) && reason == "contains a reserved GLiNER2 marker"@
                    }
                },
            }
        }),
{
    let labels = label_names(q);
    labels_are_listed(q);
    let named = forall|i: int| 0 <= i < label_count(q) ==> #[trigger] label_at(q, i).len() > 0;
    let distinct = forall|a: int, b: int|
        0 <= a < b < label_count(q) ==> #[trigger] label_at(q, a) != #[trigger] label_at(q, b);
    assert(named == !crate::gliner_decide::schema::any_empty(labels)) by {
        if named {
            assert forall|i: int| 0 <= i < labels.len() implies (#[trigger] labels[i]).len() > 0 by {
                assert(label_at(q, i).len() > 0);
            }
        } else {
            let i = choose|i: int|
                0 <= i < label_count(q) && !(#[trigger] label_at(q, i).len() > 0);
            assert(labels[i].len() == 0);
        }
    }
    assert(distinct == labels.no_duplicates()) by {
        if distinct {
            assert forall|a: int, b: int|
                0 <= a < labels.len() && 0 <= b < labels.len() && a != b implies labels[a]
                != labels[b] by {
                if a < b {
                    assert(label_at(q, a) != label_at(q, b));
                } else {
                    assert(label_at(q, b) != label_at(q, a));
                }
            }
        }
        if labels.no_duplicates() {
            assert forall|a: int, b: int| 0 <= a < b < label_count(q) implies #[trigger] label_at(
                q,
                a,
            ) != #[trigger] label_at(q, b) by {
                assert(labels[a] != labels[b]);
            }
        }
    }
    if label_count(q) >= 2 && named && distinct {
        let instructions = q.asked();
        blank_texts_hold_white_space_alone(instructions);
        marks_are_reserved(id);
        marks_are_reserved(instructions);
        descriptions_hold(q);
        marked_labels(q);
        marked_descriptions(q);
    }
}

proof fn marked_labels(q: &Question)
    ensures
        crate::gliner_decide::schema::any_marker(label_names(q)) == exists|i: int|
            0 <= i < label_count(q) && marked(#[trigger] label_at(q, i)),
{
    let labels = label_names(q);
    labels_are_listed(q);
    if crate::gliner_decide::schema::any_marker(labels) {
        let i = choose|i: int| 0 <= i < labels.len() && has_marker(#[trigger] labels[i]);
        marks_are_reserved(labels[i]);
        assert(marked(label_at(q, i)));
    }
    if exists|i: int| 0 <= i < label_count(q) && marked(#[trigger] label_at(q, i)) {
        let i = choose|i: int| 0 <= i < label_count(q) && marked(#[trigger] label_at(q, i));
        marks_are_reserved(labels[i]);
        assert(has_marker(labels[i]));
    }
}

proof fn marked_descriptions(q: &Question)
    requires
        hold_descriptions(q, label_count(q) as int, label_descriptions(q)),
    ensures
        crate::gliner_decide::schema::any_described_marker(label_descriptions(q)) == exists|
            i: int,
            text: Seq<char>,
        |
            0 <= i < label_count(q) && #[trigger] described_as(q, i, text) && marked(text),
{
    let n = label_count(q) as int;
    let entries = label_descriptions(q);
    let from = choose|from: Seq<int>| describe_labels_in_order(q, n, entries, from);
    if crate::gliner_decide::schema::any_described_marker(entries) {
        let j = choose|j: int| 0 <= j < entries.len() && has_marker((#[trigger] entries[j]).1);
        marks_are_reserved(entries[j].1);
        assert(0 <= from[j] < n);
        assert(described_as(q, from[j], entries[j].1) && marked(entries[j].1));
    }
    if exists|i: int, text: Seq<char>|
        0 <= i < n && #[trigger] described_as(q, i, text) && marked(text) {
        let (i, text) = choose|i: int, text: Seq<char>|
            0 <= i < n && #[trigger] described_as(q, i, text) && marked(text);
        assert(from.contains(i));
        let j = choose|j: int| 0 <= j < from.len() && from[j] == i;
        assert(described_as(q, from[j], entries[j].1));
        marks_are_reserved(text);
        assert(has_marker(entries[j].1));
    }
}

proof fn descriptions_hold(q: &Question)
    requires
        forall|a: int, b: int|
            0 <= a < b < label_count(q) ==> #[trigger] label_at(q, a) != #[trigger] label_at(q, b),
    ensures
        hold_descriptions(q, label_count(q) as int, label_descriptions(q)),
{
    assert(apart(q, label_count(q) as int)) by {
        assert forall|a: int, b: int|
            0 <= a < label_count(q) && 0 <= b < label_count(q) && a != b implies #[trigger] label_at(
            q,
            a,
        ) != #[trigger] label_at(q, b) by {
            if b < a {
                assert(label_at(q, b) != label_at(q, a));
            }
        }
    }
    match q {
        Question::Choice(c) => match c.criteria {
            ChoiceCriteria::Labels(_) => {
                nothing_is_described(q, label_count(q) as int);
            },
            ChoiceCriteria::Labelled(options) => {
                options_hold(q, options@, options@.len());
            },
        },
        Question::Score(s) => {
            steps_hold(q, s.criteria@, s.criteria@.len());
        },
        Question::Noul(n) => match n.criteria {
            Some(c) => {
                let one = with_description(Seq::empty(), "yes"@, c.yes);
                let two = with_description(one, "no"@, c.no);
                said_speaks(c.yes);
                said_speaks(c.no);
                no_descriptions_yet(q);
                one_more_description(q, 0, Seq::empty(), one);
                one_more_description(q, 1, one, two);
            },
            None => {
                nothing_is_described(q, 2);
            },
        },
    }
}

} // verus!
