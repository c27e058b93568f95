//! The prompt of a question and its candidates.
use crate::error::{question_error, Failure, SystemOneError};
use crate::text::{
    all_distinct, blank, contains, copy_list, decimal, decimal_text, has_text, is_blank, same, texts,
};
use crate::types::{ChoiceCriteria, ChoiceOption, Question};
use vstd::prelude::*;
use vstd::string::StringExecFns;

verus! {

pub const DEFAULT_REPO_ID: &'static str = "heman10x/rlcd-modernbert-151m";

pub const DEFAULT_REVISION: &'static str = "8af2496eb63c7fa66d7d234e1f62629380030eb4";

pub const MODEL_NAME: &'static str = "OpenJev (Verdict)";

/// The candidate that stands for "not enough evidence".
pub const ABSTENTION_ID: &'static str = "__insufficient_evidence__";

/// Marks the line of a candidate.
pub const LABEL: &'static str = "<<LABEL>>";

/// Marks the end of the candidates.
pub const SEPARATOR: &'static str = "<<SEP>>";

/// The part of the prompt behind the candidates.
pub open spec fn body_text(state: Seq<char>, q: &Question) -> Seq<char> {
    match q {
        Question::Noul(_) => "Context:\n"@ + state + "\n\nEvaluate proposition: "@ + q.asked(),
        _ => "Question: "@ + q.asked() + "\n\nContext:\n"@ + state,
    }
}

/// What a choice option is called in the prompt: its description, or its
/// label where the description is missing or blank.
pub open spec fn option_name(o: ChoiceOption) -> Seq<char> {
    match o.description {
        Some(d) => if blank(d.text@) {
            o.label@
        } else {
            d.text@
        },
        None => o.label@,
    }
}

/// What the options of a choice are called in the prompt.
pub open spec fn option_names(criteria: &ChoiceCriteria) -> Seq<Seq<char>> {
    match criteria {
        ChoiceCriteria::Labels(labels) => texts(labels@),
        ChoiceCriteria::Labelled(options) => options@.map_values(|o: ChoiceOption| option_name(o)),
    }
}

/// The line of each candidate that a question names.
pub open spec fn candidate_lines(q: &Question) -> Seq<Seq<char>> {
    match q {
        Question::Choice(c) => option_names(&c.criteria).map_values(
            |name: Seq<char>| "It is "@ + name,
        ),
        Question::Score(s) => Seq::new(
            s.criteria@.len(),
            |i: int| s.criteria@[i].text@ + " (Value: "@ + decimal(i as nat) + ".0)"@,
        ),
        Question::Noul(n) => seq!["true: "@ + q.asked(), "false: not "@ + q.asked()],
    }
}

/// The candidates that a question names.
pub open spec fn candidate_ids(q: &Question) -> Seq<Seq<char>> {
    match q {
        Question::Choice(c) => c.criteria.label_texts(),
        Question::Score(s) => Seq::new(s.criteria@.len(), |i: int| decimal(i as nat)),
        Question::Noul(n) => seq!["true"@, "false"@],
    }
}

/// A statement whose outcomes the caller describes.
pub open spec fn custom_outcomes(q: &Question) -> bool {
    match q {
        Question::Noul(n) => n.criteria matches Some(c) && (c.yes is Some || c.no is Some),
        _ => false,
    }
}

/// Names that candidates may not have.
pub open spec fn reserved_id(id: Seq<char>) -> bool {
    id.len() == 0 || id == ABSTENTION_ID@ || id == "insufficient_evidence"@
}

/// Text that could be taken for a marker.
pub open spec fn marked(s: Seq<char>) -> bool {
    contains(s, LABEL@) || contains(s, SEPARATOR@)
}

/// The marked lines of the candidates.
pub open spec fn header_text(lines: Seq<Seq<char>>) -> Seq<char>
    decreases lines.len(),
{
    if lines.len() == 0 {
        Seq::empty()
    } else {
        header_text(lines.drop_last()) + LABEL@ + lines.last()
    }
}

/// A prompt and its candidates, or why the question cannot be asked.
pub open spec fn formatted(
    state: Seq<char>,
    id: Seq<char>,
    q: &Question,
    capacity: nat,
) -> Result<(Seq<char>, Seq<Seq<char>>), Failure> {
    let body = body_text(state, q);
    let lines = candidate_lines(q);
    let ids = candidate_ids(q);
    if custom_outcomes(q) {
        Err(
            Failure::Question {
                id,
                reason: "OpenJev noul uses proposition-based labels; custom true/false criteria are unsupported"@,
            },
        )
    } else if ids.len() < 2 || ids.len() >= capacity {
        Err(
            Failure::Question {
                id,
                reason: "OpenJev requires 2..="@ + decimal((capacity - 1) as nat)
                    + " substantive candidates"@,
            },
        )
    } else if (exists|i: int| 0 <= i < ids.len() && reserved_id(#[trigger] ids[i]))
        || !ids.no_duplicates() {
        Err(
            Failure::Question {
                id,
                reason: "candidate IDs must be distinct and cannot use reserved abstention IDs"@,
            },
        )
    } else if marked(body) || exists|i: int| 0 <= i < lines.len() && marked(#[trigger] lines[i]) {
        Err(Failure::Question { id, reason: "input contains reserved OpenJev marker text"@ })
    } else {
        Ok(
            (
                header_text(lines.push("insufficient evidence"@)) + SEPARATOR@ + body,
                ids.push(ABSTENTION_ID@),
            ),
        )
    }
}

/// The result of formatting, with its values as sequences.
pub open spec fn format_outcome(
    result: Result<(String, Vec<String>), SystemOneError>,
) -> Result<(Seq<char>, Seq<Seq<char>>), Failure> {
    match result {
        Ok(made) => Ok((made.0@, texts(made.1@))),
        Err(error) => Err(error@),
    }
}

/// Writes the part of the prompt behind the candidates.
fn write_body(state: &str, q: &Question) -> (body: String)
    ensures
        body@ == body_text(state@, q),
{
    let mut body = String::new();
    match q {
        Question::Noul(n) => {
            body.append("Context:\n");
            body.append(state);
            body.append("\n\nEvaluate proposition: ");
            body.append(n.instructions.text.as_str());
        },
        _ => {
            body.append("Question: ");
            body.append(q.instructions().text.as_str());
            body.append("\n\nContext:\n");
            body.append(state);
        },
    }
    assert(body@ =~= body_text(state@, q));
    body
}

/// What a choice option is called in the prompt.
fn name_option(o: &ChoiceOption) -> (name: String)
    ensures
        name@ == option_name(*o),
{
    match &o.description {
        Some(d) => if d.is_blank() {
            o.label.clone()
        } else {
            d.render()
        },
        None => o.label.clone(),
    }
}

/// What the options of a choice are called in the prompt.
fn name_options(criteria: &ChoiceCriteria) -> (names: Vec<String>)
    ensures
        texts(names@) == option_names(criteria),
{
    match criteria {
        ChoiceCriteria::Labels(labels) => copy_list(labels),
        ChoiceCriteria::Labelled(options) => {
            let mut names: Vec<String> = Vec::new();
            let mut i: usize = 0;
            while i < options.len()
                invariant
                    i <= options.len(),
                    names.len() == i,
                    forall|k: int| 0 <= k < i ==> (#[trigger] names@[k])@ == option_name(options@[k]),
                decreases options.len() - i,
            {
                names.push(name_option(&options[i]));
                i += 1;
            }
            assert(texts(names@) =~= option_names(criteria));
            names
        },
    }
}

/// Writes the line of each candidate that a question names.
fn write_lines(q: &Question) -> (lines: Vec<String>)
    ensures
        texts(lines@) == candidate_lines(q),
{
    let mut lines: Vec<String> = Vec::new();
    match q {
        Question::Choice(c) => {
            let names = name_options(&c.criteria);
            let mut i: usize = 0;
            while i < names.len()
                invariant
                    i <= names.len(),
                    lines.len() == i,
                    forall|k: int| 0 <= k < i ==> (#[trigger] lines@[k])@ == "It is "@ + names@[k]@,
                decreases names.len() - i,
            {
                let mut line = "It is ".to_owned();
                line.append(names[i].as_str());
                lines.push(line);
                i += 1;
            }
            assert(texts(names@).len() == names@.len());
            assert forall|k: int| 0 <= k < names@.len() implies texts(lines@)[k]
                == candidate_lines(q)[k] by {
                assert(texts(names@)[k] == names@[k]@);
            }
        },
        Question::Score(s) => {
            let mut i: usize = 0;
            while i < s.criteria.len()
                invariant
                    i <= s.criteria.len(),
                    lines.len() == i,
                    forall|k: int|
                        0 <= k < i ==> (#[trigger] lines@[k])@ == s.criteria@[k].text@
                            + " (Value: "@ + decimal(k as nat) + ".0)"@,
                decreases s.criteria.len() - i,
            {
                let mut line = s.criteria[i].render();
                line.append(" (Value: ");
                line.append(decimal_text(i).as_str());
                line.append(".0)");
                lines.push(line);
                i += 1;
            }
        },
        Question::Noul(n) => {
            let mut yes = "true: ".to_owned();
            yes.append(n.instructions.text.as_str());
            let mut no = "false: not ".to_owned();
            no.append(n.instructions.text.as_str());
            lines.push(yes);
            lines.push(no);
        },
    }
    assert(texts(lines@) =~= candidate_lines(q));
    lines
}

/// Lists the candidates that a question names.
fn list_ids(q: &Question) -> (ids: Vec<String>)
    ensures
        texts(ids@) == candidate_ids(q),
{
    match q {
        Question::Choice(c) => c.criteria.labels(),
        Question::Score(s) => {
            let mut ids: Vec<String> = Vec::new();
            let mut i: usize = 0;
            while i < s.criteria.len()
                invariant
                    i <= s.criteria.len(),
                    ids.len() == i,
                    forall|k: int| 0 <= k < i ==> (#[trigger] ids@[k])@ == decimal(k as nat),
                decreases s.criteria.len() - i,
            {
                ids.push(decimal_text(i));
                i += 1;
            }
            assert(texts(ids@) =~= candidate_ids(q));
            ids
        },
        Question::Noul(_) => {
            let mut ids: Vec<String> = Vec::new();
            ids.push("true".to_owned());
            ids.push("false".to_owned());
            assert(texts(ids@) =~= candidate_ids(q));
            ids
        },
    }
}

/// Whether a candidate may not have this name.
fn is_reserved_id(id: &str) -> (yes: bool)
    ensures
        yes == reserved_id(id@),
{
    id.is_empty() || same(id, ABSTENTION_ID) || same(id, "insufficient_evidence")
}

/// Whether any of the names is one that candidates may not have.
fn any_reserved_id(ids: &Vec<String>) -> (yes: bool)
    ensures
        yes == exists|i: int| 0 <= i < texts(ids@).len() && reserved_id(#[trigger] texts(ids@)[i]),
{
    let mut i: usize = 0;
    while i < ids.len()
        invariant
            i <= ids.len(),
            forall|k: int| 0 <= k < i ==> !reserved_id(#[trigger] texts(ids@)[k]),
        decreases ids.len() - i,
    {
        if is_reserved_id(ids[i].as_str()) {
            assert(reserved_id(texts(ids@)[i as int]));
            return true;
        }
        i += 1;
    }
    false
}

/// Whether text could be taken for a marker.
fn is_marked(s: &str) -> (yes: bool)
    ensures
        yes == marked(s@),
{
    has_text(s, LABEL) || has_text(s, SEPARATOR)
}

/// Whether any of the lines could be taken for a marker.
fn any_marked(lines: &Vec<String>) -> (yes: bool)
    ensures
        yes == exists|i: int| 0 <= i < texts(lines@).len() && marked(#[trigger] texts(lines@)[i]),
{
    let mut i: usize = 0;
    while i < lines.len()
        invariant
            i <= lines.len(),
            forall|k: int| 0 <= k < i ==> !marked(#[trigger] texts(lines@)[k]),
        decreases lines.len() - i,
    {
        if is_marked(lines[i].as_str()) {
            assert(marked(texts(lines@)[i as int]));
            return true;
        }
        i += 1;
    }
    false
}

/// Writes the marked lines of the candidates.
fn write_header(lines: &Vec<String>) -> (header: String)
    ensures
        header@ == header_text(texts(lines@)),
{
    let ghost all = texts(lines@);
    let mut header = String::new();
    let mut i: usize = 0;
    while i < lines.len()
        invariant
            i <= lines.len(),
            all == texts(lines@),
            header@ == header_text(all.take(i as int)),
        decreases lines.len() - i,
    {
        header.append(LABEL);
        header.append(lines[i].as_str());
        assert(all.take(i + 1).drop_last() =~= all.take(i as int));
        assert(all.take(i + 1).last() == lines@[i as int]@);
        i += 1;
    }
    assert(all.take(all.len() as int) =~= all);
    header
}

/// Writes the prompt for a question and lists its candidates, the abstention
/// last.
pub fn format_input(state: &str, id: &str, q: &Question, capacity: usize) -> (result: Result<
    (String, Vec<String>),
    SystemOneError,
>)
    requires
        capacity > 0,
    ensures
        format_outcome(result) == formatted(state@, id@, q, capacity as nat),
{
    let body = write_body(state, q);
    let mut lines = write_lines(q);
    let mut ids = list_ids(q);
    if let Question::Noul(n) = q {
        if let Some(c) = &n.criteria {
            if c.yes.is_some() || c.no.is_some() {
                return Err(
                    question_error(
                        id,
                        "OpenJev noul uses proposition-based labels; custom true/false criteria are unsupported",
                    ),
                );
            }
        }
    }
    if ids.len() < 2 || ids.len() >= capacity {
        let mut reason = "OpenJev requires 2..=".to_owned();
        reason.append(decimal_text(capacity - 1).as_str());
        reason.append(" substantive candidates");
        return Err(question_error(id, reason.as_str()));
    }
    if any_reserved_id(&ids) || !all_distinct(&ids) {
        return Err(
            question_error(
                id,
                "candidate IDs must be distinct and cannot use reserved abstention IDs",
            ),
        );
    }
    if is_marked(body.as_str()) || any_marked(&lines) {
        return Err(question_error(id, "input contains reserved OpenJev marker text"));
    }
    let ghost named = texts(lines@);
    let ghost named_ids = texts(ids@);
    lines.push("insufficient evidence".to_owned());
    ids.push(ABSTENTION_ID.to_owned());
    assert(texts(lines@) =~= named.push("insufficient evidence"@));
    assert(texts(ids@) =~= named_ids.push(ABSTENTION_ID@));
    let mut prompt = write_header(&lines);
    prompt.append(SEPARATOR);
    prompt.append(body.as_str());
    Ok((prompt, ids))
}

} // verus!
