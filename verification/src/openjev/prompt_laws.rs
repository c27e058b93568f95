//! What the prompt of a question says, and where.
use crate::error::Failure;
use crate::openjev::prompt::{
    body_text, candidate_ids, candidate_lines, formatted, header_text, marked, option_name,
    option_names,
};
use crate::text::{blank, contains, decimal, texts};
use crate::text_laws::{blank_texts_hold_white_space_alone, white_space};
use crate::types::{ChoiceCriteria, ChoiceOption, Question};
use vstd::prelude::*;

verus! {

/// How many candidates of its own a question has.
pub open spec fn own_candidates(q: &Question) -> nat {
    match q {
        Question::Choice(c) => match c.criteria {
            ChoiceCriteria::Labels(labels) => labels@.len(),
            ChoiceCriteria::Labelled(options) => options@.len(),
        },
        Question::Score(s) => s.criteria@.len(),
        Question::Noul(_) => 2,
    }
}

/// The name of candidate `k` of a question: the label of an option, the number
/// of a step, or the outcome of a statement.
pub open spec fn own_name(q: &Question, k: int) -> Seq<char> {
    match q {
        Question::Choice(c) => match c.criteria {
            ChoiceCriteria::Labels(labels) => labels@[k]@,
            ChoiceCriteria::Labelled(options) => options@[k].label@,
        },
        Question::Score(_) => decimal(k as nat),
        Question::Noul(_) => if k == 0 {
            "true"@
        } else {
            "false"@
        },
    }
}

/// A text has a character that is not white space.
pub open spec fn speaks(s: Seq<char>) -> bool {
    exists|i: int| 0 <= i < s.len() && !white_space().contains(#[trigger] s[i])
}

/// The line says what candidate `k` of the question is about.
pub open spec fn describes(q: &Question, k: int, line: Seq<char>) -> bool {
    match q {
        Question::Choice(c) => match c.criteria {
            ChoiceCriteria::Labels(labels) => line == "It is "@ + labels@[k]@,
            ChoiceCriteria::Labelled(options) => match options@[k].description {
                Some(d) => {
                    &&& speaks(d.text@) ==> line == "It is "@ + d.text@
                    &&& !speaks(d.text@) ==> line == "It is "@ + options@[k].label@
                },
                None => line == "It is "@ + options@[k].label@,
            },
        },
        Question::Score(s) => line == s.criteria@[k].text@ + " (Value: "@ + decimal(k as nat)
            + ".0)"@,
        Question::Noul(n) => {
            &&& k == 0 ==> line == "true: "@ + n.instructions.text@
            &&& k == 1 ==> line == "false: not "@ + n.instructions.text@
        },
    }
}

/// What stands behind the separator asks the question about the state.
pub open spec fn poses(q: &Question, state: Seq<char>, body: Seq<char>) -> bool {
    match q {
        Question::Choice(c) => body == "Question: "@ + c.instructions.text@ + "\n\nContext:\n"@
            + state,
        Question::Score(s) => body == "Question: "@ + s.instructions.text@ + "\n\nContext:\n"@
            + state,
        Question::Noul(n) => body == "Context:\n"@ + state + "\n\nEvaluate proposition: "@
            + n.instructions.text@,
    }
}

/// The text between the marker of line `k` and the next cut.
pub open spec fn line_at(prompt: Seq<char>, cuts: Seq<int>, k: int) -> Seq<char> {
    prompt.subrange(cuts[k] + 9, cuts[k + 1])
}

/// Where the lines start, one behind the other, and where the last one ends.
spec fn cuts_of(lines: Seq<Seq<char>>) -> Seq<int> {
    Seq::new(lines.len() + 1, |k: int| header_text(lines.take(k)).len() as int)
}

proof fn header_lines(lines: Seq<Seq<char>>, k: int)
    requires
        0 <= k < lines.len(),
    ensures
        ({
            let header = header_text(lines);
            let at = header_text(lines.take(k)).len() as int;
            let to = header_text(lines.take(k + 1)).len() as int;
            &&& 0 <= at
            &&& to == at + 9 + lines[k].len()
            &&& to <= header.len()
            &&& header.subrange(at, at + 9) == "<<LABEL>>"@
            &&& header.subrange(at + 9, to) == lines[k]
        }),
    decreases lines.len(),
{
    reveal_strlit("<<LABEL>>");
    let n = lines.len() as int;
    let before = lines.drop_last();
    let front = header_text(before);
    let header = header_text(lines);
    let at = header_text(lines.take(k)).len() as int;
    assert(lines.take(k + 1).drop_last() =~= lines.take(k));
    assert(lines.take(k + 1).last() == lines[k]);
    if k == n - 1 {
        assert(lines.take(k) =~= before);
        assert(lines.take(k + 1) =~= lines);
        assert(header.subrange(at, at + 9) =~= "<<LABEL>>"@);
        assert(header.subrange(at + 9, header.len() as int) =~= lines[k]);
    } else {
        header_lines(before, k);
        assert(before.take(k) =~= lines.take(k));
        assert(before.take(k + 1) =~= lines.take(k + 1));
        let to = header_text(lines.take(k + 1)).len() as int;
        assert(header.subrange(at, at + 9) =~= front.subrange(at, at + 9));
        assert(header.subrange(at + 9, to) =~= front.subrange(at + 9, to));
    }
}

proof fn lines_describe(q: &Question, k: int)
    requires
        0 <= k < own_candidates(q),
    ensures
        candidate_lines(q).len() == own_candidates(q),
        candidate_ids(q).len() == own_candidates(q),
        candidate_ids(q)[k] == own_name(q, k),
        describes(q, k, candidate_lines(q)[k]),
{
    match q {
        Question::Choice(c) => match c.criteria {
            ChoiceCriteria::Labels(labels) => {
                assert(option_names(&c.criteria) == texts(labels@));
                assert(texts(labels@)[k] == labels@[k]@);
            },
            ChoiceCriteria::Labelled(options) => {
                assert(option_names(&c.criteria)[k] == option_name(options@[k]));
                if let Some(d) = options@[k].description {
                    blank_texts_hold_white_space_alone(d.text@);
                }
            },
        },
        Question::Score(_) => {},
        Question::Noul(_) => {},
    }
}

/// A prompt has one marked line per candidate, in the order of the
/// candidates. Cut where the lines start, it is: for each candidate of the
/// question the marker and a line about that very candidate; for the
/// abstention, which comes last, the marker and its line; then the separator,
/// and the question with the state. No line but the abstention's, and nothing
/// behind the separator, holds a marker.
pub proof fn prompts_mark_one_line_per_candidate(
    state: Seq<char>,
    id: Seq<char>,
    q: &Question,
    capacity: nat,
) -> (cuts: Seq<int>)
    requires
        formatted(state, id, q, capacity) is Ok,
    ensures
        ({
            let (prompt, candidates) = formatted(state, id, q, capacity)->Ok_0;
            let n = own_candidates(q) as int;
            &&& candidates.len() == n + 1
            &&& cuts.len() == n + 2
            &&& cuts[0] == 0
            &&& forall|k: int|
                #![trigger cuts[k]]
                0 <= k <= n ==> {
                    &&& cuts[k] + 9 <= cuts[k + 1] <= prompt.len()
                    &&& prompt.subrange(cuts[k], cuts[k] + 9) == "<<LABEL>>"@
                }
            &&& forall|k: int|
                #![trigger candidates[k]]
                0 <= k < n ==> {
                    &&& candidates[k] == own_name(q, k)
                    &&& describes(q, k, line_at(prompt, cuts, k))
                    &&& !contains(line_at(prompt, cuts, k), "<<LABEL>>"@)
                    &&& !contains(line_at(prompt, cuts, k), "<<SEP>>"@)
                }
            &&& candidates[n] == "__insufficient_evidence__"@
            &&& line_at(prompt, cuts, n) == "insufficient evidence"@
            &&& cuts[n + 1] + 7 <= prompt.len()
            &&& prompt.subrange(cuts[n + 1], cuts[n + 1] + 7) == "<<SEP>>"@
            &&& poses(q, state, prompt.skip(cuts[n + 1] + 7))
            &&& !contains(prompt.skip(cuts[n + 1] + 7), "<<LABEL>>"@)
            &&& !contains(prompt.skip(cuts[n + 1] + 7), "<<SEP>>"@)
        }),
{
    let (prompt, candidates) = formatted(state, id, q, capacity)->Ok_0;
    let named = candidate_lines(q);
    let lines = named.push("insufficient evidence"@);
    let header = header_text(lines);
    let body = body_text(state, q);
    let cuts = cuts_of(lines);
    let n = own_candidates(q) as int;
    reveal_strlit("<<SEP>>");
    assert(n >= 2) by {
        if n > 0 {
            lines_describe(q, 0);
        }
        assert(candidate_ids(q).len() == n);
    }
    lines_describe(q, 0);
    assert(lines.take(0) =~= Seq::empty());
    assert(lines.take(n + 1) =~= lines);
    assert(prompt == header + "<<SEP>>"@ + body);
    assert forall|k: int|
        #![trigger cuts[k]]
        0 <= k <= n implies {
        &&& cuts[k] + 9 <= cuts[k + 1] <= prompt.len()
        &&& prompt.subrange(cuts[k], cuts[k] + 9) == "<<LABEL>>"@
        &&& line_at(prompt, cuts, k) == lines[k]
    } by {
        header_lines(lines, k);
        assert(prompt.subrange(cuts[k], cuts[k] + 9) =~= header.subrange(cuts[k], cuts[k] + 9));
        assert(line_at(prompt, cuts, k) =~= header.subrange(cuts[k] + 9, cuts[k + 1]));
    }
    assert forall|k: int|
        #![trigger candidates[k]]
        0 <= k < n implies {
        &&& candidates[k] == own_name(q, k)
        &&& describes(q, k, line_at(prompt, cuts, k))
        &&& !contains(line_at(prompt, cuts, k), "<<LABEL>>"@)
        &&& !contains(line_at(prompt, cuts, k), "<<SEP>>"@)
    } by {
        lines_describe(q, k);
        assert(lines[k] == named[k]);
        assert(!marked(named[k]));
        assert(candidates[k] == candidate_ids(q)[k]);
    }
    assert(candidates[n] == "__insufficient_evidence__"@);
    let to = cuts[n + 1];
    assert(to == header.len());
    assert(prompt.subrange(to, to + 7) =~= "<<SEP>>"@);
    assert(prompt.skip(to + 7) =~= body);
    assert(cuts[n] + 9 <= to);
    cuts
}

/// A text holds a marker of the prompt.
pub open spec fn holds_marker(s: Seq<char>) -> bool {
    contains(s, "<<LABEL>>"@) || contains(s, "<<SEP>>"@)
}

/// The caller describes what an outcome of a statement means.
pub open spec fn redefines_outcomes(q: &Question) -> bool {
    q matches Question::Noul(n) && n.criteria matches Some(c) && (c.yes is Some || c.no is Some)
}

/// The names of the candidates can tell them apart from each other and from
/// the abstention.
pub open spec fn well_named(q: &Question) -> bool {
    &&& forall|k: int|
        0 <= k < own_candidates(q) ==> {
            &&& (#[trigger] own_name(q, k)).len() > 0
            &&& own_name(q, k) != "__insufficient_evidence__"@
            &&& own_name(q, k) != "insufficient_evidence"@
        }
    &&& forall|i: int, j: int|
        0 <= i < j < own_candidates(q) ==> #[trigger] own_name(q, i) != #[trigger] own_name(q, j)
}

/// A text that would go into the prompt holds a marker.
pub open spec fn smuggles_marker(q: &Question, state: Seq<char>) -> bool {
    ||| exists|body: Seq<char>| #[trigger] poses(q, state, body) && holds_marker(body)
    ||| exists|k: int, line: Seq<char>|
        0 <= k < own_candidates(q) && #[trigger] describes(q, k, line) && holds_marker(line)
}

proof fn lines_are_unique(q: &Question, k: int, a: Seq<char>, b: Seq<char>)
    requires
        0 <= k < own_candidates(q),
        describes(q, k, a),
        describes(q, k, b),
    ensures
        a == b,
{
    match q {
        Question::Choice(c) => match c.criteria {
            ChoiceCriteria::Labels(labels) => {},
            ChoiceCriteria::Labelled(options) => {},
        },
        Question::Score(_) => {},
        Question::Noul(_) => {},
    }
}

/// A question can be asked where it leaves the outcomes of a statement as
/// they are, has at least two candidates and fewer than the capacity, names
/// them apart, and brings no marker into the prompt. The first of these that
/// fails is the reason why it is refused, and the refusal names the question.
pub proof fn questions_are_asked_or_refused(
    state: Seq<char>,
    id: Seq<char>,
    q: &Question,
    capacity: nat,
)
    requires
        capacity > 0,
    ensures
        match formatted(state, id, q, capacity) {
            Ok(_) => {
                &&& !redefines_outcomes(q)
                &&& 2 <= own_candidates(q) < capacity
                &&& well_named(q)
                &&& !smuggles_marker(q, state)
            },
            Err(failure) => {
                let reason = failure->Question_reason;
                &&& failure is Question
                &&& failure->Question_id == id
                &&& if redefines_outcomes(q) {
                    reason
                        == "OpenJev noul uses proposition-based labels; custom true/false criteria are unsupported"@
                } else if !(2 <= own_candidates(q) < capacity) {
                    reason == "OpenJev requires 2..="@ + decimal((capacity - 1) as nat)
                        + " substantive candidates"@
                } else if !well_named(q) {
                    reason
                        == "candidate IDs must be distinct and cannot use reserved abstention IDs"@
                } else {
                    smuggles_marker(q, state) && reason
                        == "input contains reserved OpenJev marker text"@
                }
            },
        },
{
    let ids = candidate_ids(q);
    let lines = candidate_lines(q);
    let n = own_candidates(q) as int;
    if n > 0 {
        lines_describe(q, 0);
    }
    assert forall|k: int| 0 <= k < n implies #[trigger] ids[k] == own_name(q, k) && describes(
        q,
        k,
        lines[k],
    ) by {
        lines_describe(q, k);
    }
    let unreserved = !(exists|i: int|
        0 <= i < ids.len() && crate::openjev::prompt::reserved_id(#[trigger] ids[i]));
    if unreserved && ids.no_duplicates() {
        assert forall|k: int| 0 <= k < n implies {
            &&& (#[trigger] own_name(q, k)).len() > 0
            &&& own_name(q, k) != "__insufficient_evidence__"@
            &&& own_name(q, k) != "insufficient_evidence"@
        } by {
            assert(!crate::openjev::prompt::reserved_id(ids[k]));
        }
        assert forall|i: int, j: int| 0 <= i < j < n implies #[trigger] own_name(q, i)
            != #[trigger] own_name(q, j) by {
            assert(ids[i] != ids[j]);
        }
        assert(well_named(q));
    }
    if well_named(q) {
        assert forall|i: int| 0 <= i < ids.len() implies !crate::openjev::prompt::reserved_id(
            #[trigger] ids[i],
        ) by {
            assert(own_name(q, i).len() > 0);
        }
        assert forall|i: int, j: int| 0 <= i < ids.len() && 0 <= j < ids.len() && i != j implies ids[i]
            != ids[j] by {
            if i < j {
                assert(own_name(q, i) != own_name(q, j));
            } else {
                assert(own_name(q, j) != own_name(q, i));
            }
        }
    }
    let body = body_text(state, q);
    assert(poses(q, state, body));
    let hidden = marked(body) || exists|i: int|
        0 <= i < lines.len() && marked(#[trigger] lines[i]);
    assert(hidden == smuggles_marker(q, state)) by {
        if hidden {
            if !marked(body) {
                let i = choose|i: int| 0 <= i < lines.len() && marked(#[trigger] lines[i]);
                assert(ids[i] == own_name(q, i));
                assert(describes(q, i, lines[i]) && holds_marker(lines[i]));
            }
        }
        if exists|k: int, line: Seq<char>|
            0 <= k < own_candidates(q) && #[trigger] describes(q, k, line) && holds_marker(line) {
            let (k, line) = choose|k: int, line: Seq<char>|
                0 <= k < own_candidates(q) && #[trigger] describes(q, k, line) && holds_marker(
                    line,
                );
            assert(ids[k] == own_name(q, k));
            lines_are_unique(q, k, line, lines[k]);
            assert(marked(lines[k]));
        }
    }
}

} // verus!
