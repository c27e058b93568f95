//! What questions, answers and tables of them come to.
use crate::backend::DecisionModel;
use crate::jev::kind_matches;
use crate::ordering::{in_order, is_ranking, numbers_below};
use crate::responses::{may_come_from, replies, replies_to, Evaluated};
use crate::sorted::lex;
use crate::table::{collected, distinct_keys, has_key, lookup, put};
use crate::text_laws::{decimals_stand_for_their_numbers, value_of};
use crate::types::{
    asked_before, legend_entries, Answer, ChoiceCriteria, Description, Question,
    QuestionKind, SystemOneRequest, SystemOneResponse,
};
use vstd::prelude::*;

verus! {

/// The text is the description that was given, or else the text that stands in
/// for one.
pub open spec fn says_or(text: Seq<char>, given: Option<Description>, instead: Seq<char>) -> bool {
    match given {
        Some(d) => text == d.text@,
        None => text == instead,
    }
}

/// A choice offers one option per label, in order; a score one per level; a
/// statement offers truth before falsehood.
pub proof fn options_are_offered_in_order(q: Question, i: int)
    ensures
        q matches Question::Choice(c) ==> (c.criteria matches ChoiceCriteria::Labels(labels) ==> {
            &&& q.option_texts().len() == labels@.len()
            &&& 0 <= i < labels@.len() ==> q.option_texts()[i] == labels@[i]@
            &&& c.criteria.label_texts() == q.option_texts()
        }),
        q matches Question::Choice(c) ==> (c.criteria matches ChoiceCriteria::Labelled(options)
            ==> {
            &&& q.option_texts().len() == options@.len()
            &&& c.criteria.label_texts().len() == options@.len()
            &&& 0 <= i < options@.len() ==> says_or(
                q.option_texts()[i],
                options@[i].description,
                options@[i].label@,
            ) && c.criteria.label_texts()[i] == options@[i].label@
        }),
        q matches Question::Score(s) ==> {
            &&& q.option_texts().len() == s.criteria@.len()
            &&& 0 <= i < s.criteria@.len() ==> q.option_texts()[i] == s.criteria@[i].text@
        },
        q matches Question::Noul(n) ==> {
            &&& q.option_texts().len() == 2
            &&& n.criteria is None ==> q.option_texts()[0] == "true"@ && q.option_texts()[1]
                == "false"@
            &&& n.criteria matches Some(c) ==> says_or(q.option_texts()[0], c.yes, "true"@)
                && says_or(q.option_texts()[1], c.no, "false"@)
        },
{
}

/// A question is of the kind it was asked as, and asks what its instructions
/// say.
pub proof fn questions_are_of_their_kind(q: Question)
    ensures
        q is Choice <==> q.spec_kind() == QuestionKind::Choice,
        q is Score <==> q.spec_kind() == QuestionKind::Score,
        q is Noul <==> q.spec_kind() == QuestionKind::Noul,
        q matches Question::Choice(c) ==> q.asked() == c.instructions.text@,
        q matches Question::Score(s) ==> q.asked() == s.instructions.text@,
        q matches Question::Noul(n) ==> q.asked() == n.instructions.text@,
{
}

/// A choice is answered by a choice, a score by a score and a statement by how
/// true it is; where abstaining is allowed, the abstention names the kind.
pub proof fn answers_are_of_the_questions_kind(q: Question, a: Answer)
    ensures
        q is Choice ==> (kind_matches(&q, &a) <==> a is Choice),
        q is Score ==> (kind_matches(&q, &a) <==> a is Score),
        q is Noul ==> (kind_matches(&q, &a) <==> a is Noul),
        a is Choice ==> (replies(&q, &a) <==> q is Choice),
        a is Score ==> (replies(&q, &a) <==> q is Score),
        a is Noul ==> (replies(&q, &a) <==> q is Noul),
        a matches Answer::Abstain(x) ==> (replies(&q, &a) <==> match x.question_type {
            QuestionKind::Choice => q is Choice,
            QuestionKind::Score => q is Score,
            QuestionKind::Noul => q is Noul,
        }),
{
}

/// A legend numbers the levels from zero, and says under each number what the
/// level means.
pub proof fn legends_number_the_levels(criteria: Seq<Description>, i: int)
    requires
        0 <= i < criteria.len(),
    ensures
        legend_entries(criteria).len() == criteria.len(),
        legend_entries(criteria)[i].1 == criteria[i],
        value_of(legend_entries(criteria)[i].0) == i,
{
    decimals_stand_for_their_numbers(i as nat);
}

/// A request's questions are counted behind those of the requests before it.
pub proof fn questions_are_counted_request_by_request(requests: Seq<SystemOneRequest>, n: nat)
    requires
        n < requests.len(),
    ensures
        asked_before(requests, 0) == 0,
        asked_before(requests, n + 1) - asked_before(requests, n) == requests[n as int].questions@.len(),
{
}

/// What was put under a key is found there, what stands under other keys is
/// left alone, and keys stay where they are.
pub proof fn tables_give_back_what_was_put<V>(
    entries: Seq<(Seq<char>, V)>,
    key: Seq<char>,
    value: V,
    other: Seq<char>,
    i: int,
)
    requires
        distinct_keys(entries),
        other != key,
    ensures
        distinct_keys(put(entries, key, value)),
        has_key(put(entries, key, value), key),
        lookup(put(entries, key, value), key) == value,
        has_key(put(entries, key, value), other) <==> has_key(entries, other),
        has_key(entries, other) ==> lookup(put(entries, key, value), other) == lookup(
            entries,
            other,
        ),
        0 <= i < entries.len() ==> put(entries, key, value)[i].0 == entries[i].0,
        0 <= i < entries.len() && entries[i].0 != key ==> put(entries, key, value)[i] == entries[i],
        put(entries, key, value).len() == if has_key(entries, key) {
            entries.len()
        } else {
            entries.len() + 1
        },
        !has_key(entries, key) ==> put(entries, key, value).last() == (key, value),
{
    let after = put(entries, key, value);
    if has_key(entries, key) {
        let at = crate::table::place(entries, key);
        assert(entries[at].0 == key);
        assert(after[at].0 == key);
        assert forall|j: int, k: int| 0 <= j < k < after.len() implies (#[trigger] after[j]).0 != (
        #[trigger] after[k]).0 by {
            assert(entries[j].0 != entries[k].0);
        }
    } else {
        assert(after[entries.len() as int].0 == key);
    }
    let found = crate::table::place(after, key);
    assert(0 <= found < after.len() && after[found].0 == key);
    if found < entries.len() && !has_key(entries, key) {
        assert(entries[found].0 == key);
    }
    if has_key(entries, other) {
        let at = crate::table::place(entries, other);
        assert(entries[at].0 == other);
        assert(after[at].0 == other);
        assert(has_key(after, other));
        let there = crate::table::place(after, other);
        assert(0 <= there < after.len() && after[there].0 == other);
        if at < there {
            assert(after[at].0 != after[there].0);
        } else if there < at {
            assert(after[there].0 != after[at].0);
        }
    }
    if has_key(after, other) {
        let there = crate::table::place(after, other);
        assert(0 <= there < after.len() && after[there].0 == other);
        assert(there < entries.len());
        assert(entries[there].0 == other);
    }
}

/// Values that are collected under keys are found under them; where a key
/// comes twice, the later value is.
pub proof fn collected_values_are_found<V>(
    keys: Seq<Seq<char>>,
    values: Seq<V>,
    n: nat,
    key: Seq<char>,
    i: int,
)
    requires
        n <= keys.len(),
        n <= values.len(),
        0 <= i < n,
        keys[i] == key,
        forall|j: int| i < j < n ==> #[trigger] keys[j] != key,
    ensures
        distinct_keys(collected(keys, values, n)),
        has_key(collected(keys, values, n), key),
        lookup(collected(keys, values, n), key) == values[i],
    decreases n,
{
    collections_are_distinct(keys, values, (n - 1) as nat);
    let before = collected(keys, values, (n - 1) as nat);
    let last = keys[n - 1];
    let unlike = last.push('a');
    assert(unlike.len() != last.len());
    if i == n - 1 {
        tables_give_back_what_was_put(before, key, values[i], unlike, 0);
    } else {
        collected_values_are_found(keys, values, (n - 1) as nat, key, i);
        assert(keys[n - 1] != key);
        tables_give_back_what_was_put(before, last, values[n - 1], key, 0);
    }
}

proof fn collections_are_distinct<V>(keys: Seq<Seq<char>>, values: Seq<V>, n: nat)
    requires
        n <= keys.len(),
        n <= values.len(),
    ensures
        distinct_keys(collected(keys, values, n)),
    decreases n,
{
    if n > 0 {
        collections_are_distinct(keys, values, (n - 1) as nat);
        let last = keys[n - 1];
        let unlike = last.push('a');
        assert(unlike.len() != last.len());
        tables_give_back_what_was_put(
            collected(keys, values, (n - 1) as nat),
            last,
            values[n - 1],
            unlike,
            0,
        );
    }
}

/// Texts are ordered by the first character in which they differ; a text
/// stands in front of those that continue it.
pub proof fn texts_are_ordered_by_the_first_difference(
    same: Seq<char>,
    c: char,
    d: char,
    s: Seq<char>,
    t: Seq<char>,
)
    ensures
        c != d ==> (lex(same + seq![c] + s, same + seq![d] + t) <==> (c as u32) < (d as u32)),
        lex(same, same + seq![c] + s),
        !lex(same + seq![c] + s, same),
    decreases same.len(),
{
    let (a, b) = (same + seq![c] + s, same + seq![d] + t);
    if same.len() == 0 {
        assert(a[0] == c && b[0] == d);
    } else {
        let rest = same.skip(1);
        texts_are_ordered_by_the_first_difference(rest, c, d, s, t);
        assert(a.skip(1) =~= rest + seq![c] + s);
        assert(b.skip(1) =~= rest + seq![d] + t);
        assert(a[0] == same[0] && b[0] == same[0]);
    }
}

/// Of two sizes the smaller has the lower rank; equal sizes are ranked as they
/// stand.
pub proof fn smaller_sizes_rank_lower(
    sizes: Seq<usize>,
    order: Seq<usize>,
    ranks: Seq<usize>,
    a: int,
    b: int,
)
    requires
        numbers_below(order, sizes.len()),
        in_order(sizes, order),
        is_ranking(order, ranks),
        0 <= a < sizes.len(),
        0 <= b < sizes.len(),
    ensures
        ranks.len() == sizes.len(),
        sizes[a] < sizes[b] ==> ranks[a] < ranks[b],
        sizes[a] == sizes[b] && a < b ==> ranks[a] < ranks[b],
        a != b ==> ranks[a] != ranks[b],
        ranks[a] < sizes.len(),
        ranks[order[a] as int] == a,
{
    assert(order[ranks[a] as int] == a && order[ranks[b] as int] == b);
    if ranks[b] < ranks[a] {
        assert(crate::ordering::precedes(sizes, order[ranks[b] as int], order[ranks[a] as int]));
    }
    let n = order[a];
    assert(order[ranks[n as int] as int] == n);
}

/// A response replies to a request where it has as many answers as there are
/// questions, and under each question's own name an answer of its kind, or an
/// abstention from it.
pub proof fn replies_go_to_their_questions(
    request: &SystemOneRequest,
    response: &SystemOneResponse,
    k: int,
)
    requires
        replies_to(request, response),
        0 <= k < request.questions@.len(),
    ensures
        response.answers@.len() == request.questions@.len(),
        has_key(response.answers@, request.questions@[k].0),
        ({
            let answer = lookup(response.answers@, request.questions@[k].0);
            match request.questions@[k].1 {
                Question::Choice(_) => answer is Choice || (answer matches Answer::Abstain(x)
                    && x.question_type == QuestionKind::Choice),
                Question::Score(_) => answer is Score || (answer matches Answer::Abstain(x)
                    && x.question_type == QuestionKind::Score),
                Question::Noul(_) => answer is Noul || (answer matches Answer::Abstain(x)
                    && x.question_type == QuestionKind::Noul),
            }
        }),
{
    let question = request.questions@[k];
    assert(replies(&question.1, &lookup(response.answers@, question.0)));
}

/// What a model is asked comes back under its own name, and each model gives
/// its own kind of results.
pub proof fn models_give_their_own_results(
    model: DecisionModel,
    request: &SystemOneRequest,
    response: &SystemOneResponse,
    results: Evaluated,
)
    ensures
        model is OpenJev && may_come_from(&model, request, response) ==> response.model@
            == "OpenJev (Verdict)"@ && replies_to(request, response),
        model is GlinerDecide && may_come_from(&model, request, response) ==> response.model@
            == "GLiNER2.5-Decide"@,
        model is OpenJev ==> (results.given_by(&model) <==> results is OpenJev),
        model is GlinerDecide ==> (results.given_by(&model) <==> results is GlinerDecide),
        model is Jev ==> (results.given_by(&model) <==> results is Jev),
        model is Laya || model is CuaS1 ==> (results.given_by(&model) <==> results is Responses),
{
}

/// Where results come to responses there is one per request; results that are
/// responses are handed on as they are, each to its request.
pub proof fn results_keep_their_requests(
    results: Evaluated,
    requests: Seq<SystemOneRequest>,
    responses: Seq<SystemOneResponse>,
    r: int,
)
    requires
        results.comes_to(requests, Ok(responses)),
        0 <= r < requests.len(),
    ensures
        responses.len() == requests.len(),
        results matches Evaluated::Responses(given) ==> responses[r] == given@[r],
        results matches Evaluated::Jev(outcomes) ==> outcomes@[r] is Some && outcomes@[r]->0 is Ok
            && outcomes@[r]->0->Ok_0 == responses[r],
        results matches Evaluated::OpenJev { predictions, numbers } ==> forall|i: int|
            0 <= i < predictions@.len() ==> (#[trigger] predictions@[i]).abstained
                || numbers@[i].mass.positive(),
{
    let one = &responses[r];
    assert(results.says(requests, r, one));
    if let Evaluated::OpenJev { predictions, numbers } = results {
        assert forall|i: int| 0 <= i < predictions@.len() implies (#[trigger] predictions@[i]).abstained
            || numbers@[i].mass.positive() by {
            assert(!crate::openjev::answer::massless(&predictions@[i], &numbers@[i]));
        }
    }
}

} // verus!
