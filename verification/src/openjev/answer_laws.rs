//! What holds of the answers that predictions come to.
use crate::openjev::answer::{
    answerable, answers, conditional, responds, substantive, tokens_from, OpenJevPrediction, Shares,
};
use crate::openjev::model::{Calibration, InputView};
use crate::score::{leader, Float};
use crate::score_laws::leaders_are_the_first_of_the_greatest;
use crate::table::{collected_distinct, distinct_keys, keys, place};
use crate::text::decimal;
use crate::types::{
    Answer, Description, Question, QuestionKind, SystemOneRequest, SystemOneResponse,
};
use vstd::prelude::*;

verus! {

/// The values of entries, in order.
pub open spec fn values_of(entries: Seq<(Seq<char>, Float)>) -> Seq<Float> {
    Seq::new(entries.len(), |i: int| entries[i].1)
}

proof fn substantive_keeps_keys_apart(entries: Seq<(Seq<char>, Float)>)
    requires
        distinct_keys(entries),
    ensures
        distinct_keys(substantive(entries)),
        forall|k: int|
            0 <= k < substantive(entries).len() ==> exists|i: int|
                0 <= i < entries.len() && #[trigger] entries[i] == #[trigger] substantive(
                    entries,
                )[k],
    decreases entries.len(),
{
    if entries.len() > 0 {
        let rest = entries.drop_last();
        assert forall|i: int, j: int| 0 <= i < j < rest.len() implies (#[trigger] rest[i]).0 != (
        #[trigger] rest[j]).0 by {
            assert(entries[i].0 != entries[j].0);
        }
        substantive_keeps_keys_apart(rest);
        let before = substantive(rest);
        let all = substantive(entries);
        assert forall|k: int| 0 <= k < all.len() implies exists|i: int|
            0 <= i < entries.len() && #[trigger] entries[i] == #[trigger] all[k] by {
            if k < before.len() {
                let i = choose|i: int| 0 <= i < rest.len() && #[trigger] rest[i] == before[k];
                assert(entries[i] == all[k]);
            } else {
                assert(entries[entries.len() - 1] == all[k]);
            }
        }
        assert forall|i: int, j: int| 0 <= i < j < all.len() implies (#[trigger] all[i]).0 != (
        #[trigger] all[j]).0 by {
            if j < before.len() {
                assert(before[i].0 != before[j].0);
            } else {
                let m = choose|m: int| 0 <= m < rest.len() && #[trigger] rest[m] == before[i];
                assert(entries[m].0 != entries[entries.len() - 1].0);
            }
        }
    }
}

/// The shares stand under the names of the substantive candidates, in order.
proof fn conditional_is_paired(p: &OpenJevPrediction, numbers: &Shares)
    requires
        p.probabilities.wf(),
        numbers.shares@.len() == substantive(p.probabilities@).len(),
    ensures
        conditional(p, numbers).len() == numbers.shares@.len(),
        distinct_keys(conditional(p, numbers)),
        forall|k: int|
            0 <= k < numbers.shares@.len() ==> #[trigger] conditional(p, numbers)[k] == (
                substantive(p.probabilities@)[k].0,
                numbers.shares@[k],
            ),
{
    p.probabilities.keys_are_distinct();
    substantive_keeps_keys_apart(p.probabilities@);
    let entries = substantive(p.probabilities@);
    let ids = keys(entries);
    assert forall|i: int, j: int| 0 <= i < ids.len() && 0 <= j < ids.len() && i != j implies ids[i]
        != ids[j] by {
        if i < j {
            assert(entries[i].0 != entries[j].0);
        } else {
            assert(entries[j].0 != entries[i].0);
        }
    }
    collected_distinct(ids, numbers.shares@, ids.len());
    let made = conditional(p, numbers);
    assert forall|k: int| 0 <= k < numbers.shares@.len() implies #[trigger] made[k] == (
        entries[k].0,
        numbers.shares@[k],
    ) by {
        assert(ids[k] == entries[k].0);
    }
    assert forall|i: int, j: int| 0 <= i < j < made.len() implies (#[trigger] made[i]).0 != (
    #[trigger] made[j]).0 by {
        assert(entries[i].0 != entries[j].0);
    }
}

/// The confidence of an answer is a function of the probabilities in that very
/// answer: whichever function it is by which the numbers were computed from
/// the shares, the answer's confidence is that function of the answer's own
/// probabilities, for a choice as for a score. So is a score: it is the mean
/// of the steps under the probabilities that stand beside it.
pub proof fn confidence_is_of_the_answers_own_probabilities(
    q: &Question,
    p: &OpenJevPrediction,
    numbers: &Shares,
    a: &Answer,
    confidence: spec_fn(Seq<Float>) -> Float,
    mean: spec_fn(Seq<Float>) -> Float,
)
    requires
        answerable(q, p, numbers),
        answers(q, p, numbers, a),
        numbers.confidence == confidence(numbers.shares@),
        numbers.score == mean(numbers.shares@),
    ensures
        a matches Answer::Choice(x) ==> x.confidence == confidence(values_of(x.probabilities@)),
        a matches Answer::Score(x) ==> x.confidence == confidence(values_of(x.probabilities@))
            && x.score == mean(values_of(x.probabilities@)),
{
    conditional_is_paired(p, numbers);
    assert(values_of(conditional(p, numbers)) =~= numbers.shares@);
}

/// How much of the probability went to the abstention, or to whom else, makes
/// no difference to the confidence of an answer: two answers, of a choice or
/// of a score, that hold the same probabilities are equally confident.
pub proof fn confidence_ignores_the_abstention(
    q: &Question,
    p: &OpenJevPrediction,
    numbers: &Shares,
    a: &Answer,
    other_q: &Question,
    other_p: &OpenJevPrediction,
    other_numbers: &Shares,
    other: &Answer,
    confidence: spec_fn(Seq<Float>) -> Float,
)
    requires
        answerable(q, p, numbers),
        answers(q, p, numbers, a),
        numbers.confidence == confidence(numbers.shares@),
        answerable(other_q, other_p, other_numbers),
        answers(other_q, other_p, other_numbers, other),
        other_numbers.confidence == confidence(other_numbers.shares@),
        numbers.shares@ == other_numbers.shares@,
    ensures
        a is Choice && other is Choice ==> a->Choice_0.confidence == other->Choice_0.confidence,
        a is Choice && other is Score ==> a->Choice_0.confidence == other->Score_0.confidence,
        a is Score && other is Score ==> a->Score_0.confidence == other->Score_0.confidence
            && (numbers.score == other_numbers.score ==> a->Score_0.score
            == other->Score_0.score),
{
}

/// An answer is of the kind that was asked for. Where the model abstained it
/// says so, and keeps the probabilities as they were predicted, that of the
/// abstention among them. Otherwise a choice is what was selected, every share
/// stands under the name of its own candidate, in order, the abstention has
/// none, and the probability that a statement is true is the share of "true".
pub proof fn answers_say_what_was_predicted(
    q: &Question,
    p: &OpenJevPrediction,
    numbers: &Shares,
    a: &Answer,
)
    requires
        answerable(q, p, numbers),
        answers(q, p, numbers, a),
        p.probabilities@.len() > 0,
        p.probabilities@.last().0 == "__insufficient_evidence__"@,
    ensures
        p.abstained ==> {
            &&& a is Abstain
            &&& a->Abstain_0.probabilities@ == p.probabilities@
            &&& a->Abstain_0.reason@ == "insufficient_evidence"@
            &&& q is Choice <==> a->Abstain_0.question_type == QuestionKind::Choice
            &&& q is Score <==> a->Abstain_0.question_type == QuestionKind::Score
            &&& q is Noul <==> a->Abstain_0.question_type == QuestionKind::Noul
        },
        !p.abstained ==> {
            &&& numbers.shares@.len() == p.probabilities@.len() - 1
            &&& q is Choice ==> {
                &&& a is Choice
                &&& a->Choice_0.choice@ == p.selected@
                &&& a->Choice_0.action is None
                &&& shared_out(p, numbers, a->Choice_0.probabilities@)
            }
            &&& q is Score ==> {
                &&& a is Score
                &&& a->Score_0.score == numbers.score
                &&& a->Score_0.action is None
                &&& shared_out(p, numbers, a->Score_0.probabilities@)
                &&& explains(q->Score_0.criteria@, a->Score_0.legend@)
            }
            &&& q is Noul ==> {
                &&& a is Noul
                &&& a->Noul_0.action is None
                &&& forall|k: int|
                    0 <= k < numbers.shares@.len() && (#[trigger] p.probabilities@[k]).0 == "true"@
                        ==> a->Noul_0.noul == numbers.shares@[k]
                &&& exists|k: int|
                    0 <= k < numbers.shares@.len() && (#[trigger] p.probabilities@[k]).0 == "true"@
            }
        },
{
    let entries = p.probabilities@;
    p.probabilities.keys_are_distinct();
    substantive_is_all_but_the_last(entries);
    conditional_is_paired(p, numbers);
    let made = conditional(p, numbers);
    assert forall|k: int| 0 <= k < made.len() implies #[trigger] made[k] == (
        entries[k].0,
        numbers.shares@[k],
    ) by {
        assert(substantive(entries)[k] == entries[k]);
    }
    if !p.abstained && q is Noul {
        let i = choose|i: int| 0 <= i < made.len() && (#[trigger] made[i]).0 == "true"@;
        assert(entries[i].0 == "true"@);
        assert forall|k: int| 0 <= k < numbers.shares@.len() && (#[trigger] entries[k]).0
            == "true"@ implies a->Noul_0.noul == numbers.shares@[k] by {
            assert(made[k].0 == "true"@);
            assert(place(made, "true"@) == k);
        }
    }
}

/// Each share stands under the name of the candidate in its place, and the
/// last candidate, which is the abstention, has none.
pub open spec fn shared_out(
    p: &OpenJevPrediction,
    numbers: &Shares,
    entries: Seq<(Seq<char>, Float)>,
) -> bool {
    &&& entries.len() == p.probabilities@.len() - 1
    &&& forall|k: int|
        0 <= k < entries.len() ==> #[trigger] entries[k] == (
            p.probabilities@[k].0,
            numbers.shares@[k],
        )
}

/// Every step of a scale is explained under its number, in order.
pub open spec fn explains(
    criteria: Seq<Description>,
    legend: Seq<(Seq<char>, Description)>,
) -> bool {
    &&& legend.len() == criteria.len()
    &&& forall|k: int|
        0 <= k < legend.len() ==> #[trigger] legend[k] == (decimal(k as nat), criteria[k])
}

proof fn substantive_is_all_but_the_last(entries: Seq<(Seq<char>, Float)>)
    requires
        distinct_keys(entries),
        entries.len() > 0,
        entries.last().0 == "__insufficient_evidence__"@,
    ensures
        substantive(entries) == entries.drop_last(),
{
    let rest = entries.drop_last();
    assert forall|i: int| 0 <= i < rest.len() implies (#[trigger] rest[i]).0
        != "__insufficient_evidence__"@ by {
        assert(entries[i].0 != entries[entries.len() - 1].0);
    }
    substantive_is_all(rest);
}

proof fn substantive_is_all(entries: Seq<(Seq<char>, Float)>)
    requires
        forall|i: int|
            0 <= i < entries.len() ==> (#[trigger] entries[i]).0 != "__insufficient_evidence__"@,
    ensures
        substantive(entries) == entries,
    decreases entries.len(),
{
    if entries.len() > 0 {
        let rest = entries.drop_last();
        assert forall|i: int| 0 <= i < rest.len() implies (#[trigger] rest[i]).0
            != "__insufficient_evidence__"@ by {
            assert(entries[i] == rest[i]);
        }
        substantive_is_all(rest);
        assert(entries[entries.len() - 1].0 != "__insufficient_evidence__"@);
        assert(rest.push(entries.last()) =~= entries);
    } else {
        assert(substantive(entries) =~= entries);
    }
}

/// A prediction selects the candidate with the greatest logit, the first of
/// them where there are several, and abstains where that is the abstention.
/// It keeps every logit, and every probability under the name of its own
/// candidate, in order, and it says how many tokens were read.
pub proof fn predictions_select_the_greatest_logit(
    p: &OpenJevPrediction,
    input: InputView,
    logits: Seq<Float>,
    probabilities: Seq<Float>,
    calibration: &Calibration,
) -> (best: int)
    requires
        p.reads(input, logits, probabilities, calibration),
        logits.len() > 0,
        logits.len() == input.candidates.len(),
        probabilities.len() == input.candidates.len(),
        input.candidates.no_duplicates(),
        forall|i: int| 0 <= i < logits.len() ==> (#[trigger] logits[i]).finite(),
    ensures
        0 <= best < logits.len(),
        p.selected@ == input.candidates[best],
        p.abstained <==> p.selected@ == "__insufficient_evidence__"@,
        forall|i: int| 0 <= i < logits.len() ==> !(#[trigger] logits[i]).above(logits[best]),
        forall|i: int| 0 <= i < best ==> logits[best].above(#[trigger] logits[i]),
        p.logits@ == logits,
        p.probabilities@.len() == input.candidates.len(),
        forall|k: int|
            0 <= k < input.candidates.len() ==> #[trigger] p.probabilities@[k] == (
                input.candidates[k],
                probabilities[k],
            ),
        p.input_tokens == input.ids.len(),
{
    leaders_are_the_first_of_the_greatest(logits);
    collected_distinct(input.candidates, probabilities, input.candidates.len());
    leader(logits, logits.len())
}

/// A response bears the model's name, and what it read is the sum of what was
/// read for each of its questions: two runs of questions cost what they cost
/// together, one question costs its own tokens, and none cost nothing.
pub proof fn usage_adds_up(predictions: Seq<OpenJevPrediction>, from: int, m: nat, n: nat)
    ensures
        tokens_from(predictions, from, m + n) == tokens_from(predictions, from, m) + tokens_from(
            predictions,
            from + m,
            n,
        ),
        tokens_from(predictions, from, 0) == 0,
        tokens_from(predictions, from, 1) == predictions[from].input_tokens,
    decreases n,
{
    reveal_with_fuel(tokens_from, 2);
    if n > 0 {
        usage_adds_up(predictions, from, m, (n - 1) as nat);
    }
}

/// A response answers the questions of its request in order and under their
/// names, each by the prediction in its place, and bears the model's name.
pub proof fn responses_follow_their_request(
    request: &SystemOneRequest,
    from: int,
    predictions: Seq<OpenJevPrediction>,
    numbers: Seq<Shares>,
    response: &SystemOneResponse,
    k: int,
)
    requires
        responds(request, from, predictions, numbers, response),
        0 <= k < request.questions@.len(),
    ensures
        response.model@ == "OpenJev (Verdict)"@,
        response.answers@.len() == request.questions@.len(),
        response.answers@[k].0 == request.questions@[k].0,
        answers(
            &request.questions@[k].1,
            &predictions[from + k],
            &numbers[from + k],
            &response.answers@[k].1,
        ),
        response.usage.input_tokens == tokens_from(
            predictions,
            from,
            request.questions@.len(),
        ),
        response.usage.output_tokens == 0,
        response.usage.dropped_state_tokens@.len() == 0,
{
    assert(response.answers@[k].0 == request.questions@[k].0);
}

} // verus!
