//! What holds of OpenJev from the prompt to the answer.
use crate::error::Failure;
use crate::openjev::answer::{
    all_answerable, answerable, answers, conditional, substantive, tokens_from, OpenJevPrediction,
    OpenJevWork, Shares,
};
use crate::openjev::model::{built, InputView, OpenJev};
use crate::openjev::predict::views;
use crate::openjev::prompt::{candidate_ids, formatted, reserved_id, ABSTENTION_ID};
use crate::score::{leader, leader_in_range, Float};
use crate::table::{collected_distinct, keys};
use crate::tokens::encoding;
use crate::types::{asked_before, asked_grows, Answer, Question, SystemOneRequest};
use vstd::prelude::*;

verus! {

/// Every question that can be asked has at least two candidates of its own
/// and the abstention behind them: distinct, named, within the capacity.
pub proof fn formatted_candidates_are_sound(
    state: Seq<char>,
    id: Seq<char>,
    q: &Question,
    capacity: nat,
)
    requires
        formatted(state, id, q, capacity) is Ok,
    ensures
        ({
            let candidates = formatted(state, id, q, capacity)->Ok_0.1;
            &&& 3 <= candidates.len() <= capacity
            &&& candidates.last() == ABSTENTION_ID@
            &&& candidates.drop_last() == candidate_ids(q)
            &&& candidates.no_duplicates()
            &&& forall|i: int|
                0 <= i < candidates.len() ==> (#[trigger] candidates[i]).len() > 0 && candidates[i]
                    != "insufficient_evidence"@
            &&& forall|i: int|
                0 <= i < candidates.len() - 1 ==> #[trigger] candidates[i] != ABSTENTION_ID@
        }),
{
    let candidates = formatted(state, id, q, capacity)->Ok_0.1;
    let ids = candidate_ids(q);
    assert(candidates.drop_last() =~= ids);
    assert forall|i: int| 0 <= i < candidates.len() - 1 implies !reserved_id(
        #[trigger] candidates[i],
    ) by {
        assert(candidates[i] == ids[i]);
    }
    reveal_strlit("__insufficient_evidence__");
    reveal_strlit("insufficient_evidence");
    assert(ABSTENTION_ID@.len() == 25);
    assert("insufficient_evidence"@.len() == 21);
    assert(candidates.last() == ABSTENTION_ID@);
    assert forall|i: int, j: int|
        0 <= i < candidates.len() && 0 <= j < candidates.len() && i != j implies candidates[i]
        != candidates[j] by {
        if i < ids.len() && j < ids.len() {
            assert(ids[i] != ids[j]);
        }
    }
}

/// An input that a model built is one it can be evaluated on, as long as its
/// tokens are few enough and in the vocabulary.
pub proof fn built_inputs_are_valid(
    model: &OpenJev,
    state: Seq<char>,
    id: Seq<char>,
    q: &Question,
    input: InputView,
)
    requires
        model.wf(),
        model.may_build(state, id, q, Ok(input)),
        input.ids.len() <= model.max_len,
        forall|i: int| 0 <= i < input.ids.len() ==> #[trigger] input.ids[i] < model.config.vocab_size,
    ensures
        model.valid_input(input),
        input.candidates == candidate_ids(q).push(ABSTENTION_ID@),
{
    formatted_candidates_are_sound(state, id, q, model.config.max_num_classes as nat);
    let made = formatted(state, id, q, model.config.max_num_classes as nat)->Ok_0;
    let encoded = choose|encoded: Result<Seq<u32>, Seq<char>>|
        #[trigger] encoding(model.tokenizer, made.0, true, encoded) && Ok::<InputView, Failure>(
            input,
        ) == (match encoded {
            Err(message) => Err(Failure::Tokenizer(message)),
            Ok(ids) => built(
                made.0,
                made.1,
                id,
                ids,
                model.config.class_token_index,
                model.config.text_token_index,
            ),
        });
    assert(encoded is Ok);
    assert(input.ids.contains(model.config.text_token_index));
    assert(input.candidates =~= candidate_ids(q).push(ABSTENTION_ID@));
}

/// Which of the candidates of a valid input are substantive.
proof fn substantive_of_valid(candidates: Seq<Seq<char>>, values: Seq<Float>, n: nat)
    requires
        candidates.no_duplicates(),
        candidates.len() == values.len(),
        candidates.len() >= 1,
        candidates.last() == ABSTENTION_ID@,
        n <= candidates.len(),
    ensures
        ({
            let entries = Seq::new(n, |i: int| (candidates[i], values[i]));
            let m = if n < candidates.len() {
                n
            } else {
                (n - 1) as nat
            };
            substantive(entries) == Seq::new(m, |i: int| (candidates[i], values[i]))
        }),
    decreases n,
{
    let entries = Seq::new(n, |i: int| (candidates[i], values[i]));
    if n > 0 {
        let m = (n - 1) as nat;
        substantive_of_valid(candidates, values, m);
        assert(entries.drop_last() =~= Seq::new(m, |i: int| (candidates[i], values[i])));
        if n < candidates.len() {
            assert(candidates[n - 1] != candidates[candidates.len() - 1]);
            assert(substantive(entries) =~= Seq::new(n, |i: int| (candidates[i], values[i])));
        } else {
            assert(substantive(entries) =~= Seq::new(m, |i: int| (candidates[i], values[i])));
        }
    } else {
        assert(substantive(entries) =~= Seq::new(0, |i: int| (candidates[i], values[i])));
    }
}

/// A prediction read off a valid input keeps a probability for each of its
/// candidates, in order; the substantive ones are all but the last.
pub proof fn predictions_keep_candidates(
    model: &OpenJev,
    input: InputView,
    logits: Seq<Float>,
    probabilities: Seq<Float>,
    p: &OpenJevPrediction,
)
    requires
        model.valid_input(input),
        logits.len() == input.candidates.len(),
        probabilities.len() == input.candidates.len(),
        p.reads(input, logits, probabilities, &model.calibration),
    ensures
        keys(p.probabilities@) == input.candidates,
        keys(substantive(p.probabilities@)) == input.candidates.drop_last(),
        p.abstained <==> leader(logits, logits.len()) == logits.len() - 1,
        input.candidates.contains(p.selected@),
{
    let n = input.candidates.len();
    collected_distinct(input.candidates, probabilities, n);
    substantive_of_valid(input.candidates, probabilities, n);
    assert(keys(p.probabilities@) =~= input.candidates);
    assert(keys(substantive(p.probabilities@)) =~= input.candidates.drop_last());
    leader_in_range(logits, logits.len());
    let best = leader(logits, logits.len());
    if best < n - 1 {
        assert(input.candidates[best] != input.candidates[n - 1]);
    }
}

/// Every prediction read off a valid input of a question can be answered,
/// once there is a share for each substantive candidate.
pub proof fn valid_predictions_are_answerable(
    model: &OpenJev,
    state: Seq<char>,
    id: Seq<char>,
    q: &Question,
    input: InputView,
    logits: Seq<Float>,
    probabilities: Seq<Float>,
    p: &OpenJevPrediction,
    numbers: &Shares,
)
    requires
        model.wf(),
        model.may_build(state, id, q, Ok(input)),
        model.valid_input(input),
        logits.len() == input.candidates.len(),
        probabilities.len() == input.candidates.len(),
        p.reads(input, logits, probabilities, &model.calibration),
        numbers.shares@.len() == input.candidates.len() - 1,
    ensures
        answerable(q, p, numbers),
{
    built_inputs_are_valid(model, state, id, q, input);
    predictions_keep_candidates(model, input, logits, probabilities, p);
    let ids = keys(substantive(p.probabilities@));
    assert(ids.len() == substantive(p.probabilities@).len());
    assert(ids =~= candidate_ids(q));
    if q is Noul {
        formatted_candidates_are_sound(state, id, q, model.config.max_num_classes as nat);
        assert(ids.no_duplicates()) by {
            assert forall|i: int, j: int|
                0 <= i < ids.len() && 0 <= j < ids.len() && i != j implies ids[i] != ids[j] by {
                assert(input.candidates[i] != input.candidates[j]);
            }
        }
        collected_distinct(ids, numbers.shares@, ids.len());
        assert(conditional(p, numbers)[0].0 == "true"@);
    }
}

/// A choice is never answered with the abstention: where the model does not
/// abstain, the chosen option is one that the question offers.
pub proof fn choices_come_from_the_question(
    model: &OpenJev,
    state: Seq<char>,
    id: Seq<char>,
    q: &Question,
    input: InputView,
    logits: Seq<Float>,
    probabilities: Seq<Float>,
    p: &OpenJevPrediction,
    numbers: &Shares,
    a: &Answer,
)
    requires
        model.wf(),
        model.may_build(state, id, q, Ok(input)),
        model.valid_input(input),
        logits.len() == input.candidates.len(),
        probabilities.len() == input.candidates.len(),
        p.reads(input, logits, probabilities, &model.calibration),
        numbers.shares@.len() == input.candidates.len() - 1,
        answers(q, p, numbers, a),
        a is Choice,
    ensures
        candidate_ids(q).contains(a->Choice_0.choice@),
        a->Choice_0.choice@ != ABSTENTION_ID@,
        keys(a->Choice_0.probabilities@) == candidate_ids(q),
{
    built_inputs_are_valid(model, state, id, q, input);
    predictions_keep_candidates(model, input, logits, probabilities, p);
    leader_in_range(logits, logits.len());
    let best = leader(logits, logits.len());
    assert(candidate_ids(q)[best] == input.candidates[best]);
    let ids = keys(substantive(p.probabilities@));
    assert(ids.len() == substantive(p.probabilities@).len());
    assert(ids =~= candidate_ids(q));
    assert(ids.no_duplicates()) by {
        assert forall|i: int, j: int|
            0 <= i < ids.len() && 0 <= j < ids.len() && i != j implies ids[i] != ids[j] by {
            assert(input.candidates[i] != input.candidates[j]);
        }
    }
    collected_distinct(ids, numbers.shares@, ids.len());
    assert(keys(conditional(p, numbers)) =~= candidate_ids(q));
}

/// The prediction reads some scores off an input.
pub open spec fn read_off(model: &OpenJev, input: InputView, p: &OpenJevPrediction) -> bool {
    exists|logits: Seq<Float>, probabilities: Seq<Float>|
        {
            &&& logits.len() == input.candidates.len()
            &&& probabilities.len() == input.candidates.len()
            &&& #[trigger] p.reads(input, logits, probabilities, &model.calibration)
        }
}

/// The work on some requests leads to answers to all their questions: where
/// every prediction is read off the input in its place, with a share for each
/// substantive candidate, all questions can be answered. The tokens of a
/// request have to be few enough to be counted.
pub proof fn work_leads_to_answers(
    model: &OpenJev,
    requests: Seq<SystemOneRequest>,
    work: OpenJevWork,
    predictions: Seq<OpenJevPrediction>,
    numbers: Seq<Shares>,
)
    requires
        model.wf(),
        model.works(requests, Ok(work)),
        predictions.len() == work.inputs@.len(),
        numbers.len() == work.inputs@.len(),
        forall|i: int|
            0 <= i < predictions.len() ==> read_off(
                model,
                work.inputs@[i]@,
                #[trigger] &predictions[i],
            ),
        forall|i: int|
            0 <= i < numbers.len() ==> (#[trigger] numbers[i]).shares@.len()
                == work.inputs@[i]@.candidates.len() - 1,
        forall|r: int|
            0 <= r < requests.len() ==> tokens_from(
                predictions,
                asked_before(requests, r as nat) as int,
                (#[trigger] requests[r]).questions@.len(),
            ) <= usize::MAX,
    ensures
        all_answerable(requests, predictions, numbers),
{
    let inputs = views(work.inputs@);
    assert forall|r: int, k: int|
        #![trigger requests[r].questions@[k]]
        0 <= r < requests.len() && 0 <= k < requests[r].questions@.len() implies answerable(
        &requests[r].questions@[k].1,
        &predictions[asked_before(requests, r as nat) + k],
        &numbers[asked_before(requests, r as nat) + k],
    ) by {
        let i = asked_before(requests, r as nat) + k;
        asked_grows(requests, (r + 1) as nat, requests.len());
        let input = inputs[i];
        assert(input == work.inputs@[i]@);
        assert(model.may_ask(requests, r, k, Ok(input)));
        assert(model.valid_input(input));
        assert(read_off(model, input, &predictions[i]));
        let (logits, probabilities) = choose|logits: Seq<Float>, probabilities: Seq<Float>|
            {
                &&& logits.len() == input.candidates.len()
                &&& probabilities.len() == input.candidates.len()
                &&& #[trigger] predictions[i].reads(
                    input,
                    logits,
                    probabilities,
                    &model.calibration,
                )
            };
        valid_predictions_are_answerable(
            model,
            requests[r].state.text@,
            requests[r].questions@[k].0,
            &requests[r].questions@[k].1,
            input,
            logits,
            probabilities,
            &predictions[i],
            &numbers[i],
        );
    }
}

} // verus!
