//! From scores to native predictions and typed answers.
use crate::error::{config_error, Failure, SystemOneError};
use crate::openjev::model::{Calibration, InputView, OpenJev, OpenJevInput};
use crate::openjev::predict::{views, OpenJevBatch};
use crate::openjev::prompt::{ABSTENTION_ID, MODEL_NAME};
use crate::score::{all_finite, first_greatest, leader, Float};
use crate::table::{
    collected, distinct_keys, has_key, keys, lookup, next_key_is_new, Table,
};
use crate::text::{same, texts};
use crate::types::{
    only, asked_before, asked_grows, legend, legend_entries, AbstentionAnswer, Answer, ChoiceAnswer, NoulAnswer, Question, ScoreAnswer, SystemOneRequest, SystemOneResponse, Usage,
};
use vstd::prelude::*;

verus! {

/// What the model said of one question, abstention included.
pub struct OpenJevPrediction {
    pub logits: Vec<Float>,
    pub probabilities: Table<Float>,
    pub selected: String,
    pub abstained: bool,
    pub temperature: Float,
    pub input_tokens: usize,
}

impl OpenJevPrediction {
    /// The prediction reads these scores off this input.
    pub open spec fn reads(
        &self,
        input: InputView,
        logits: Seq<Float>,
        probabilities: Seq<Float>,
        calibration: &Calibration,
    ) -> bool {
        let best = leader(logits, logits.len());
        &&& self.logits@ == logits
        &&& self.selected@ == input.candidates[best]
        &&& self.abstained == (input.candidates[best] == ABSTENTION_ID@)
        &&& self.probabilities.wf()
        &&& self.probabilities@ == collected(
            input.candidates,
            probabilities,
            input.candidates.len(),
        )
        &&& self.temperature == calibration.temperature_for(logits.len())
        &&& self.input_tokens == input.ids.len()
    }
}

/// Reads a prediction off the scores of an input's candidates: the first of
/// the greatest logits is selected.
pub fn prediction(
    input: &OpenJevInput,
    logits: Vec<Float>,
    probabilities: &Vec<Float>,
    calibration: &Calibration,
) -> (made: OpenJevPrediction)
    requires
        calibration.per_k.wf(),
        logits.len() > 0,
        logits.len() == input.candidates.len(),
        probabilities.len() == input.candidates.len(),
    ensures
        made.reads(input@, logits@, probabilities@, calibration),
{
    let best = first_greatest(&logits);
    let selected = input.candidates[best].clone();
    assert(input@.candidates[best as int] == selected@);
    OpenJevPrediction {
        abstained: same(selected.as_str(), ABSTENTION_ID),
        selected,
        probabilities: Table::collect(&input.candidates, probabilities),
        temperature: calibration.temperature(logits.len()),
        logits,
        input_tokens: input.ids.len(),
    }
}

impl OpenJev {
    /// Reads a prediction off the scores that the model gave an input, where
    /// all of them are finite.
    pub fn read(&self, input: &OpenJevInput, logits: Vec<Float>, probabilities: &Vec<Float>) -> (result:
        Result<OpenJevPrediction, SystemOneError>)
        requires
            self.wf(),
            logits.len() > 0,
            logits.len() == input.candidates.len(),
            probabilities.len() == input.candidates.len(),
        ensures
            result is Ok <==> forall|i: int|
                0 <= i < logits.len() ==> (#[trigger] logits@[i]).finite(),
            result matches Ok(made) ==> made.reads(
                input@,
                logits@,
                probabilities@,
                &self.calibration,
            ),
            result matches Err(e) ==> e@ == Failure::Config("OpenJev returned non-finite logits"@),
    {
        if !all_finite(&logits) {
            return Err(config_error("OpenJev returned non-finite logits"));
        }
        Ok(prediction(input, logits, probabilities, &self.calibration))
    }
}

/// The entries that stand for an answer, not for the want of evidence.
pub open spec fn substantive(entries: Seq<(Seq<char>, Float)>) -> Seq<(Seq<char>, Float)>
    decreases entries.len(),
{
    if entries.len() == 0 {
        Seq::empty()
    } else {
        let before = substantive(entries.drop_last());
        if entries.last().0 == ABSTENTION_ID@ {
            before
        } else {
            before.push(entries.last())
        }
    }
}

/// A substantive entry is one of the entries, and not the abstention.
pub proof fn substantive_entries(entries: Seq<(Seq<char>, Float)>, k: int)
    requires
        0 <= k < substantive(entries).len(),
    ensures
        entries.contains(substantive(entries)[k]),
        substantive(entries)[k].0 != ABSTENTION_ID@,
    decreases entries.len(),
{
    let rest = entries.drop_last();
    let before = substantive(rest);
    if k < before.len() {
        substantive_entries(rest, k);
        let i = choose|i: int| 0 <= i < rest.len() && rest[i] == before[k];
        assert(entries[i] == before[k]);
    } else {
        assert(entries[entries.len() - 1] == substantive(entries)[k]);
    }
}

/// Lists the candidates that stand for an answer.
pub fn substantive_ids(p: &OpenJevPrediction) -> (ids: Vec<String>)
    requires
        p.probabilities.wf(),
    ensures
        texts(ids@) == keys(substantive(p.probabilities@)),
{
    let ghost entries = p.probabilities@;
    let mut ids: Vec<String> = Vec::new();
    let mut i: usize = 0;
    while i < p.probabilities.len()
        invariant
            i <= entries.len(),
            p.probabilities.wf(),
            entries == p.probabilities@,
            texts(ids@) == keys(substantive(entries.take(i as int))),
        decreases entries.len() - i,
    {
        let key = p.probabilities.key(i);
        let ghost before = ids@;
        assert(entries.take(i + 1).drop_last() =~= entries.take(i as int));
        assert(entries.take(i + 1).last() == entries[i as int]);
        if !same(key, ABSTENTION_ID) {
            ids.push(key.to_owned());
            assert(texts(ids@) =~= texts(before).push(key@));
            assert(keys(substantive(entries.take(i + 1))) =~= keys(
                substantive(entries.take(i as int)),
            ).push(key@));
        }
        i += 1;
    }
    assert(entries.take(entries.len() as int) =~= entries);
    ids
}

/// What is computed from the probabilities of the substantive candidates.
#[derive(Debug)]
pub struct Shares {
    /// Their sum.
    pub mass: Float,
    /// Each of them divided by the sum, in order.
    pub shares: Vec<Float>,
    /// How far the shares are from being equal.
    pub confidence: Float,
    /// The mean step of a scale under the shares.
    pub score: Float,
}

/// The substantive candidates with their shares.
pub open spec fn conditional(p: &OpenJevPrediction, numbers: &Shares) -> Seq<(Seq<char>, Float)> {
    let ids = keys(substantive(p.probabilities@));
    collected(ids, numbers.shares@, ids.len())
}

/// `a` is the answer to `q` that the prediction comes to.
pub open spec fn answers(
    q: &Question,
    p: &OpenJevPrediction,
    numbers: &Shares,
    a: &Answer,
) -> bool {
    if p.abstained {
        a matches Answer::Abstain(x) && {
            &&& x.question_type == q.spec_kind()
            &&& x.probabilities.wf()
            &&& x.probabilities@ == p.probabilities@
            &&& x.reason@ == "insufficient_evidence"@
        }
    } else {
        match q {
            Question::Choice(_) => a matches Answer::Choice(x) && {
                &&& x.choice@ == p.selected@
                &&& x.probabilities.wf()
                &&& x.probabilities@ == conditional(p, numbers)
                &&& x.confidence == numbers.confidence
                &&& x.action is None
            },
            Question::Score(s) => a matches Answer::Score(x) && {
                &&& x.score == numbers.score
                &&& x.legend.wf()
                &&& x.legend@ == legend_entries(s.criteria@)
                &&& x.probabilities.wf()
                &&& x.probabilities@ == conditional(p, numbers)
                &&& x.confidence == numbers.confidence
                &&& x.action is None
            },
            Question::Noul(_) => a matches Answer::Noul(x) && {
                &&& x.noul == lookup(conditional(p, numbers), "true"@)
                &&& x.action is None
            },
        }
    }
}

/// The numbers belong to the prediction, and a statement's prediction knows
/// the outcome "true".
pub open spec fn answerable(q: &Question, p: &OpenJevPrediction, numbers: &Shares) -> bool {
    &&& p.probabilities.wf()
    &&& numbers.shares@.len() == substantive(p.probabilities@).len()
    &&& !p.abstained && q is Noul ==> has_key(conditional(p, numbers), "true"@)
}

/// Turns a prediction into a typed answer, conditional on there being enough
/// evidence; an abstention is answered as such.
pub fn answer(q: &Question, p: &OpenJevPrediction, numbers: &Shares) -> (result: Result<
    Answer,
    SystemOneError,
>)
    requires
        answerable(q, p, numbers),
    ensures
        result is Ok <==> p.abstained || numbers.mass.positive(),
        result matches Ok(a) ==> answers(q, p, numbers, &a),
        result matches Err(e) ==> e@ == Failure::Config("invalid substantive probability mass"@),
{
    if p.abstained {
        return Ok(
            Answer::Abstain(
                AbstentionAnswer {
                    question_type: q.kind(),
                    probabilities: p.probabilities.copy(),
                    reason: "insufficient_evidence".to_owned(),
                },
            ),
        );
    }
    if !numbers.mass.is_positive() {
        return Err(config_error("invalid substantive probability mass"));
    }
    let ids = substantive_ids(p);
    assert(texts(ids@).len() == ids@.len());
    assert(keys(substantive(p.probabilities@)).len() == substantive(p.probabilities@).len());
    let probabilities = Table::collect(&ids, &numbers.shares);
    let made = match q {
        Question::Choice(_) => Answer::Choice(
            ChoiceAnswer {
                choice: p.selected.clone(),
                probabilities,
                confidence: numbers.confidence,
                action: None,
            },
        ),
        Question::Score(s) => Answer::Score(
            ScoreAnswer {
                score: numbers.score,
                legend: legend(&s.criteria),
                probabilities,
                confidence: numbers.confidence,
                action: None,
            },
        ),
        Question::Noul(_) => {
            let noul = match probabilities.get("true") {
                Some(share) => *share,
                None => numbers.mass,
            };
            Answer::Noul(NoulAnswer { noul, action: None })
        },
    };
    Ok(made)
}

/// The inputs of some requests, and how the encoder is to be run on them.
pub struct OpenJevWork {
    /// Request after request, question after question.
    pub inputs: Vec<OpenJevInput>,
    pub batches: Vec<OpenJevBatch>,
}

impl OpenJev {
    /// `outcome` is one that building the input of question `k` of request
    /// `r` may have.
    pub open spec fn may_ask(
        &self,
        requests: Seq<SystemOneRequest>,
        r: int,
        k: int,
        outcome: Result<InputView, Failure>,
    ) -> bool {
        self.may_build(
            requests[r].state.text@,
            requests[r].questions@[k].0,
            &requests[r].questions@[k].1,
            outcome,
        )
    }

    /// The inputs are those of the first `k` questions of request `r` and of
    /// all requests before it.
    pub open spec fn built_up_to(
        &self,
        requests: Seq<SystemOneRequest>,
        r: int,
        k: int,
        inputs: Seq<InputView>,
    ) -> bool {
        &&& inputs.len() == asked_before(requests, r as nat) + k
        &&& forall|s: int, j: int|
            #![trigger requests[s].questions@[j]]
            0 <= s < r && 0 <= j < requests[s].questions@.len() || s == r && 0 <= j < k
                ==> self.may_ask(
                requests,
                s,
                j,
                Ok(inputs[asked_before(requests, s as nat) + j]),
            )
    }

    /// The result is the work on some requests: the inputs of all their
    /// questions in batches, or the error of the first that cannot be asked.
    pub open spec fn works(
        &self,
        requests: Seq<SystemOneRequest>,
        result: Result<OpenJevWork, SystemOneError>,
    ) -> bool {
        match result {
            Ok(work) => {
                &&& self.built_up_to(requests, requests.len() as int, 0, views(work.inputs@))
                &&& forall|i: int|
                    0 <= i < work.inputs@.len() ==> self.valid_input((#[trigger] work.inputs@[i])@)
                &&& ({
                    let parts = crate::batching::chunks(
                        views(work.inputs@),
                        self.batch_size as nat,
                    );
                    &&& work.batches@.len() == parts.len()
                    &&& forall|b: int|
                        0 <= b < parts.len() ==> (#[trigger] work.batches@[b]).lays_out(
                            parts[b],
                            self.pad,
                            self.packs(),
                        )
                })
            },
            Err(e) => {
                ||| exists|r: int, k: int, inputs: Seq<InputView>|
                    {
                        &&& 0 <= r < requests.len()
                        &&& 0 <= k < requests[r].questions@.len()
                        &&& #[trigger] self.built_up_to(requests, r, k, inputs)
                        &&& self.may_ask(requests, r, k, Err(e@))
                    }
                ||| exists|inputs: Seq<InputView>|
                    {
                        &&& #[trigger] self.built_up_to(
                            requests,
                            requests.len() as int,
                            0,
                            inputs,
                        )
                        &&& exists|i: int|
                            0 <= i < inputs.len() && !self.valid_input(#[trigger] inputs[i])
                        &&& e@ == Failure::Config("invalid prepared OpenJev input"@)
                    }
            },
        }
    }

    /// The tokens of a batch of these questions can be numbered.
    pub open spec fn countable(&self, requests: Seq<SystemOneRequest>) -> bool {
        ||| asked_before(requests, requests.len()) * self.max_len <= u32::MAX
        ||| self.batch_size * self.max_len <= u32::MAX
    }

    /// Builds the inputs of all questions of some requests and lays them out
    /// in batches. The first question that cannot be asked decides the error.
    pub fn system_one_batch(&self, requests: &[SystemOneRequest]) -> (result: Result<
        OpenJevWork,
        SystemOneError,
    >)
        requires
            self.wf(),
            self.countable(requests@),
            forall|r: int| 0 <= r < requests.len() ==> (#[trigger] requests@[r]).wf(),
        ensures
            self.works(requests@, result),
    {
        let mut inputs: Vec<OpenJevInput> = Vec::new();
        let mut r: usize = 0;
        while r < requests.len()
            invariant
                self.wf(),
                r <= requests.len(),
                forall|s: int| 0 <= s < requests.len() ==> (#[trigger] requests@[s]).wf(),
                self.built_up_to(requests@, r as int, 0, views(inputs@)),
            decreases requests.len() - r,
        {
            let request = &requests[r];
            assert(requests@[r as int].wf());
            let state = request.state.render();
            let mut k: usize = 0;
            while k < request.questions.len()
                invariant
                    self.wf(),
                    r < requests.len(),
                    request == requests@[r as int],
                    request.wf(),
                    state@ == request.state.text@,
                    k <= request.questions@.len(),
                    self.built_up_to(requests@, r as int, k as int, views(inputs@)),
                decreases request.questions@.len() - k,
            {
                let ghost before = views(inputs@);
                match self.build_input(
                    state.as_str(),
                    request.questions.key(k),
                    request.questions.value(k),
                ) {
                    Err(e) => {
                        assert(self.may_ask(requests@, r as int, k as int, Err(e@)));
                        return Err(e);
                    },
                    Ok(input) => {
                        assert(self.may_ask(requests@, r as int, k as int, Ok(input@)));
                        inputs.push(input);
                        proof {
                            let now = views(inputs@);
                            assert(now =~= before.push(input@));
                            assert forall|s: int, j: int|
                                #![trigger requests@[s].questions@[j]]
                                0 <= s < r && 0 <= j < requests@[s].questions@.len() || s == r && 0
                                    <= j < k + 1 implies self.may_ask(
                                requests@,
                                s,
                                j,
                                Ok(now[asked_before(requests@, s as nat) + j]),
                            ) by {
                                if s < r {
                                    asked_grows(requests@, (s + 1) as nat, r as nat);
                                }
                                if s < r || j < k {
                                    assert(now[asked_before(requests@, s as nat) + j]
                                        == before[asked_before(requests@, s as nat) + j]);
                                }
                            }
                        }
                    },
                }
                k += 1;
            }
            r += 1;
        }
        match self.predict(&inputs) {
            Ok(batches) => Ok(OpenJevWork { inputs, batches }),
            Err(e) => {
                proof {
                    let i = choose|i: int|
                        0 <= i < inputs.len() && !self.valid_input((#[trigger] inputs@[i])@);
                    assert(!self.valid_input(views(inputs@)[i]));
                }
                Err(e)
            },
        }
    }

    /// Builds the inputs of the questions of one request and lays them out in
    /// batches.
    pub fn system_one(&self, request: &SystemOneRequest) -> (result: Result<
        OpenJevWork,
        SystemOneError,
    >)
        requires
            self.wf(),
            self.countable(seq![*request]),
            request.wf(),
        ensures
            self.works(seq![*request], result),
    {
        self.system_one_batch(only(request))
    }

    /// The longest prompt in tokens.
    pub fn context_tokens(&self) -> (tokens: usize)
        ensures
            tokens == self.max_len,
    {
        self.max_len
    }
}

/// The tokens of the first `n` predictions from `from` on.
pub open spec fn tokens_from(predictions: Seq<OpenJevPrediction>, from: int, n: nat) -> nat
    decreases n,
{
    if n == 0 {
        0
    } else {
        tokens_from(predictions, from, (n - 1) as nat) + predictions[from + n - 1].input_tokens as nat
    }
}

/// A response answers every question of a request, in order, by the
/// predictions from `from` on.
pub open spec fn responds(
    request: &SystemOneRequest,
    from: int,
    predictions: Seq<OpenJevPrediction>,
    numbers: Seq<Shares>,
    response: &SystemOneResponse,
) -> bool {
    let n = request.questions@.len();
    &&& response.model@ == MODEL_NAME@
    &&& response.answers.wf()
    &&& response.answers@.len() == n
    &&& forall|k: int|
        #![trigger response.answers@[k]]
        0 <= k < n ==> response.answers@[k].0 == request.questions@[k].0 && answers(
            &request.questions@[k].1,
            &predictions[from + k],
            &numbers[from + k],
            &response.answers@[k].1,
        )
    &&& response.usage.input_tokens == tokens_from(predictions, from, n)
    &&& response.usage.output_tokens == 0
    &&& response.usage.dropped_state_tokens@.len() == 0
}

/// Every question of the requests can be answered by the predictions, taken
/// request after request and question after question.
pub open spec fn all_answerable(
    requests: Seq<SystemOneRequest>,
    predictions: Seq<OpenJevPrediction>,
    numbers: Seq<Shares>,
) -> bool {
    &&& predictions.len() == asked_before(requests, requests.len())
    &&& numbers.len() == predictions.len()
    &&& forall|r: int, k: int|
        #![trigger requests[r].questions@[k]]
        0 <= r < requests.len() && 0 <= k < requests[r].questions@.len() ==> answerable(
            &requests[r].questions@[k].1,
            &predictions[asked_before(requests, r as nat) + k],
            &numbers[asked_before(requests, r as nat) + k],
        )
    &&& forall|r: int|
        0 <= r < requests.len() ==> tokens_from(
            predictions,
            asked_before(requests, r as nat) as int,
            (#[trigger] requests[r]).questions@.len(),
        ) <= usize::MAX
}

/// A prediction neither abstains nor has mass to share out.
pub open spec fn massless(p: &OpenJevPrediction, numbers: &Shares) -> bool {
    !p.abstained && !numbers.mass.positive()
}

/// Answers every question of a request by the predictions from `from` on.
fn respond_to(
    request: &SystemOneRequest,
    from: usize,
    predictions: &Vec<OpenJevPrediction>,
    numbers: &Vec<Shares>,
) -> (result: Result<SystemOneResponse, SystemOneError>)
    requires
        request.wf(),
        from + request.questions@.len() <= predictions.len(),
        numbers.len() == predictions.len(),
        forall|k: int|
            0 <= k < request.questions@.len() ==> answerable(
                &(#[trigger] request.questions@[k]).1,
                &predictions@[from + k],
                &numbers@[from + k],
            ),
        tokens_from(predictions@, from as int, request.questions@.len()) <= usize::MAX,
    ensures
        result is Ok <==> forall|i: int|
            from <= i < from + request.questions@.len() ==> !massless(
                #[trigger] &predictions@[i],
                &numbers@[i],
            ),
        result matches Err(e) ==> e@ == Failure::Config("invalid substantive probability mass"@),
        result matches Ok(response) ==> responds(
            request,
            from as int,
            predictions@,
            numbers@,
            &response,
        ),
{
    let mut made: Table<Answer> = Table::new();
    let mut usage = Usage::none();
    let mut k: usize = 0;
    proof {
        request.questions.keys_are_distinct();
    }
    while k < request.questions.len()
        invariant
            request.wf(),
            distinct_keys(request.questions@),
            from + request.questions@.len() <= predictions.len(),
            numbers.len() == predictions.len(),
            forall|j: int|
                0 <= j < request.questions@.len() ==> answerable(
                    &(#[trigger] request.questions@[j]).1,
                    &predictions@[from + j],
                    &numbers@[from + j],
                ),
            tokens_from(predictions@, from as int, request.questions@.len()) <= usize::MAX,
            k <= request.questions@.len(),
            forall|i: int|
                from <= i < from + k ==> !massless(#[trigger] &predictions@[i], &numbers@[i]),
            made.wf(),
            made@.len() == k,
            forall|j: int|
                #![trigger made@[j]]
                0 <= j < k ==> made@[j].0 == request.questions@[j].0 && answers(
                    &request.questions@[j].1,
                    &predictions@[from + j],
                    &numbers@[from + j],
                    &made@[j].1,
                ),
            usage.input_tokens == tokens_from(predictions@, from as int, k as nat),
            usage.output_tokens == 0,
            usage.dropped_state_tokens@.len() == 0,
        decreases request.questions@.len() - k,
    {
        let id = request.questions.key(k);
        let q = request.questions.value(k);
        let i: usize = from + k;
        proof {
            assert(request.questions@[k as int].1 == *q);
            tokens_grow(predictions@, from as int, (k + 1) as nat, request.questions@.len());
            next_key_is_new(request.questions@, made@);
        }
        usage.input_tokens = usage.input_tokens + predictions[i].input_tokens;
        match answer(q, &predictions[i], &numbers[i]) {
            Err(e) => {
                assert(massless(&predictions@[i as int], &numbers@[i as int]));
                return Err(e);
            },
            Ok(a) => {
                assert(!massless(&predictions@[i as int], &numbers@[i as int]));
                made.insert(id.to_owned(), a);
            },
        }
        k += 1;
    }
    Ok(SystemOneResponse { model: MODEL_NAME.to_owned(), answers: made, usage })
}

/// Answers every question of the requests by the predictions for them.
pub fn respond(
    requests: &[SystemOneRequest],
    predictions: &Vec<OpenJevPrediction>,
    numbers: &Vec<Shares>,
) -> (result: Result<Vec<SystemOneResponse>, SystemOneError>)
    requires
        forall|r: int| 0 <= r < requests.len() ==> (#[trigger] requests@[r]).wf(),
        all_answerable(requests@, predictions@, numbers@),
    ensures
        result is Ok <==> forall|i: int|
            0 <= i < predictions.len() ==> !massless(#[trigger] &predictions@[i], &numbers@[i]),
        result matches Err(e) ==> e@ == Failure::Config("invalid substantive probability mass"@),
        result matches Ok(responses) ==> {
            &&& responses.len() == requests.len()
            &&& forall|r: int|
                0 <= r < requests.len() ==> responds(
                    &requests@[r],
                    asked_before(requests@, r as nat) as int,
                    predictions@,
                    numbers@,
                    #[trigger] &responses@[r],
                )
        },
{
    let mut responses: Vec<SystemOneResponse> = Vec::new();
    let mut from: usize = 0;
    let mut r: usize = 0;
    while r < requests.len()
        invariant
            r <= requests.len(),
            forall|s: int| 0 <= s < requests.len() ==> (#[trigger] requests@[s]).wf(),
            all_answerable(requests@, predictions@, numbers@),
            from == asked_before(requests@, r as nat),
            responses.len() == r,
            forall|j: int| 0 <= j < from ==> !massless(#[trigger] &predictions@[j], &numbers@[j]),
            forall|s: int|
                0 <= s < r ==> responds(
                    &requests@[s],
                    asked_before(requests@, s as nat) as int,
                    predictions@,
                    numbers@,
                    #[trigger] &responses@[s],
                ),
        decreases requests.len() - r,
    {
        let request = &requests[r];
        proof {
            assert(requests@[r as int].wf());
            asked_grows(requests@, (r + 1) as nat, requests@.len());
            assert forall|k: int| 0 <= k < request.questions@.len() implies answerable(
                &(#[trigger] request.questions@[k]).1,
                &predictions@[from + k],
                &numbers@[from + k],
            ) by {
                assert(requests@[r as int].questions@[k] == request.questions@[k]);
            }
        }
        match respond_to(request, from, predictions, numbers) {
            Err(e) => return Err(e),
            Ok(response) => {
                responses.push(response);
            },
        }
        from = from + request.questions.len();
        r += 1;
    }
    Ok(responses)
}

/// Sums grow with the number of predictions.
proof fn tokens_grow(predictions: Seq<OpenJevPrediction>, from: int, m: nat, n: nat)
    requires
        m <= n,
    ensures
        tokens_from(predictions, from, m) <= tokens_from(predictions, from, n),
    decreases n,
{
    if m < n {
        tokens_grow(predictions, from, m, (n - 1) as nat);
    }
}

} // verus!
