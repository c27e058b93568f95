//! From scores to native predictions and typed answers.
use crate::error::{config_error, Failure, SystemOneError};
use crate::gliner_decide::input::{GlinerDecide, GlinerDecideInput, InputView};
use crate::gliner_decide::predict::{views, GlinerPlan};
use crate::gliner_decide::schema::{GlinerTask, TaskView, YES};
use crate::gliner_decide::settings::MODEL_NAME;
use crate::score::{all_finite, first_greatest, leader, Float};
use crate::table::{collected, distinct_keys, has_key, lookup, next_key_is_new, Table};
use crate::types::{
    only, legend, legend_entries, Answer, ChoiceAnswer, NoulAnswer, Question, ScoreAnswer, SystemOneRequest, SystemOneResponse, Usage,
};
use vstd::prelude::*;

verus! {

/// What the model said of one task.
pub struct GlinerTaskPrediction {
    pub logits: Vec<Float>,
    pub probabilities: Table<Float>,
    pub selected: String,
}

impl GlinerTaskPrediction {
    /// The prediction reads these scores off the markers of a task.
    pub open spec fn reads(
        &self,
        task: TaskView,
        logits: Seq<Float>,
        probabilities: Seq<Float>,
    ) -> bool {
        &&& self.logits@ == logits
        &&& self.probabilities.wf()
        &&& self.probabilities@ == collected(task.labels, probabilities, task.labels.len())
        &&& self.selected@ == task.labels[leader(probabilities, probabilities.len())]
    }
}

/// Reads a prediction off the scores of a task's labels: the first of the
/// greatest probabilities is selected.
pub fn prediction(task: &GlinerTask, logits: Vec<Float>, probabilities: &Vec<Float>) -> (made:
    GlinerTaskPrediction)
    requires
        probabilities.len() > 0,
        probabilities.len() == task.labels.len(),
    ensures
        made.reads(task@, logits@, probabilities@),
{
    let best = first_greatest(probabilities);
    let selected = task.labels[best].clone();
    assert(task@.labels[best as int] == selected@);
    GlinerTaskPrediction {
        selected,
        probabilities: Table::collect(&task.labels, probabilities),
        logits,
    }
}

/// Reads a prediction off the scores that a model gave a task, where all of
/// them are finite.
pub fn read(task: &GlinerTask, logits: Vec<Float>, probabilities: &Vec<Float>) -> (result: Result<
    GlinerTaskPrediction,
    SystemOneError,
>)
    requires
        probabilities.len() > 0,
        probabilities.len() == task.labels.len(),
    ensures
        result is Ok <==> forall|i: int| 0 <= i < logits.len() ==> (#[trigger] logits@[i]).finite(),
        result matches Ok(made) ==> made.reads(task@, logits@, probabilities@),
        result matches Err(e) ==> e@ == Failure::Config("GLiNER2 returned non-finite logits"@),
{
    if !all_finite(&logits) {
        return Err(config_error("GLiNER2 returned non-finite logits"));
    }
    Ok(prediction(task, logits, probabilities))
}

/// What is computed from the probabilities of a task's labels.
#[derive(Clone, Copy, Debug)]
pub struct Summary {
    /// How far the probabilities are from being equal.
    pub confidence: Float,
    /// The mean step of a scale under the probabilities.
    pub score: Float,
}

/// `a` is the answer to `q` that the prediction comes to.
pub open spec fn answers(
    q: &Question,
    p: &GlinerTaskPrediction,
    numbers: Summary,
    a: &Answer,
) -> bool {
    match q {
        Question::Choice(_) => a matches Answer::Choice(x) && {
            &&& x.choice@ == p.selected@
            &&& x.probabilities.wf()
            &&& x.probabilities@ == p.probabilities@
            &&& x.confidence == numbers.confidence
            &&& x.action is None
        },
        Question::Score(s) => a matches Answer::Score(x) && {
            &&& x.score == numbers.score
            &&& x.legend.wf()
            &&& x.legend@ == legend_entries(s.criteria@)
            &&& x.probabilities.wf()
            &&& x.probabilities@ == p.probabilities@
            &&& x.confidence == numbers.confidence
            &&& x.action is None
        },
        Question::Noul(_) => a matches Answer::Noul(x) && {
            &&& x.noul == lookup(p.probabilities@, YES@)
            &&& x.action is None
        },
    }
}

/// A statement's prediction knows the outcome "yes".
pub open spec fn answerable(q: &Question, p: &GlinerTaskPrediction) -> bool {
    p.probabilities.wf() && (q is Noul ==> has_key(p.probabilities@, YES@))
}

/// Turns a prediction into a typed answer.
pub fn answer(q: &Question, p: &GlinerTaskPrediction, numbers: Summary) -> (a: Answer)
    requires
        answerable(q, p),
    ensures
        answers(q, p, numbers, &a),
{
    match q {
        Question::Choice(_) => Answer::Choice(
            ChoiceAnswer {
                choice: p.selected.clone(),
                probabilities: p.probabilities.copy(),
                confidence: numbers.confidence,
                action: None,
            },
        ),
        Question::Score(s) => Answer::Score(
            ScoreAnswer {
                score: numbers.score,
                legend: legend(&s.criteria),
                probabilities: p.probabilities.copy(),
                confidence: numbers.confidence,
                action: None,
            },
        ),
        Question::Noul(_) => {
            let noul = match p.probabilities.get(YES) {
                Some(share) => *share,
                None => numbers.score,
            };
            Answer::Noul(NoulAnswer { noul, action: None })
        },
    }
}

/// The inputs of some requests, and how the encoder is to be run on them.
pub struct GlinerWork {
    /// One per request.
    pub inputs: Vec<GlinerDecideInput>,
    pub plan: GlinerPlan,
}

impl GlinerDecide {
    /// The inputs are those of the first `n` requests.
    pub open spec fn built_up_to(
        &self,
        requests: Seq<SystemOneRequest>,
        n: int,
        inputs: Seq<InputView>,
    ) -> bool {
        &&& inputs.len() == n
        &&& forall|r: int|
            0 <= r < n ==> self.may_build(#[trigger] &requests[r], Ok(inputs[r]))
    }

    /// The result is the work on some requests: an input for each and a plan,
    /// or the error of the first that cannot be asked.
    pub open spec fn works(
        &self,
        requests: Seq<SystemOneRequest>,
        result: Result<GlinerWork, SystemOneError>,
    ) -> bool {
        match result {
            Ok(work) => {
                &&& self.built_up_to(requests, requests.len() as int, views(work.inputs@))
                &&& forall|r: int|
                    0 <= r < work.inputs@.len() ==> self.valid_input((#[trigger] work.inputs@[r])@)
                &&& work.plan.plans(views(work.inputs@), self.batch_size as nat)
            },
            Err(e) => {
                ||| exists|r: int, inputs: Seq<InputView>|
                    {
                        &&& 0 <= r < requests.len()
                        &&& #[trigger] self.built_up_to(requests, r, inputs)
                        &&& self.may_build(&requests[r], Err(e@))
                    }
                ||| exists|inputs: Seq<InputView>|
                    {
                        &&& #[trigger] self.built_up_to(
                            requests,
                            requests.len() as int,
                            inputs,
                        )
                        &&& exists|i: int|
                            0 <= i < inputs.len() && !self.valid_input(#[trigger] inputs[i])
                        &&& e@ == Failure::Config("invalid prepared GLiNER2 input"@)
                    }
            },
        }
    }

    /// Builds the inputs of some requests and plans their evaluation. The
    /// first request that cannot be asked decides the error.
    pub fn system_one_batch(&self, requests: &[SystemOneRequest]) -> (result: Result<
        GlinerWork,
        SystemOneError,
    >)
        requires
            self.wf(),
            self.max_len <= u32::MAX,
            forall|r: int| 0 <= r < requests.len() ==> (#[trigger] requests@[r]).wf(),
        ensures
            self.works(requests@, result),
    {
        let mut inputs: Vec<GlinerDecideInput> = Vec::new();
        let mut r: usize = 0;
        while r < requests.len()
            invariant
                self.wf(),
                r <= requests.len(),
                forall|s: int| 0 <= s < requests.len() ==> (#[trigger] requests@[s]).wf(),
                self.built_up_to(requests@, r as int, views(inputs@)),
            decreases requests.len() - r,
        {
            let ghost before = views(inputs@);
            assert(requests@[r as int].wf());
            match self.build_input(&requests[r]) {
                Err(e) => {
                    assert(self.may_build(&requests@[r as int], Err(e@)));
                    return Err(e);
                },
                Ok(input) => {
                    assert(self.may_build(&requests@[r as int], Ok(input@)));
                    inputs.push(input);
                    assert(views(inputs@) =~= before.push(input@));
                },
            }
            r += 1;
        }
        match self.predict(&inputs) {
            Ok(plan) => Ok(GlinerWork { inputs, plan }),
            Err(e) => {
                proof {
                    let i = choose|i: int|
                        0 <= i < inputs.len() && !self.valid_input((#[trigger] inputs@[i])@);
                    assert(!self.valid_input(views(inputs@)[i]));
                }
                Err(e)
            },
        }
    }

    /// Builds the input of one request and plans its evaluation.
    pub fn system_one(&self, request: &SystemOneRequest) -> (result: Result<
        GlinerWork,
        SystemOneError,
    >)
        requires
            self.wf(),
            self.max_len <= u32::MAX,
            request.wf(),
        ensures
            self.works(seq![*request], result),
    {
        self.system_one_batch(only(request))
    }
}

/// A response answers every question of a request, in order. Where state was
/// dropped, it says so under every question.
pub open spec fn responds(
    request: &SystemOneRequest,
    input: InputView,
    predictions: Seq<GlinerTaskPrediction>,
    numbers: Seq<Summary>,
    response: &SystemOneResponse,
) -> bool {
    let n = request.questions@.len();
    &&& response.model@ == MODEL_NAME@
    &&& response.answers.wf()
    &&& response.answers@.len() == n
    &&& forall|k: int|
        #![trigger response.answers@[k]]
        0 <= k < n ==> response.answers@[k].0 == request.questions@[k].0 && answers(
            &request.questions@[k].1,
            &predictions[k],
            numbers[k],
            &response.answers@[k].1,
        )
    &&& response.usage.input_tokens == input.ids.len()
    &&& response.usage.output_tokens == 0
    &&& response.usage.dropped_state_tokens.wf()
    &&& response.usage.dropped_state_tokens@ == dropped_entries(
        request,
        input.dropped_tokens as usize,
    )
}

/// The number of dropped tokens under the name of every question, where
/// there are any.
pub open spec fn dropped_entries(request: &SystemOneRequest, dropped: usize) -> Seq<
    (Seq<char>, usize),
> {
    if dropped == 0 {
        Seq::empty()
    } else {
        Seq::new(request.questions@.len(), |k: int| (request.questions@[k].0, dropped))
    }
}

/// Answers every question of a request by the predictions for its tasks.
pub fn respond(
    request: &SystemOneRequest,
    input: &GlinerDecideInput,
    predictions: &Vec<GlinerTaskPrediction>,
    numbers: &Vec<Summary>,
) -> (response: SystemOneResponse)
    requires
        request.wf(),
        predictions.len() == request.questions@.len(),
        numbers.len() == predictions.len(),
        forall|k: int|
            0 <= k < predictions.len() ==> answerable(
                &request.questions@[k].1,
                #[trigger] &predictions@[k],
            ),
    ensures
        responds(request, input@, predictions@, numbers@, &response),
{
    let mut made: Table<Answer> = Table::new();
    let mut usage = Usage::none();
    usage.input_tokens = input.ids.len();
    let dropped: usize = input.dropped_tokens;
    let mut drops: Table<usize> = Table::new();
    let ghost whole = dropped_entries(request, dropped);
    proof {
        request.questions.keys_are_distinct();
    }
    let mut k: usize = 0;
    while k < request.questions.len()
        invariant
            request.wf(),
            distinct_keys(request.questions@),
            k <= request.questions@.len(),
            predictions.len() == request.questions@.len(),
            numbers.len() == predictions.len(),
            forall|j: int|
                0 <= j < predictions.len() ==> answerable(
                    &request.questions@[j].1,
                    #[trigger] &predictions@[j],
                ),
            made.wf(),
            made@.len() == k,
            forall|j: int|
                #![trigger made@[j]]
                0 <= j < k ==> made@[j].0 == request.questions@[j].0 && answers(
                    &request.questions@[j].1,
                    &predictions@[j],
                    numbers@[j],
                    &made@[j].1,
                ),
            drops.wf(),
            whole == dropped_entries(request, dropped),
            dropped == 0 ==> drops@.len() == 0,
            dropped > 0 ==> drops@ == whole.take(k as int),
        decreases request.questions@.len() - k,
    {
        let id = request.questions.key(k);
        let q = request.questions.value(k);
        proof {
            assert(answerable(&request.questions@[k as int].1, &predictions@[k as int]));
            next_key_is_new(request.questions@, made@);
        }
        if dropped > 0 {
            proof {
                next_key_is_new(request.questions@, drops@);
            }
            drops.insert(id.to_owned(), dropped);
            assert(drops@ =~= whole.take(k + 1));
        }
        made.insert(id.to_owned(), answer(q, &predictions[k], numbers[k]));
        k += 1;
    }
    proof {
        if dropped > 0 {
            assert(whole.take(whole.len() as int) =~= whole);
        } else {
            assert(drops@ =~= whole);
        }
    }
    usage.dropped_state_tokens = drops;
    SystemOneResponse { model: MODEL_NAME.to_owned(), answers: made, usage }
}

} // verus!
