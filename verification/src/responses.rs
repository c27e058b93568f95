//! From what a model gave to the responses, one per request.
use crate::backend::DecisionModel;
use crate::error::{Failure, SystemOneError};
use crate::gliner_decide::answer::{GlinerTaskPrediction, Summary};
use crate::gliner_decide::input::GlinerDecideInput;
use crate::jev::{batch_failure, kind_matches, response_matches, JevClient};
use crate::openjev::answer::{all_answerable, massless, OpenJevPrediction, Shares};
use crate::table::{has_key, lookup, place};
use crate::types::{asked_before, Answer, Question, SystemOneRequest, SystemOneResponse};
use vstd::prelude::*;

verus! {

/// What GLiNER2.5-Decide gave for one request.
pub struct GlinerEvaluation {
    pub input: GlinerDecideInput,
    /// One per task.
    pub predictions: Vec<GlinerTaskPrediction>,
    /// One per prediction.
    pub numbers: Vec<Summary>,
}

impl GlinerEvaluation {
    /// Every question of the request can be answered.
    pub open spec fn covers(&self, request: &SystemOneRequest) -> bool {
        &&& self.predictions.len() == request.questions@.len()
        &&& self.numbers.len() == self.predictions.len()
        &&& forall|k: int|
            0 <= k < self.predictions.len() ==> crate::gliner_decide::answer::answerable(
                &request.questions@[k].1,
                #[trigger] &self.predictions@[k],
            )
    }
}

/// What a model gave for some requests.
pub enum Evaluated {
    /// The responses of a model that answers requests itself.
    Responses(Vec<SystemOneResponse>),
    /// One prediction per question, request after request.
    OpenJev { predictions: Vec<OpenJevPrediction>, numbers: Vec<Shares> },
    /// One evaluation per request.
    GlinerDecide(Vec<GlinerEvaluation>),
    /// What came of the calls, in the order of the requests. After a batch
    /// with a failure no other is carried out.
    Jev(Vec<Option<Result<SystemOneResponse, SystemOneError>>>),
}

impl Evaluated {
    /// It is a model of this kind that gives such values.
    pub open spec fn given_by(&self, model: &DecisionModel) -> bool {
        match model {
            DecisionModel::Laya(_) => self is Responses,
            DecisionModel::OpenJev(_) => self is OpenJev,
            DecisionModel::CuaS1(_) => self is Responses,
            DecisionModel::GlinerDecide(_) => self is GlinerDecide,
            DecisionModel::Jev(_) => self is Jev,
        }
    }

    /// The values are those for these requests.
    pub open spec fn covers(&self, requests: Seq<SystemOneRequest>) -> bool {
        match self {
            Evaluated::Responses(responses) => responses.len() == requests.len(),
            Evaluated::OpenJev { predictions, numbers } => all_answerable(
                requests,
                predictions@,
                numbers@,
            ),
            Evaluated::GlinerDecide(each) => {
                &&& each.len() == requests.len()
                &&& forall|r: int|
                    0 <= r < requests.len() ==> (#[trigger] each@[r]).covers(&requests[r])
            },
            Evaluated::Jev(outcomes) => {
                &&& outcomes.len() <= requests.len()
                &&& outcomes.len() < requests.len() ==> batch_failure(outcomes@) is Some
                &&& forall|r: int|
                    0 <= r < outcomes.len() ==> ((#[trigger] outcomes@[r]) matches Some(Ok(response))
                        ==> response_matches(&requests[r], &response))
            },
        }
    }

    /// Why there are no responses, where there are none.
    pub open spec fn failure(&self) -> Option<Failure> {
        match self {
            Evaluated::Responses(_) => None,
            Evaluated::OpenJev { predictions, numbers } => if exists|i: int|
                0 <= i < predictions.len() && massless(#[trigger] &predictions@[i], &numbers@[i]) {
                Some(Failure::Config("invalid substantive probability mass"@))
            } else {
                None
            },
            Evaluated::GlinerDecide(_) => None,
            Evaluated::Jev(outcomes) => batch_failure(outcomes@),
        }
    }

    /// `response` is what the model that gave these values says to request
    /// `r`.
    pub open spec fn says(
        &self,
        requests: Seq<SystemOneRequest>,
        r: int,
        response: &SystemOneResponse,
    ) -> bool {
        match self {
            Evaluated::Responses(responses) => *response == responses@[r],
            Evaluated::OpenJev { predictions, numbers } => crate::openjev::answer::responds(
                &requests[r],
                asked_before(requests, r as nat) as int,
                predictions@,
                numbers@,
                response,
            ),
            Evaluated::GlinerDecide(each) => crate::gliner_decide::answer::responds(
                &requests[r],
                each@[r].input@,
                each@[r].predictions@,
                each@[r].numbers@,
                response,
            ),
            Evaluated::Jev(outcomes) => outcomes@[r] == Some(
                Ok::<SystemOneResponse, SystemOneError>(*response),
            ),
        }
    }

    /// The result holds a response to every request, in order, or the reason
    /// why there is none.
    pub open spec fn comes_to(
        &self,
        requests: Seq<SystemOneRequest>,
        result: Result<Seq<SystemOneResponse>, Failure>,
    ) -> bool {
        match result {
            Ok(responses) => {
                &&& self.failure() is None
                &&& responses.len() == requests.len()
                &&& forall|r: int|
                    0 <= r < requests.len() ==> self.says(
                        requests,
                        r,
                        #[trigger] &responses[r],
                    )
            },
            Err(failure) => self.failure() == Some(failure),
        }
    }

    /// Turns what a model gave into responses.
    pub fn respond(self, requests: &[SystemOneRequest]) -> (result: Result<
        Vec<SystemOneResponse>,
        SystemOneError,
    >)
        requires
            forall|r: int| 0 <= r < requests.len() ==> (#[trigger] requests@[r]).wf(),
            self.covers(requests@),
        ensures
            self.comes_to(
                requests@,
                match result {
                    Ok(responses) => Ok(responses@),
                    Err(e) => Err(e@),
                },
            ),
    {
        match self {
            Evaluated::Responses(responses) => Ok(responses),
            Evaluated::OpenJev { predictions, numbers } => crate::openjev::answer::respond(
                requests,
                &predictions,
                &numbers,
            ),
            Evaluated::GlinerDecide(each) => Ok(respond_each(requests, &each)),
            Evaluated::Jev(outcomes) => {
                let mut output: Vec<SystemOneResponse> = Vec::new();
                match JevClient::gather(&mut output, outcomes) {
                    Ok(()) => Ok(output),
                    Err(e) => Err(e),
                }
            },
        }
    }
}

/// Answers requests by what GLiNER2.5-Decide gave for each.
fn respond_each(requests: &[SystemOneRequest], each: &Vec<GlinerEvaluation>) -> (responses: Vec<
    SystemOneResponse,
>)
    requires
        each.len() == requests.len(),
        forall|r: int| 0 <= r < requests.len() ==> (#[trigger] requests@[r]).wf(),
        forall|r: int| 0 <= r < requests.len() ==> (#[trigger] each@[r]).covers(&requests@[r]),
    ensures
        responses.len() == requests.len(),
        forall|r: int|
            0 <= r < requests.len() ==> crate::gliner_decide::answer::responds(
                &requests@[r],
                each@[r].input@,
                each@[r].predictions@,
                each@[r].numbers@,
                #[trigger] &responses@[r],
            ),
{
    let mut responses: Vec<SystemOneResponse> = Vec::new();
    let mut r: usize = 0;
    while r < requests.len()
        invariant
            r <= requests.len(),
            each.len() == requests.len(),
            forall|s: int| 0 <= s < requests.len() ==> (#[trigger] requests@[s]).wf(),
            forall|s: int| 0 <= s < requests.len() ==> (#[trigger] each@[s]).covers(&requests@[s]),
            responses.len() == r,
            forall|s: int|
                0 <= s < r ==> crate::gliner_decide::answer::responds(
                    &requests@[s],
                    each@[s].input@,
                    each@[s].predictions@,
                    each@[s].numbers@,
                    #[trigger] &responses@[s],
                ),
        decreases requests.len() - r,
    {
        let request = &requests[r];
        let given = &each[r];
        assert(requests@[r as int].wf());
        assert(each@[r as int].covers(&requests@[r as int]));
        responses.push(
            crate::gliner_decide::answer::respond(
                request,
                &given.input,
                &given.predictions,
                &given.numbers,
            ),
        );
        r += 1;
    }
    responses
}

/// An answer is of the kind that was asked for, or says that there is too
/// little evidence for one of that kind.
pub open spec fn replies(q: &Question, a: &Answer) -> bool {
    ||| kind_matches(q, a)
    ||| a matches Answer::Abstain(x) && x.question_type == q.spec_kind()
}

/// A response has an answer to each question of a request under the
/// question's name, and no other answer.
pub open spec fn replies_to(request: &SystemOneRequest, response: &SystemOneResponse) -> bool {
    &&& response.answers@.len() == request.questions@.len()
    &&& forall|k: int|
        0 <= k < request.questions@.len() ==> has_key(
            response.answers@,
            (#[trigger] request.questions@[k]).0,
        ) && replies(
            &request.questions@[k].1,
            &lookup(response.answers@, request.questions@[k].0),
        )
}

/// Answers that stand in the order of the questions, under their names, are
/// found by these names.
proof fn answers_are_found(request: &SystemOneRequest, response: &SystemOneResponse)
    requires
        response.answers.wf(),
        response.answers@.len() == request.questions@.len(),
        forall|k: int|
            0 <= k < request.questions@.len() ==> (#[trigger] response.answers@[k]).0
                == request.questions@[k].0,
    ensures
        forall|k: int|
            0 <= k < request.questions@.len() ==> has_key(
                response.answers@,
                (#[trigger] request.questions@[k]).0,
            ) && lookup(response.answers@, request.questions@[k].0) == response.answers@[k].1,
{
    response.answers.keys_are_distinct();
    let entries = response.answers@;
    assert forall|k: int| 0 <= k < request.questions@.len() implies has_key(
        entries,
        (#[trigger] request.questions@[k]).0,
    ) && lookup(entries, request.questions@[k].0) == entries[k].1 by {
        assert(entries[k].0 == request.questions@[k].0);
        assert(place(entries, request.questions@[k].0) == k);
    }
}

/// A response is one that such a model has to a request. What a model that
/// answers requests itself says is its own affair. Any other has an answer to
/// each question and no other answer. OpenJev alone may abstain. The
/// responses of OpenJev and of GLiNER2.5-Decide bear their names.
pub open spec fn may_come_from(
    model: &DecisionModel,
    request: &SystemOneRequest,
    response: &SystemOneResponse,
) -> bool {
    match model {
        DecisionModel::Laya(_) => true,
        DecisionModel::OpenJev(_) => {
            &&& replies_to(request, response)
            &&& response.model@ == crate::openjev::prompt::MODEL_NAME@
        },
        DecisionModel::CuaS1(_) => true,
        DecisionModel::GlinerDecide(_) => {
            &&& response_matches(request, response)
            &&& response.model@ == crate::gliner_decide::settings::MODEL_NAME@
        },
        DecisionModel::Jev(_) => response_matches(request, response),
    }
}

/// Whichever model some requests went to, there are as many responses as
/// requests, and each one is that model's response to the request in its
/// place.
pub proof fn each_response_answers_its_request(
    model: &DecisionModel,
    requests: Seq<SystemOneRequest>,
    evaluated: &Evaluated,
    responses: Seq<SystemOneResponse>,
)
    requires
        evaluated.given_by(model),
        evaluated.covers(requests),
        evaluated.comes_to(requests, Ok(responses)),
    ensures
        responses.len() == requests.len(),
        forall|r: int|
            0 <= r < requests.len() ==> evaluated.says(requests, r, #[trigger] &responses[r])
                && may_come_from(model, &requests[r], &responses[r]),
{
    assert forall|r: int| 0 <= r < requests.len() implies evaluated.says(
        requests,
        r,
        #[trigger] &responses[r],
    ) && may_come_from(model, &requests[r], &responses[r]) by {
        let request = &requests[r];
        let response = &responses[r];
        assert(evaluated.says(requests, r, response));
        match evaluated {
            Evaluated::Responses(_) => {},
            Evaluated::OpenJev { predictions, numbers } => {
                answers_are_found(request, response);
                let from = asked_before(requests, r as nat) as int;
                assert forall|k: int| 0 <= k < request.questions@.len() implies has_key(
                    response.answers@,
                    (#[trigger] request.questions@[k]).0,
                ) && replies(
                    &request.questions@[k].1,
                    &lookup(response.answers@, request.questions@[k].0),
                ) by {
                    assert(crate::openjev::answer::answers(
                        &request.questions@[k].1,
                        &predictions@[from + k],
                        &numbers@[from + k],
                        &response.answers@[k].1,
                    ));
                }
            },
            Evaluated::GlinerDecide(each) => {
                answers_are_found(request, response);
                reveal_strlit("GLiNER2.5-Decide");
                assert forall|k: int| 0 <= k < request.questions@.len() implies has_key(
                    response.answers@,
                    (#[trigger] request.questions@[k]).0,
                ) && kind_matches(
                    &request.questions@[k].1,
                    &lookup(response.answers@, request.questions@[k].0),
                ) by {
                    assert(crate::gliner_decide::answer::answers(
                        &request.questions@[k].1,
                        &each@[r].predictions@[k],
                        each@[r].numbers@[k],
                        &response.answers@[k].1,
                    ));
                }
            },
            Evaluated::Jev(outcomes) => {
                assert(outcomes@[r] == Some(Ok::<SystemOneResponse, SystemOneError>(*response)));
            },
        }
    }
}

/// A single request is answered as the only one of a batch: by the first
/// predictions, the first evaluation or the first call.
pub proof fn a_single_request_is_a_batch_of_one(
    request: SystemOneRequest,
    evaluated: &Evaluated,
    responses: Seq<SystemOneResponse>,
)
    requires
        evaluated.comes_to(seq![request], Ok(responses)),
    ensures
        responses.len() == 1,
        match evaluated {
            Evaluated::Responses(given) => responses[0] == given@[0],
            Evaluated::OpenJev { predictions, numbers } => crate::openjev::answer::responds(
                &request,
                0,
                predictions@,
                numbers@,
                &responses[0],
            ),
            Evaluated::GlinerDecide(each) => crate::gliner_decide::answer::responds(
                &request,
                each@[0].input@,
                each@[0].predictions@,
                each@[0].numbers@,
                &responses[0],
            ),
            Evaluated::Jev(outcomes) => outcomes@[0] == Some(
                Ok::<SystemOneResponse, SystemOneError>(responses[0]),
            ),
        },
{
    let requests = seq![request];
    assert(requests[0] == request);
    assert(evaluated.says(requests, 0, &responses[0]));
}

} // verus!
