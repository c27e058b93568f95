//! One interface to all models; which one is used is the caller's choice.
use crate::cua_s1::api::CuaS1;
use crate::error::SystemOneError;
use crate::gliner_decide::answer::GlinerWork;
use crate::gliner_decide::input::GlinerDecide;
use crate::jev::{batch_bounds, JevCall, JevClient, JevStats};
use crate::openjev::answer::OpenJevWork;
use crate::openjev::model::OpenJev;
use crate::types::SystemOneRequest;
use vstd::prelude::*;
use vstd::std_specs::convert::FromSpecImpl;

verus! {

/// A local Laya model, as far as the interface asks about it.
#[derive(Debug)]
pub struct SystemOne {
    pub name: String,
    pub max_len: usize,
}

impl SystemOne {
    /// The model's name.
    pub fn model_name(&self) -> (name: &str)
        ensures
            name@ == self.name@,
    {
        self.name.as_str()
    }

    /// The longest prompt in tokens.
    pub fn context_tokens(&self) -> (tokens: usize)
        ensures
            tokens == self.max_len,
    {
        self.max_len
    }
}

/// A model of the caller's choice.
pub enum DecisionModel {
    Laya(Box<SystemOne>),
    OpenJev(Box<OpenJev>),
    CuaS1(Box<CuaS1>),
    GlinerDecide(Box<GlinerDecide>),
    Jev(Box<JevClient>),
}

impl From<SystemOne> for DecisionModel {
    fn from(model: SystemOne) -> (made: Self) {
        DecisionModel::Laya(Box::new(model))
    }
}

impl FromSpecImpl<SystemOne> for DecisionModel {
    open spec fn obeys_from_spec() -> bool {
        true
    }

    open spec fn from_spec(model: SystemOne) -> Self {
        DecisionModel::Laya(Box::new(model))
    }
}

impl From<OpenJev> for DecisionModel {
    fn from(model: OpenJev) -> (made: Self) {
        DecisionModel::OpenJev(Box::new(model))
    }
}

impl FromSpecImpl<OpenJev> for DecisionModel {
    open spec fn obeys_from_spec() -> bool {
        true
    }

    open spec fn from_spec(model: OpenJev) -> Self {
        DecisionModel::OpenJev(Box::new(model))
    }
}

impl From<CuaS1> for DecisionModel {
    fn from(model: CuaS1) -> (made: Self) {
        DecisionModel::CuaS1(Box::new(model))
    }
}

impl FromSpecImpl<CuaS1> for DecisionModel {
    open spec fn obeys_from_spec() -> bool {
        true
    }

    open spec fn from_spec(model: CuaS1) -> Self {
        DecisionModel::CuaS1(Box::new(model))
    }
}

impl From<GlinerDecide> for DecisionModel {
    fn from(model: GlinerDecide) -> (made: Self) {
        DecisionModel::GlinerDecide(Box::new(model))
    }
}

impl FromSpecImpl<GlinerDecide> for DecisionModel {
    open spec fn obeys_from_spec() -> bool {
        true
    }

    open spec fn from_spec(model: GlinerDecide) -> Self {
        DecisionModel::GlinerDecide(Box::new(model))
    }
}

impl From<JevClient> for DecisionModel {
    fn from(model: JevClient) -> (made: Self) {
        DecisionModel::Jev(Box::new(model))
    }
}

impl FromSpecImpl<JevClient> for DecisionModel {
    open spec fn obeys_from_spec() -> bool {
        true
    }

    open spec fn from_spec(model: JevClient) -> Self {
        DecisionModel::Jev(Box::new(model))
    }
}

/// Whether a request fits.
#[derive(Clone, Copy, Debug, PartialEq, Eq, Structural)]
pub enum Fit {
    Known(bool),
    /// The client has no tokenizer to measure by yet.
    NeedsTokenizer,
    /// Only the running model can tell.
    AskModel,
}

/// What a model needs done for one request.
pub enum Work {
    /// Evaluate the request by the running model.
    Laya,
    OpenJev(OpenJevWork),
    /// Evaluate the request by the running model.
    CuaS1,
    GlinerDecide(GlinerWork),
    /// Carry the call out.
    Jev(JevCall),
}

/// What a model needs done for some requests.
pub enum BatchWork {
    /// Evaluate the requests by the running model.
    Laya,
    OpenJev(OpenJevWork),
    /// Evaluate the requests by the running model.
    CuaS1,
    GlinerDecide(GlinerWork),
    /// Carry calls out batch after batch: the first request of each batch, and
    /// the one behind its last.
    Jev(Vec<(usize, usize)>),
}

impl DecisionModel {
    /// The tokens of a batch of these questions can be numbered.
    pub open spec fn countable(&self, requests: Seq<SystemOneRequest>) -> bool {
        self matches DecisionModel::OpenJev(m) ==> m.countable(requests)
    }

    /// The settings that a loaded model has.
    pub open spec fn wf(&self) -> bool {
        match self {
            DecisionModel::Laya(_) => true,
            DecisionModel::OpenJev(m) => m.wf(),
            DecisionModel::CuaS1(m) => m.wf(),
            DecisionModel::GlinerDecide(m) => m.wf() && m.max_len <= u32::MAX,
            DecisionModel::Jev(m) => m.wf(),
        }
    }

    /// The model's name.
    pub fn model_name(&self) -> (name: &str)
        ensures
            name@ == match self {
                DecisionModel::Laya(m) => m.name@,
                DecisionModel::OpenJev(_) => crate::openjev::prompt::MODEL_NAME@,
                DecisionModel::CuaS1(_) => crate::cua_s1::api::MODEL_NAME@,
                DecisionModel::GlinerDecide(_) => crate::gliner_decide::settings::MODEL_NAME@,
                DecisionModel::Jev(m) => m.model@,
            },
    {
        match self {
            DecisionModel::Laya(m) => m.model_name(),
            DecisionModel::OpenJev(m) => m.model_name(),
            DecisionModel::CuaS1(m) => m.model_name(),
            DecisionModel::GlinerDecide(m) => m.model_name(),
            DecisionModel::Jev(m) => m.model_name(),
        }
    }

    /// The longest prompt in tokens. That of a hosted model is a budget of the
    /// caller's, not a limit of the provider's.
    pub fn context_tokens(&self) -> (tokens: usize)
        ensures
            tokens == match self {
                DecisionModel::Laya(m) => m.max_len,
                DecisionModel::OpenJev(m) => m.max_len,
                DecisionModel::CuaS1(m) => m.max_len,
                DecisionModel::GlinerDecide(m) => m.max_len,
                DecisionModel::Jev(m) => m.context_tokens,
            },
    {
        match self {
            DecisionModel::Laya(m) => m.context_tokens(),
            DecisionModel::OpenJev(m) => m.context_tokens(),
            DecisionModel::CuaS1(m) => m.context_tokens(),
            DecisionModel::GlinerDecide(m) => m.context_tokens(),
            DecisionModel::Jev(m) => m.context_tokens(),
        }
    }

    /// Whether every question fits without cutting its input. A hosted model's
    /// answer is an estimate.
    pub fn request_fits(&self, request: &SystemOneRequest) -> (result: Result<Fit, SystemOneError>)
        requires
            self.wf(),
            request.wf(),
        ensures
            match self {
                DecisionModel::OpenJev(m) => match result {
                    Ok(fit) => fit matches Fit::Known(fits) && m.measures(request, Ok(fits)),
                    Err(e) => m.measures(request, Err(e)),
                },
                DecisionModel::GlinerDecide(m) => match result {
                    Ok(fit) => fit matches Fit::Known(fits) && m.measures(request, Ok(fits)),
                    Err(e) => m.measures(request, Err(e)),
                },
                DecisionModel::Jev(m) => if m.tokenizer is None {
                    result == Ok::<Fit, SystemOneError>(Fit::NeedsTokenizer)
                } else {
                    match result {
                        Ok(fit) => fit matches Fit::Known(fits) && m.measures(request, Ok(fits)),
                        Err(e) => m.measures(request, Err(e)),
                    }
                },
                _ => result == Ok::<Fit, SystemOneError>(Fit::AskModel),
            },
    {
        match self {
            DecisionModel::OpenJev(m) => match m.request_fits(request) {
                Ok(fits) => Ok(Fit::Known(fits)),
                Err(e) => Err(e),
            },
            DecisionModel::GlinerDecide(m) => match m.request_fits(request) {
                Ok(fits) => Ok(Fit::Known(fits)),
                Err(e) => Err(e),
            },
            DecisionModel::Jev(m) => {
                if m.tokenizer.is_none() {
                    return Ok(Fit::NeedsTokenizer);
                }
                match m.request_fits(request) {
                    Ok(fits) => Ok(Fit::Known(fits)),
                    Err(e) => Err(e),
                }
            },
            _ => Ok(Fit::AskModel),
        }
    }

    /// Prepares one request. Only calls of a hosted model are counted.
    pub fn system_one(&self, request: &SystemOneRequest, stats: &mut JevStats) -> (result: Result<
        Work,
        SystemOneError,
    >)
        requires
            self.wf(),
            self.countable(seq![*request]),
            request.wf(),
        ensures
            !(self is Jev) ==> *final(stats) == *old(stats),
            match self {
                DecisionModel::Laya(_) => result matches Ok(work) && work is Laya,
                DecisionModel::CuaS1(_) => result matches Ok(work) && work is CuaS1,
                DecisionModel::OpenJev(m) => match result {
                    Ok(work) => work matches Work::OpenJev(w) && m.works(seq![*request], Ok(w)),
                    Err(e) => m.works(seq![*request], Err(e)),
                },
                DecisionModel::GlinerDecide(m) => match result {
                    Ok(work) => work matches Work::GlinerDecide(w) && m.works(
                        seq![*request],
                        Ok(w),
                    ),
                    Err(e) => m.works(seq![*request], Err(e)),
                },
                DecisionModel::Jev(m) => match result {
                    Ok(work) => work matches Work::Jev(call) && m.starts(
                        request,
                        *old(stats),
                        *final(stats),
                        Ok(call),
                    ),
                    Err(e) => m.starts(request, *old(stats), *final(stats), Err(e)),
                },
            },
    {
        match self {
            DecisionModel::Laya(_) => Ok(Work::Laya),
            DecisionModel::CuaS1(_) => Ok(Work::CuaS1),
            DecisionModel::OpenJev(m) => match m.system_one(request) {
                Ok(work) => Ok(Work::OpenJev(work)),
                Err(e) => Err(e),
            },
            DecisionModel::GlinerDecide(m) => match m.system_one(request) {
                Ok(work) => Ok(Work::GlinerDecide(work)),
                Err(e) => Err(e),
            },
            DecisionModel::Jev(m) => match m.system_one(request, stats) {
                Ok(call) => Ok(Work::Jev(call)),
                Err(e) => Err(e),
            },
        }
    }

    /// Prepares some requests, whose responses come in the same order.
    pub fn system_one_batch(&self, requests: &[SystemOneRequest]) -> (result: Result<
        BatchWork,
        SystemOneError,
    >)
        requires
            self.wf(),
            self.countable(requests@),
            forall|r: int| 0 <= r < requests.len() ==> (#[trigger] requests@[r]).wf(),
        ensures
            match self {
                DecisionModel::Laya(_) => result matches Ok(work) && work is Laya,
                DecisionModel::CuaS1(_) => result matches Ok(work) && work is CuaS1,
                DecisionModel::OpenJev(m) => match result {
                    Ok(work) => work matches BatchWork::OpenJev(w) && m.works(requests@, Ok(w)),
                    Err(e) => m.works(requests@, Err(e)),
                },
                DecisionModel::GlinerDecide(m) => match result {
                    Ok(work) => work matches BatchWork::GlinerDecide(w) && m.works(
                        requests@,
                        Ok(w),
                    ),
                    Err(e) => m.works(requests@, Err(e)),
                },
                DecisionModel::Jev(m) => result matches Ok(work) && (work matches BatchWork::Jev(
                    bounds,
                ) && bounds@ == batch_bounds(0, requests@.len(), m.concurrency as nat)),
            },
    {
        match self {
            DecisionModel::Laya(_) => Ok(BatchWork::Laya),
            DecisionModel::CuaS1(_) => Ok(BatchWork::CuaS1),
            DecisionModel::OpenJev(m) => match m.system_one_batch(requests) {
                Ok(work) => Ok(BatchWork::OpenJev(work)),
                Err(e) => Err(e),
            },
            DecisionModel::GlinerDecide(m) => match m.system_one_batch(requests) {
                Ok(work) => Ok(BatchWork::GlinerDecide(work)),
                Err(e) => Err(e),
            },
            DecisionModel::Jev(m) => Ok(BatchWork::Jev(m.batches(requests.len()))),
        }
    }

    /// The local Laya model, where it is one.
    pub fn local(&self) -> (model: Option<&SystemOne>)
        ensures
            match self {
                DecisionModel::Laya(m) => model == Some(&**m),
                _ => model is None,
            },
    {
        match self {
            DecisionModel::Laya(m) => Some(m),
            _ => None,
        }
    }
}

} // verus!
