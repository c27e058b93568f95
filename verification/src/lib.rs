//! Typed decisions about a piece of state.
pub mod backend;
pub mod batching;
pub mod batching_laws;
pub mod bias_act_cuda;
pub mod cli;
pub mod cli_laws;
pub mod cua_s1;
pub mod cutlass_geglu;
pub mod device;
pub mod error;
pub mod fit_laws;
pub mod geglu_cuda;
pub mod gemm_cuda;
pub mod gemm_laws;
pub mod gliner_decide;
pub mod head;
pub mod head_laws;
pub mod jev;
pub mod jev_laws;
pub mod kernel_laws;
pub mod masks;
pub mod modernbert;
pub mod openjev;
pub mod ordering;
pub mod parallel_cuda;
pub mod prepared_cache;
pub mod prepared_cache_laws;
pub mod question_laws;
pub mod refusal_laws;
pub mod residual_norm_cuda;
pub mod responses;
pub mod rope_cuda;
pub mod score;
pub mod score_laws;
pub mod sorted;
pub mod table;
pub mod tensor;
pub mod tensor_laws;
pub mod text;
pub mod text_laws;
pub mod tokens;
pub mod tokens_laws;
pub mod types;

pub use backend::{DecisionModel, SystemOne};
pub use cua_s1::api::{CuaS1, CuaS1Builder, CuaS1OptionPrediction};
pub use cua_s1::model::CuaS1Prediction;
pub use cua_s1::prompt::{CuaS1Input, CuaS1Option};
pub use error::SystemOneError;
pub use gliner_decide::answer::GlinerTaskPrediction;
pub use gliner_decide::input::{GlinerDecide, GlinerDecideInput};
pub use gliner_decide::schema::GlinerTask;
pub use gliner_decide::settings::GlinerDecideBuilder;
pub use jev::{JevClient, JevStats};
pub use openjev::answer::OpenJevPrediction;
pub use openjev::model::{OpenJev, OpenJevBuilder, OpenJevInput};
pub use types::{
    AbstentionAnswer, Action, Answer, ChoiceAnswer, ChoiceCriteria, ChoiceOption, ChoiceQuestion, Description,
    NoulAnswer, NoulCriteria, NoulQuestion, Question, QuestionKind, ScoreAnswer, ScoreQuestion, State,
    SystemOneRequest, SystemOneResponse, Usage,
};
