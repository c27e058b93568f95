//! OpenJev (Verdict): decisions read off class markers in a single prompt.
//!
//! Every question becomes one prompt: a marked line per candidate answer, a
//! last marked line for "not enough evidence", and the question with its
//! context. Native predictions keep the probability of abstaining; typed
//! answers are conditional on there being enough evidence.
pub mod answer;
pub mod answer_laws;
pub mod input_laws;
pub mod laws;
pub mod model;
pub mod predict;
pub mod prompt;
pub mod prompt_laws;
