//! GLiNER2.5-Decide: zero-shot label classification.
//!
//! Each request is classified in one forward pass: its questions become
//! tasks that stand in front of the state, every label behind a marker. A
//! task's scores are read off the markers of its labels.
pub mod answer;
pub mod answer_laws;
pub mod input;
pub mod input_laws;
pub mod laws;
pub mod predict;
pub mod schema;
pub mod schema_laws;
pub mod settings;
pub mod words;
