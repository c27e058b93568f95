//! Cua-S1: one-pass computer-use decisions on a text decoder.
pub mod api;
pub mod attention;
pub mod causal_conv_cuda;
pub mod config;
pub mod decoder_laws;
pub mod delta_net;
pub mod delta_rule_cuda;
pub mod gated_rms_norm_cuda;
pub mod kernel_laws;
pub mod laws;
pub mod lora;
pub mod mixer_laws;
pub mod model;
pub mod prompt;
pub mod prompt_laws;
pub mod rms_norm_cuda;
pub mod shortening_laws;
pub mod swiglu_cuda;
pub mod weights;
