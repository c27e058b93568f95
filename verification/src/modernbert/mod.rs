//! The ModernBERT encoder: its weights, its windows and its packed batches.
pub mod cache;
pub mod config;
pub mod forward;
pub mod forward_laws;
pub mod laws;
pub mod packing;
pub mod window;
