//! Autoregressive token-generation engine.
//!
//! Given an already-loaded causal language model (held by the host), a
//! context window, and a tokenized prompt, this library drives bounded
//! one-token-at-a-time generation: it validates capacity before any model
//! evaluation, builds evaluation batches, turns each sampled token's raw
//! bytes into well-formed text fragments through an incremental UTF-8
//! decoder, and reports throughput statistics.
//!
//! Model loading, device backends, and the host's event plumbing stay
//! outside; the engine here is a state machine that the host steps, handing
//! it one sampled token per decode step and performing the model
//! evaluations the engine asks for.

pub mod batch;
pub mod config;
pub mod decoder;
pub mod engine;
pub mod error;
pub mod stats;
pub mod validate;
