//! Segmented compressive-memory attention engine.
//!
//! A token stream of unbounded length is processed in fixed-size segments.
//! Per attention head, a bounded associative memory summarizes all tokens
//! seen in prior segments, so a windowed attention mechanism gains long-range
//! context without storing the full history.
//!
//! This crate holds the verified core: tokenization, configuration
//! validation, the segment orchestrator's state machine, and the data-layout
//! stages (query/key/value projection, embedding-row gathering, head
//! concatenation), each with a contract. The floating-point kernels and the
//! device pipeline live outside the verified library and consume these
//! functions.

pub mod config;
pub mod conversion;
pub mod errors;
pub mod orchestrator;
pub mod stages;
pub mod tokenizer;
