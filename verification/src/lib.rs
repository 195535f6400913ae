//! Resolution and scanning orchestration for locating engine structures
//! inside a loaded executable image.
//!
//! The expensive collaborators — the process-image reader, the byte-level
//! scan engine's cross-reference decoding, and the per-symbol resolver
//! heuristics — are supplied by the embedding program as plain values
//! (sections, per-section match lists, per-slot outcomes).  This crate
//! owns and verifies everything around them: the pattern notation, the
//! exact-match and wildcard search, the composite-resolution aggregation
//! policy with its optional slots, the batch-resolution index protocol,
//! and the ownership-transfer discipline for result buffers.

pub mod buffer;
pub mod composite;
pub mod log;
pub mod registry;
pub mod scan;
pub mod seqs;
pub mod wide;
