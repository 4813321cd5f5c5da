//! Ingestion pipeline for a multi-tenant knowledge base.
//!
//! Raw uploaded documents are decomposed into page-aware text chunks by an
//! external structuring service, and each chunk is then turned into a vector
//! by an external embedding service.  This crate holds the verified core of
//! that worker: the relational state it acts on ([`store::Store`]), the
//! document-parsing stage ([`parsing`]), the chunk-embedding stage
//! ([`embedding`]), and the scheduler's polling interval ([`scheduler`]).
//! The consistency guarantees of the pipeline are stated and proved in
//! [`laws`].
//!
//! The persistence gateway and the two HTTP collaborators are external: a
//! driver performs those calls and feeds their outcomes to the stage
//! functions here.

pub mod datasets;
pub mod embedding;
pub mod laws;
pub mod parsing;
pub mod routes;
pub mod scheduler;
pub mod store;
