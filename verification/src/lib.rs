//! Core of a batch archiver: the record store with its freshness rule, URL
//! normalisation, and the per-URL state machine that decides what to do with
//! each answer of the archiving service.

pub mod config;
pub mod laws;
pub mod pipeline;
pub mod record;
pub mod store;
pub mod text;
pub mod time;
