//! Registry of forum discussion threads: identifier resolution, the thread
//! record and its structured form, the status transition state machine driven
//! by interactive controls, and the merge of feed entries into the registry.

pub mod text;
pub mod fields;
pub mod ident;
pub mod error;
pub mod fil;
pub mod registry;
pub mod control;
pub mod ingest;
