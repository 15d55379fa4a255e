//! A retrieval-augmented-generation pipeline library: chunking of source
//! files, embedding-request construction, a columnar vector-table model with
//! upsert semantics, nearest-neighbor query planning and merging, and a
//! multi-turn chat state machine.

pub mod chat;
pub mod commands;
pub mod config;
pub mod error;
pub mod jsonout;
pub mod pipeline;
pub mod provider;
pub mod query;
pub mod schema;
pub mod chunker;
pub mod strutil;
pub mod table;

pub use error::RagError;
