//! Memory system: configuration, store kinds, the pseudo-tokenizer of the
//! embedder, and the bookkeeping decisions of the memory manager.
pub mod types;
pub mod config;

pub mod tokenize;
