//! Indexing a knowledge base.

pub mod progress;
