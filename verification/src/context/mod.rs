//! Project context for prompts: map, relevance, budgets, compression.
pub mod compression;
pub mod indexer;
pub mod project_map;
pub mod relevance;
pub mod tokenizer;
pub mod selector;
