//! A small prompt library for assembling structured music-generation prompts:
//! an entity model with validation, a keyed store engine for prompts ordered
//! by recency, and a read-only tag catalog with filtering and co-occurrence
//! hints.

pub mod catalog;
pub mod greeting;
pub mod ids;
pub mod laws;
pub mod lex;
pub mod model;
pub mod store;

pub use catalog::get_tags;
pub use catalog::TagCatalog;
pub use greeting::greet;
pub use model::validate;
pub use model::AdvancedParams;
pub use model::CoOccurrence;
pub use model::Prompt;
pub use model::PromptStructure;
pub use model::PromptSummary;
pub use model::StoreError;
pub use model::Tag;
pub use model::ValidationError;
pub use model::PARAM_SCALE;
pub use store::StoreEngine;
