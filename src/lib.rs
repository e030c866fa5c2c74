//! Querying a hierarchical registry: resolving a starting key, walking its
//! subtree, filtering each key's values and assembling the matches.
pub mod text;
pub mod value;
pub mod filter;
pub mod root;
pub mod walk;
pub mod assemble;
pub mod query;
pub mod render;
