//! Path handling: the component model, normalization, relationships and resolution.

pub mod components;
pub mod relationship;
pub mod normalize;
pub mod types;
pub mod resolver;
pub mod canonicalize;
