//! Extraction of structured records from the rendered pages of a community
//! discussion site: posts, threaded comments, and vote affordances.
//!
//! The library works on its own plain-value model of a parsed document
//! (`dom::Element`); turning raw markup into that model, and all network
//! traffic, live outside the library.

pub mod assemble;
pub mod dom;
pub mod errors;
pub mod extract;
pub mod text;
pub mod tree;
pub mod types;

pub use errors::{ErrorKind, ParseError};
pub use types::{Comment, Post, VoteAction};
