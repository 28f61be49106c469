//! In-memory document model for a KDL-like configuration language.
//!
//! A document is an ordered sequence of nodes; each node carries a name,
//! ordered positional arguments, a property map ordered by key, an optional
//! children block and optional type annotations.  Every entity is paired
//! with the source region it was parsed from.

pub mod ast;
pub mod key_order;
pub mod props;
pub mod span;
