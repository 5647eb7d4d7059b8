//! Incremental document and analysis engine for FreeMarker templates.
//!
//! A document is held in a rope-backed text buffer ([`text`]); its syntax
//! tree is an arena of nodes in depth-first pre-order ([`syntax`]); one
//! walk over the tree runs the token, folding, symbol and diagnostic passes
//! and yields an [`analysis::Analysis`]. A [`reactor::Reactor`] keeps one
//! document's text, tree and analysis consistent across edits, and the
//! [`workspace::Workspace`] holds the open documents. The editor features
//! (go to definition, hover, completion, quick fixes, formatting) read that
//! state.

pub mod unicode;
pub mod rope;
pub mod text;
pub mod rule;
pub mod syntax;
pub mod diagnosis;
pub mod tokenizer;
pub mod folding;
pub mod symbol;
pub mod analysis;
pub mod reactor;
pub mod workspace;
pub mod utils;
pub mod assets;
pub mod goto;
pub mod hover;
pub mod completion;
pub mod action;
pub mod format;
