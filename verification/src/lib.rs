//! A verified document transpiler for a Markdown blog: front-matter
//! metadata extraction, link-reference resolution, line-oriented list
//! pre-extraction, a kind-dispatched recursive tree-to-HTML walk, and
//! placeholder templating, with parsing supplied by an external grammar.

#![verifier::loop_isolation(false)]

pub mod error;
pub mod image;
pub mod links;
pub mod lists;
pub mod metadata;
pub mod node;
pub mod parse;
pub mod paths;
pub mod render;
pub mod template;
pub mod text;
pub mod transpile;
