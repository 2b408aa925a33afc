//! Parsing through the external tree-sitter library with the Markdown
//! grammar. The external parser and its nodes are opaque here: each call
//! into them sits behind a small trusted wrapper, and a verified walk
//! copies the parse tree into the library's own node type.

use vstd::prelude::*;
use crate::node::MdNode;

verus! {

#[verifier::external_type_specification]
#[verifier::external_body]
pub struct ExParser(tree_sitter::Parser);

#[verifier::external_type_specification]
#[verifier::external_body]
pub struct ExTree(tree_sitter::Tree);

#[verifier::external_type_specification]
#[verifier::external_body]
pub struct ExNode<'a>(tree_sitter::Node<'a>);

/// Relies on `tree_sitter::Parser::new`: a fresh parser with no language
/// assigned.
#[verifier::external_body]
fn new_parser() -> (r: tree_sitter::Parser) {
    tree_sitter::Parser::new()
}

/// Relies on `tree_sitter::Parser::set_language` with the grammar from
/// `tree_sitter_markdown::language()`: it fails only when the grammar
/// was generated for an incompatible parser version.
#[verifier::external_body]
fn set_markdown_language(p: &mut tree_sitter::Parser) -> (r: bool) {
    p.set_language(tree_sitter_markdown::language()).is_ok()
}

/// Relies on `tree_sitter::Parser::parse`: `None` only when no language
/// is assigned or parsing was cancelled.
#[verifier::external_body]
fn parse_tree(p: &mut tree_sitter::Parser, text: &str) -> (r: Option<tree_sitter::Tree>) {
    p.parse(text, None)
}

/// Relies on `tree_sitter::Tree::root_node`.
#[verifier::external_body]
fn tree_root<'t>(t: &'t tree_sitter::Tree) -> (r: tree_sitter::Node<'t>) {
    t.root_node()
}

/// Relies on `tree_sitter::Node::kind`: the grammar's name for the node.
#[verifier::external_body]
fn node_kind(n: &tree_sitter::Node<'_>) -> (r: String) {
    n.kind().to_string()
}

/// Relies on `tree_sitter::Node::child_count`.
#[verifier::external_body]
fn node_child_count(n: &tree_sitter::Node<'_>) -> (r: usize) {
    n.child_count()
}

/// Relies on `tree_sitter::Node::child`: `Some` for each index below the
/// child count.
#[verifier::external_body]
fn node_child<'t>(n: &tree_sitter::Node<'t>, i: usize) -> (r: Option<tree_sitter::Node<'t>>) {
    n.child(i)
}

/// Relies on `tree_sitter::Node::utf8_text`: the text of the node's byte
/// range, when that range decodes as UTF-8.
#[verifier::external_body]
fn node_text(n: &tree_sitter::Node<'_>, source: &str) -> (r: Option<String>) {
    match n.utf8_text(source.as_bytes()) {
        Ok(t) => Some(t.to_string()),
        Err(_) => None,
    }
}

/// Relies on `tree_sitter::Node::start_position`: the row of the node's
/// first character, counted from zero.
#[verifier::external_body]
fn node_start_row(n: &tree_sitter::Node<'_>) -> (r: usize) {
    n.start_position().row
}

/// Relies on `tree_sitter::Node::start_byte`, converted to a character
/// offset by counting the characters of the preceding text; zero when
/// the byte offset does not lie on a character boundary.
#[verifier::external_body]
fn node_start_char(n: &tree_sitter::Node<'_>, source: &str) -> (r: usize) {
    match source.get(..n.start_byte()) {
        Some(pre) => pre.chars().count(),
        None => 0,
    }
}

/// Copy a parse-tree node and its descendants into the library's own
/// node type, down to the given recursion depth; a deeper tree yields
/// `None`.
fn convert_node(n: &tree_sitter::Node<'_>, source: &str, fuel: u64) -> (r: Option<MdNode>)
    decreases fuel,
{
    if fuel == 0 {
        return None;
    }
    let count = node_child_count(n);
    let mut children: Vec<MdNode> = Vec::new();
    let mut i: usize = 0;
    while i < count
        decreases count - i,
    {
        match node_child(n, i) {
            Some(c) => {
                match convert_node(&c, source, fuel - 1) {
                    Some(m) => {
                        children.push(m);
                    },
                    None => {
                        return None;
                    },
                }
            },
            None => {},
        }
        i += 1;
    }
    Some(
        MdNode {
            kind: node_kind(n),
            text: node_text(n, source),
            start_row: node_start_row(n),
            start_char: node_start_char(n, source),
            children,
        },
    )
}

/// Why a parse produced no tree.
#[derive(Debug)]
pub enum ParseFailure {
    /// The Markdown grammar could not be bound to the parser.
    Language,
    /// The parser returned no tree.
    Parse,
}

/// Parse Markdown text with the external grammar into the library's own
/// tree type. The shape of the tree is decided by the external parser;
/// every later pass is verified for whatever tree comes back.
pub fn parse_markdown(text: &str) -> (r: Result<MdNode, ParseFailure>) {
    let mut parser = new_parser();
    if !set_markdown_language(&mut parser) {
        return Err(ParseFailure::Language);
    }
    match parse_tree(&mut parser, text) {
        Some(tree) => {
            let root = tree_root(&tree);
            let depth_limit: u64 = 0xffff_ffff;
            match convert_node(&root, text, depth_limit) {
                Some(n) => Ok(n),
                None => Err(ParseFailure::Parse),
            }
        },
        None => Err(ParseFailure::Parse),
    }
}

} // verus!
