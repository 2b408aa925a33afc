//! The renderer facade: document text and template text in, final page
//! out. The document is parsed by the external grammar; metadata, link
//! references and the list table are extracted; the tree is transpiled;
//! and the template is filled in.

use vstd::prelude::*;
use crate::node::MdNode;
use crate::metadata::{extract_metadata, spec_extract_metadata};
use crate::links::{LinkTable, extract_link_references};
use crate::lists::{extract_lists, spec_extract_lists};
use crate::transpile::{SocialLinks, markdown_to_html, spec_markdown_to_html};
use crate::template::{apply_template, spec_apply_template};
use crate::parse::{parse_markdown, ParseFailure};
use crate::error::RendererError;

verus! {

/// The final page produced for a parse tree, document text and template.
pub open spec fn spec_rendered_page(
    tree: MdNode,
    src: Seq<char>,
    template: Seq<char>,
    cfg: SocialLinks,
) -> Seq<char> {
    spec_apply_template(
        template,
        spec_markdown_to_html(tree, src, spec_extract_lists(src), cfg),
        spec_extract_metadata(src),
    )
}

/// Run the whole pipeline on an already-parsed tree: metadata, link
/// references, list table, transpile, template.
pub fn render_document(
    tree: &MdNode,
    markdown: &str,
    template: &str,
    cfg: &SocialLinks,
) -> (html: String)
    ensures
        html@ == spec_rendered_page(*tree, markdown@, template@, *cfg),
{
    let metadata = extract_metadata(markdown);
    let mut link_references = LinkTable::new();
    extract_link_references(tree, &mut link_references);
    let lists = extract_lists(markdown);
    let content_html = markdown_to_html(tree, markdown, &link_references, &lists, cfg);
    apply_template(template, content_html, metadata)
}

/// Parse and render: on success, the page rendered for the tree the
/// external parser produced; on failure, the corresponding error kind.
pub fn render_content(markdown: &str, template: &str, cfg: &SocialLinks) -> (r: Result<
    String,
    RendererError,
>)
    ensures
        r matches Ok(html) ==> exists|t: MdNode|
            html@ == spec_rendered_page(t, markdown@, template@, *cfg),
        r matches Err(e) ==> (e matches RendererError::LanguageError || e matches
            RendererError::MarkdownParseError),
{
    match parse_markdown(markdown) {
        Ok(tree) => {
            let html = render_document(&tree, markdown, template, cfg);
            proof {
                assert(html@ == spec_rendered_page(tree, markdown@, template@, *cfg));
            }
            Ok(html)
        },
        Err(ParseFailure::Language) => Err(RendererError::LanguageError),
        Err(ParseFailure::Parse) => Err(RendererError::MarkdownParseError),
    }
}

} // verus!
