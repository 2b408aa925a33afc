use mdblog::parse::parse_markdown;
use mdblog::render::{render_content, render_document};
use mdblog::transpile::SocialLinks;
use mdblog::error::RendererError;

#[test]
fn parse_markdown_yields_a_document_root() {
    let tree = parse_markdown("# Hello\n\nSome text.\n").unwrap();
    assert_eq!(tree.kind, "document");
    assert!(tree.children.len() > 0);
}

#[test]
fn render_content_substitutes_title_and_content() {
    let markdown = "<!-- title: My Page -->\n# Heading\n\nIntro paragraph.\n";
    let template = "[{title}]{content}";
    let cfg = SocialLinks::default_links();
    let html = render_content(markdown, template, &cfg).unwrap();
    assert!(html.starts_with("[My Page]"));
    assert!(html.contains("Heading"));
    assert!(html.contains("Intro paragraph."));
}

#[test]
fn render_content_emits_bio_header_once() {
    let markdown = "# One\n\nBio line.\n\n# Two\n";
    let cfg = SocialLinks::default_links();
    let html = render_content(markdown, "{content}", &cfg).unwrap();
    assert_eq!(html.matches("lucide-github").count(), 1);
    assert_eq!(html.matches("class=\"cursor\"").count(), 1);
}

#[test]
fn render_document_matches_render_content() {
    let markdown = "plain words\n";
    let cfg = SocialLinks::default_links();
    let tree = parse_markdown(markdown).unwrap();
    let a = render_document(&tree, markdown, "{content}", &cfg);
    let b = render_content(markdown, "{content}", &cfg).unwrap();
    assert_eq!(a, b);
}

#[test]
fn render_content_never_fails_on_odd_text() {
    let cfg = SocialLinks::default_links();
    let r = render_content("", "{content}", &cfg);
    match r {
        Ok(html) => assert_eq!(html, ""),
        Err(e) => assert!(matches!(
            e,
            RendererError::MarkdownParseError | RendererError::LanguageError
        )),
    }
}
