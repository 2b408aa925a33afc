use mdblog::metadata::{extract_metadata, parse_metadata_line, Metadata};
use mdblog::template::apply_template;
use mdblog::paths::resolve_markdown_path;
use mdblog::error::RendererError;

fn meta(pairs: &[(&str, &str)]) -> Metadata {
    let mut m = Metadata::new();
    for (k, v) in pairs {
        m.insert(k.to_string(), v.to_string());
    }
    m
}

#[test]
fn multiline_front_matter_recovers_pairs_in_order() {
    let m = extract_metadata("<!--\nTitle: My Post\nAuthor: Me\n-->\nContent here");
    assert_eq!(m.len(), 2);
    assert_eq!(m.get("title").unwrap(), "My Post");
    assert_eq!(m.get("author").unwrap(), "Me");
    assert_eq!(m.pairs[0].0, "title");
    assert_eq!(m.pairs[1].0, "author");
}

#[test]
fn single_line_front_matter() {
    let m = extract_metadata("<!-- title: Hi -->\nBody text");
    assert_eq!(m.len(), 1);
    assert_eq!(m.get("title").unwrap(), "Hi");
}

#[test]
fn no_leading_comment_yields_empty_mapping() {
    let m = extract_metadata("Hello world\n<!-- title: X -->\n");
    assert_eq!(m.len(), 0);
    assert!(m.get("title").is_none());
}

#[test]
fn blank_lines_before_block_are_skipped() {
    let m = extract_metadata("\n\n<!-- a: b -->\nX");
    assert_eq!(m.get("a").unwrap(), "b");
}

#[test]
fn malformed_lines_without_colon_are_skipped() {
    let m = extract_metadata("<!--\nno colon here\nk: v\n-->\n");
    assert_eq!(m.len(), 1);
    assert_eq!(m.get("k").unwrap(), "v");
}

#[test]
fn closing_line_is_not_parsed_as_a_pair() {
    let m = extract_metadata("<!--\nk: v\nx: y -->\nrest");
    assert_eq!(m.len(), 1);
    assert_eq!(m.get("k").unwrap(), "v");
    assert!(m.get("x").is_none());
}

#[test]
fn later_value_overwrites_earlier_key() {
    let m = extract_metadata("<!--\nk: one\nk: two\n-->\n");
    assert_eq!(m.len(), 1);
    assert_eq!(m.get("k").unwrap(), "two");
}

#[test]
fn parse_metadata_line_trims_and_lowercases() {
    let mut m = Metadata::new();
    parse_metadata_line("  KEY :  some value  ", &mut m);
    assert_eq!(m.get("key").unwrap(), "some value");
}

#[test]
fn parse_metadata_line_without_colon_is_ignored() {
    let mut m = Metadata::new();
    parse_metadata_line("nothing here", &mut m);
    assert_eq!(m.len(), 0);
}

#[test]
fn template_substitutes_title_then_content() {
    let m = meta(&[("title", "Hi")]);
    let out = apply_template("<t>{title}</t><c>{content}</c>", "html".to_string(), m);
    assert_eq!(out, "<t>Hi</t><c>html</c>");
}

#[test]
fn template_title_falls_back_when_missing() {
    let m = meta(&[]);
    let out = apply_template("{title}|{content}", "X".to_string(), m);
    assert_eq!(out, "Blog Post|X");
}

#[test]
fn template_substitutes_other_metadata_keys() {
    let m = meta(&[("title", "T"), ("author", "A")]);
    let out = apply_template("{title} by {author}: {content}", "B".to_string(), m);
    assert_eq!(out, "T by A: B");
}

#[test]
fn template_value_holding_a_placeholder_is_substituted_into() {
    let m = meta(&[("x", "{content}")]);
    let out = apply_template("{x}", "C".to_string(), m);
    assert_eq!(out, "C");
}

#[test]
fn path_traversal_is_rejected() {
    let r = resolve_markdown_path("../../etc/passwd");
    assert!(matches!(r, Err(RendererError::InvalidPathError(_))));
    let r2 = resolve_markdown_path("/blog/a/../secret");
    assert!(matches!(r2, Err(RendererError::InvalidPathError(_))));
}

#[test]
fn path_made_absolute_by_prefix_stripping_is_rejected() {
    let r = resolve_markdown_path("blog//etc/passwd");
    assert!(matches!(r, Err(RendererError::InvalidPathError(_))));
    let r2 = resolve_markdown_path("/blog/blog//etc/passwd");
    assert!(matches!(r2, Err(RendererError::InvalidPathError(_))));
}

#[test]
fn leading_slashes_are_stripped_before_resolution() {
    assert_eq!(resolve_markdown_path("//etc/notes").unwrap(), "etc/notes.md");
    assert_eq!(resolve_markdown_path("blog/blog/x").unwrap(), "x.md");
}

#[test]
fn plain_paths_resolve_to_markdown_files() {
    assert_eq!(resolve_markdown_path("blog/post").unwrap(), "post.md");
    assert_eq!(resolve_markdown_path("/nested/path/").unwrap(), "nested/path.md");
    assert_eq!(resolve_markdown_path("").unwrap(), "index.md");
    assert_eq!(resolve_markdown_path("/blog/").unwrap(), "index.md");
    assert_eq!(resolve_markdown_path("dotted..name").unwrap(), "dotted..name.md");
}
