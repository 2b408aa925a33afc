use mdblog::node::{MdNode, is_list_node};
use mdblog::lists::{ListTable, extract_lists, process_list_items};
use mdblog::links::{LinkTable, extract_link_references};
use mdblog::transpile::{markdown_to_html, SocialLinks};
use mdblog::text::{escape_html, usize_to_string};
use mdblog::error::{ApiError, RendererError};

fn node(kind: &str, text: Option<&str>, row: usize, start: usize, children: Vec<MdNode>) -> MdNode {
    MdNode {
        kind: kind.to_string(),
        text: text.map(|t| t.to_string()),
        start_row: row,
        start_char: start,
        children,
    }
}

fn render(n: &MdNode, source: &str, lists: &ListTable) -> String {
    let links = LinkTable::new();
    let cfg = SocialLinks::default_links();
    markdown_to_html(n, source, &links, lists, &cfg)
}

#[test]
fn list_with_table_entry_renders_items_verbatim() {
    let source = "- a\n- b\n";
    let lists = extract_lists(source);
    let marker = node("list_marker", Some("-"), 0, 0, vec![]);
    let item = node("list_item", Some("- a"), 0, 0, vec![marker]);
    let list = node("list", Some("- a\n- b\n"), 0, 0, vec![item]);
    let html = render(&list, source, &lists);
    assert_eq!(html, "<ul class=\"pl-6\">\n<li>a</li>\n<li>b</li>\n</ul>\n");
}

#[test]
fn ordered_list_uses_ol_tag() {
    let source = "1. x\n2. y\n";
    let lists = extract_lists(source);
    let marker = node("list_marker", Some("1."), 0, 0, vec![]);
    let item = node("list_item", Some("1. x"), 0, 0, vec![marker]);
    let list = node("list", None, 0, 0, vec![item]);
    let html = render(&list, source, &lists);
    assert_eq!(html, "<ol class=\"pl-6\">\n<li>x</li>\n<li>y</li>\n</ol>\n");
}

#[test]
fn list_without_table_entry_renders_placeholder_item() {
    let lists = ListTable::new();
    let list = node("list", None, 5, 0, vec![]);
    let html = render(&list, "", &lists);
    assert_eq!(html, "<ul class=\"pl-6\">\n<li></li>\n</ul>\n");
}

#[test]
fn extract_lists_keys_by_start_line() {
    let t = extract_lists("- a\n- b\n\n1. x\n2. y\n");
    assert_eq!(t.entries.len(), 2);
    assert_eq!(t.entries[0].0, 0);
    assert_eq!(t.entries[0].1, vec!["a".to_string(), "b".to_string()]);
    assert_eq!(t.entries[1].0, 3);
    assert_eq!(t.entries[1].1, vec!["x".to_string(), "y".to_string()]);
}

#[test]
fn extract_lists_joins_indented_continuations() {
    let t = extract_lists("- first line\n  continued here\n- second\n");
    assert_eq!(t.entries.len(), 1);
    assert_eq!(
        t.entries[0].1,
        vec!["first line continued here".to_string(), "second".to_string()]
    );
}

#[test]
fn extract_lists_closed_by_plain_line() {
    let t = extract_lists("- a\nnot a list line\n- b\n");
    assert_eq!(t.entries.len(), 2);
    assert_eq!(t.entries[0].1, vec!["a".to_string()]);
    assert_eq!(t.entries[1].0, 2);
}

#[test]
fn process_list_items_unordered() {
    let mut html = String::new();
    process_list_items("- a\n- b\nplain\n", &mut html, false);
    assert_eq!(html, "<li>a</li>\n<li>b</li>\n");
}

#[test]
fn process_list_items_ordered() {
    let mut html = String::new();
    process_list_items("1. one\n2. two\n", &mut html, true);
    assert_eq!(html, "<li>one</li>\n<li>two</li>\n");
}

#[test]
fn first_h1_renders_bio_header_exactly_once() {
    let h1 = node(
        "atx_heading",
        None,
        0,
        0,
        vec![
            node("atx_h1_marker", Some("#"), 0, 0, vec![]),
            node(
                "heading_content",
                Some("First"),
                0,
                2,
                vec![node("text", Some("First"), 0, 2, vec![])],
            ),
        ],
    );
    let h1_again = node(
        "atx_heading",
        None,
        2,
        10,
        vec![
            node("atx_h1_marker", Some("#"), 2, 10, vec![]),
            node(
                "heading_content",
                Some("Second"),
                2,
                12,
                vec![node("text", Some("Second"), 2, 12, vec![])],
            ),
        ],
    );
    let doc = node("document", None, 0, 0, vec![h1, h1_again]);
    let html = render(&doc, "", &ListTable::new());
    assert_eq!(html.matches("lucide-github").count(), 1);
    assert!(html.contains(
        "<h1 class=\"text-2xl text-gruvbox-yellow font-normal mt-8 mb-6 relative\">First</h1>"
    ));
    assert!(html.contains(
        "<h1 class=\"text-2xl text-gruvbox-yellow font-normal mt-8 mb-6 relative\">Second</h1>\n"
    ));
}

#[test]
fn lower_level_headings_use_size_classes() {
    let h2 = node(
        "atx_heading",
        None,
        0,
        0,
        vec![
            node("atx_h2_marker", Some("##"), 0, 0, vec![]),
            node(
                "heading_content",
                Some("Sub"),
                0,
                3,
                vec![node("text", Some("Sub"), 0, 3, vec![])],
            ),
        ],
    );
    let html = render(&h2, "", &ListTable::new());
    assert_eq!(
        html,
        "<h2 class=\"text-xl text-gruvbox-yellow font-normal mt-8 mb-6 relative\">Sub</h2>\n"
    );
}

#[test]
fn first_paragraph_after_heading_is_bio_block() {
    let h1 = node(
        "atx_heading",
        None,
        0,
        0,
        vec![
            node("atx_h1_marker", Some("#"), 0, 0, vec![]),
            node("heading_content", Some("Name"), 0, 2, vec![]),
        ],
    );
    let p1 = node("paragraph", Some("I write *things*."), 2, 10, vec![]);
    let p2 = node(
        "paragraph",
        None,
        4,
        30,
        vec![node("text", Some("Later text"), 4, 30, vec![])],
    );
    let doc = node("document", None, 0, 0, vec![h1, p1, p2]);
    let html = render(&doc, "", &ListTable::new());
    assert!(html.contains(
        "<p class=\"cursor\">I write *things*.</p>\n<hr class=\"border-t border-gruvbox-gray my-8\">\n"
    ));
    assert!(html.contains("<p class=\"my-4\">Later text</p>\n"));
    assert_eq!(html.matches("class=\"cursor\"").count(), 1);
}

#[test]
fn paragraph_before_any_heading_is_not_bio() {
    let p = node("paragraph", None, 0, 0, vec![node("text", Some("Hi"), 0, 0, vec![])]);
    let doc = node("document", None, 0, 0, vec![p]);
    let html = render(&doc, "", &ListTable::new());
    assert_eq!(html, "<p class=\"my-4\">Hi</p>\n");
}

#[test]
fn link_children_render_as_anchor() {
    let link = node(
        "link",
        None,
        0,
        0,
        vec![
            node("link_text", Some("click"), 0, 1, vec![]),
            node("link_destination", Some("http://e"), 0, 8, vec![]),
            node("link_title", Some("\"t\""), 0, 18, vec![]),
        ],
    );
    let html = render(&link, "", &ListTable::new());
    assert_eq!(
        html,
        "<a href=\"http://e\" title=\"t\" class=\"text-gruvbox-blue hover:text-gruvbox-aqua\">click</a>"
    );
}

#[test]
fn emphasis_skips_delimiters() {
    let em = node(
        "emphasis",
        None,
        0,
        0,
        vec![
            node("emphasis_delimiter", Some("*"), 0, 0, vec![]),
            node("text", Some("hi"), 0, 1, vec![]),
            node("emphasis_delimiter", Some("*"), 0, 3, vec![]),
        ],
    );
    assert_eq!(render(&em, "", &ListTable::new()), "<em class=\"italic\">hi</em>");
    let strong = node(
        "strong_emphasis",
        None,
        0,
        0,
        vec![
            node("emphasis_delimiter", Some("**"), 0, 0, vec![]),
            node("text", Some("hi"), 0, 2, vec![]),
            node("emphasis_delimiter", Some("**"), 0, 4, vec![]),
        ],
    );
    assert_eq!(
        render(&strong, "", &ListTable::new()),
        "<strong class=\"font-bold\">hi</strong>"
    );
}

#[test]
fn code_span_is_verbatim() {
    let c = node("code_span", Some("`a < b`"), 0, 0, vec![]);
    assert_eq!(
        render(&c, "", &ListTable::new()),
        "<code class=\"bg-gruvbox-bg1 text-gruvbox-yellow px-2 py-1 rounded font-mono text-sm\">`a < b`</code>"
    );
}

#[test]
fn fenced_code_block_escapes_body() {
    let f = node(
        "fenced_code_block",
        None,
        0,
        0,
        vec![
            node("info_string", Some("rust"), 0, 3, vec![]),
            node("code_fence_content", Some("if a < b { &x }\n"), 1, 8, vec![]),
        ],
    );
    assert_eq!(
        render(&f, "", &ListTable::new()),
        "<pre class=\"line-numbers\"><code class=\"language-rust\">if a &lt; b { &amp;x }</code></pre>"
    );
}

#[test]
fn fenced_code_block_defaults_to_plaintext() {
    let f = node(
        "fenced_code_block",
        None,
        0,
        0,
        vec![node("code_fence_content", Some("x"), 1, 4, vec![])],
    );
    assert_eq!(
        render(&f, "", &ListTable::new()),
        "<pre class=\"line-numbers\"><code class=\"language-plaintext\">x</code></pre>"
    );
}

#[test]
fn block_quote_wraps_children() {
    let q = node(
        "block_quote",
        None,
        0,
        0,
        vec![node("text", Some("quoted"), 0, 2, vec![])],
    );
    assert_eq!(
        render(&q, "", &ListTable::new()),
        "<blockquote class=\"border-l-4 border-gruvbox-gray pl-4 my-4 italic\">quoted</blockquote>"
    );
}

#[test]
fn image_takes_attributes_from_preceding_comment() {
    let source = "<!-- width=\"100\" preset=\"avatar\" -->\n![alt text](img.png)";
    let start = source.find("![").unwrap();
    let img = node("image", Some("![alt text](img.png)"), 1, start, vec![]);
    let html = render(&img, source, &ListTable::new());
    assert_eq!(
        html,
        "<img src=\"img.png\" alt=\"alt text\" title=\"\" class=\"w-32 h-32 rounded-full object-cover\" width=\"100\">"
    );
}

#[test]
fn image_title_comes_from_last_quote_pair() {
    let source = "![alt text](img.png \"The Title\")";
    let img = node("image", Some(source), 0, 0, vec![]);
    let html = render(&img, source, &ListTable::new());
    assert_eq!(
        html,
        "<img src=\"img.png \"The Title\"\" alt=\"alt text\" title=\"The Title\" class=\"max-w-full h-auto my-4 rounded-lg shadow-lg\">"
    );
}

#[test]
fn image_without_comment_uses_default_classes() {
    let source = "![a](u.png)";
    let img = node("image", Some("![a](u.png)"), 0, 0, vec![]);
    let html = render(&img, source, &ListTable::new());
    assert_eq!(
        html,
        "<img src=\"u.png\" alt=\"a\" title=\"\" class=\"max-w-full h-auto my-4 rounded-lg shadow-lg\">"
    );
}

#[test]
fn image_class_attribute_appends_to_defaults() {
    let source = "<!-- class=\"extra\" style=\"border: 1px\" height=\"40\" -->\n![a](u.png)";
    let start = source.find("![").unwrap();
    let img = node("image", Some("![a](u.png)"), 1, start, vec![]);
    let html = render(&img, source, &ListTable::new());
    assert_eq!(
        html,
        "<img src=\"u.png\" alt=\"a\" title=\"\" class=\"max-w-full h-auto my-4 rounded-lg shadow-lg extra\" height=\"40\" style=\"border: 1px\">"
    );
}

#[test]
fn document_skips_link_reference_definitions() {
    let def = node(
        "link_reference_definition",
        Some("[l]: http://x"),
        0,
        0,
        vec![
            node("link_label", Some("[l]"), 0, 0, vec![]),
            node("link_destination", Some("http://x"), 0, 5, vec![]),
        ],
    );
    let p = node("paragraph", None, 2, 20, vec![node("text", Some("body"), 2, 20, vec![])]);
    let doc = node("document", None, 0, 0, vec![def, p]);
    let html = render(&doc, "", &ListTable::new());
    assert_eq!(html, "<p class=\"my-4\">body</p>\n");
}

#[test]
fn link_references_are_collected_lowercased() {
    let def = node(
        "link_reference_definition",
        None,
        0,
        0,
        vec![
            node("link_label", Some("[Foo]"), 0, 0, vec![]),
            node("link_destination", Some("http://x"), 0, 7, vec![]),
            node("link_title", Some("\"T\""), 0, 17, vec![]),
        ],
    );
    let doc = node("document", None, 0, 0, vec![def]);
    let mut refs = LinkTable::new();
    extract_link_references(&doc, &mut refs);
    assert_eq!(refs.len(), 1);
    let pair = refs.get("foo").unwrap();
    assert_eq!(pair.0, "http://x");
    assert_eq!(pair.1, "T");
}

#[test]
fn later_link_definition_overwrites_earlier() {
    let mk = |dest: &str| {
        node(
            "link_reference_definition",
            None,
            0,
            0,
            vec![
                node("link_label", Some("[a]"), 0, 0, vec![]),
                node("link_destination", Some(dest), 0, 5, vec![]),
            ],
        )
    };
    let doc = node("document", None, 0, 0, vec![mk("http://one"), mk("http://two")]);
    let mut refs = LinkTable::new();
    extract_link_references(&doc, &mut refs);
    assert_eq!(refs.len(), 1);
    assert_eq!(refs.get("a").unwrap().0, "http://two");
}

#[test]
fn empty_label_or_destination_is_not_recorded() {
    let def = node(
        "link_reference_definition",
        None,
        0,
        0,
        vec![
            node("link_label", Some("[]"), 0, 0, vec![]),
            node("link_destination", Some("http://x"), 0, 4, vec![]),
        ],
    );
    let mut refs = LinkTable::new();
    extract_link_references(&def, &mut refs);
    assert_eq!(refs.len(), 0);
}

#[test]
fn list_family_nodes_emit_nothing_by_default() {
    let item = node("list_item", Some("- raw"), 0, 0, vec![]);
    assert_eq!(render(&item, "", &ListTable::new()), "");
    assert!(is_list_node(&item));
    assert!(!is_list_node(&node("paragraph", None, 0, 0, vec![])));
}

#[test]
fn unknown_kinds_emit_raw_text() {
    let n = node("html_block", Some("<br>"), 0, 0, vec![]);
    assert_eq!(render(&n, "", &ListTable::new()), "<br>");
}

#[test]
fn escape_html_escapes_the_five_specials() {
    assert_eq!(escape_html("a<b&c\"'>"), "a&lt;b&amp;c&quot;&#39;&gt;");
    assert_eq!(escape_html(""), "");
}

#[test]
fn usize_to_string_writes_decimal() {
    assert_eq!(usize_to_string(0), "0");
    assert_eq!(usize_to_string(12345), "12345");
}

#[test]
fn error_types_and_status_codes() {
    assert_eq!(ApiError::not_found("x").error_type(), "NOT_FOUND");
    assert_eq!(ApiError::not_found("x").status_code(), 404);
    assert_eq!(ApiError::internal_error("x").error_type(), "INTERNAL_ERROR");
    assert_eq!(ApiError::internal_error("x").status_code(), 500);
    assert_eq!(ApiError::bad_request("x").status_code(), 400);
    assert_eq!(ApiError::unauthorized("x").status_code(), 401);
    assert_eq!(ApiError::forbidden("x").status_code(), 403);
    assert_eq!(ApiError::validation_error("x").status_code(), 422);
    let e = ApiError::from(RendererError::InvalidPathError("p".to_string()));
    assert_eq!(e.error_type(), "INVALID_PATH_ERROR");
    assert_eq!(e.status_code(), 404);
    let e2 = ApiError::from(RendererError::FileReadError { path: "f".to_string() });
    assert_eq!(e2.error_type(), "FILE_READ_ERROR");
    assert_eq!(e2.status_code(), 404);
    let e3 = ApiError::from(RendererError::MarkdownParseError);
    assert_eq!(e3.error_type(), "MARKDOWN_PARSE_ERROR");
    assert_eq!(e3.status_code(), 400);
}
