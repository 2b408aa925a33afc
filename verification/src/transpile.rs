//! The document transpiler: a recursive, kind-dispatched walk of the
//! syntax tree that emits HTML, threading per-render state for the
//! one-time bio header and bio paragraph, consulting the list table for
//! list bodies, and degrading any malformed node to empty output.

use vstd::prelude::*;
use crate::node::{
    concat_texts_from,
    MdNode, spec_is_list_kind, is_list_node, first_atx_marker_text,
    find_first_atx_marker_text, first_kind_text, find_first_kind_text, first_list_marker_text,
    find_first_list_marker_text, last_kind_text, find_last_kind_text, concat_child_texts,
};
use crate::lists::{ListTable, spec_table_get};
use crate::links::LinkTable;
use crate::image::{spec_image_html, image_html};
use crate::text::{
    spec_trim, spec_strip_both, spec_escape_html, spec_digits, is_digit_char, trim, strip_both,
    escape_html, usize_to_string, str_eq, is_digit,
};

verus! {

/// Per-render state threaded through the walk: whether the first
/// level-1 heading and the first paragraph after it are still to come,
/// and whether the walk is inside list handling.
#[derive(Clone, Copy)]
#[verifier::ext_equal]
pub struct RState {
    pub first_heading: bool,
    pub first_paragraph: bool,
    pub in_list: bool,
}

/// The state every render call starts from.
pub open spec fn spec_initial_state() -> RState {
    RState { first_heading: true, first_paragraph: true, in_list: false }
}

impl RState {
    pub fn initial() -> (st: RState)
        ensures
            st == spec_initial_state(),
    {
        RState { first_heading: true, first_paragraph: true, in_list: false }
    }
}

/// The social links shown in the bio header; configuration data with the
/// historical values as default.
pub struct SocialLinks {
    pub github: String,
    pub linkedin: String,
    pub third: String,
}

impl SocialLinks {
    pub fn default_links() -> (s: SocialLinks)
        ensures
            s.github@ == "https://github.com/Abraxas-365"@,
            s.linkedin@ == "https://www.linkedin.com/in/luis-fernando-miranda-castillo-265b22203"@,
            s.third@ == "#"@,
    {
        SocialLinks {
            github: String::from_str("https://github.com/Abraxas-365"),
            linkedin: String::from_str(
                "https://www.linkedin.com/in/luis-fernando-miranda-castillo-265b22203",
            ),
            third: String::from_str("#"),
        }
    }
}

/// The text size class of a heading level.
pub open spec fn spec_size_class(level: nat) -> Seq<char> {
    if level == 1 {
        "2xl"@
    } else if level == 2 {
        "xl"@
    } else if level == 3 {
        "lg"@
    } else {
        "base"@
    }
}

fn size_class(level: usize) -> (r: &'static str)
    ensures
        r@ == spec_size_class(level as nat),
{
    if level == 1 {
        "2xl"
    } else if level == 2 {
        "xl"
    } else if level == 3 {
        "lg"
    } else {
        "base"
    }
}

/// The one-time header block: the heading text and three social icons.
pub open spec fn spec_bio_header(heading: Seq<char>, cfg: SocialLinks) -> Seq<char> {
    "<div class=\"flex flex-col md:flex-row justify-between items-start md:items-center\">\n"@
        + "<h1 class=\"text-2xl text-gruvbox-yellow font-normal mt-8 mb-6 relative\">"@ + heading
        + "</h1>\n"@ + r#"<div class="flex space-x-3 mb-6 md:mb-0 md:mt-8">
                        <a href=""#@ + cfg.github@ + r#"" target="_blank" class="text-gruvbox-blue hover:text-gruvbox-aqua">
                            <svg xmlns="http://www.w3.org/2000/svg" width="24" height="24" viewBox="0 0 24 24" fill="none"
                                stroke="currentColor" stroke-width="2" stroke-linecap="round" stroke-linejoin="round"
                                class="lucide lucide-github">
                                <path
                                    d="M15 22v-4a4.8 4.8 0 0 0-1-3.5c3 0 6-2 6-5.5.08-1.25-.27-2.48-1-3.5.28-1.15.28-2.35 0-3.5 0 0-1 0-3 1.5-2.64-.5-5.36-.5-8 0C6 2 5 2 5 2c-.3 1.15-.3 2.35 0 3.5A5.403 5.403 0 0 0 4 9c0 3.5 3 5.5 6 5.5-.39.49-.68 1.05-.85 1.65-.17.6-.22 1.23-.15 1.85v4">
                                </path>
                                <path d="M9 18c-4.51 2-5-2-7-2"></path>
                            </svg>
                        </a>
                        <a href=""#@ + cfg.linkedin@ + r#"" target="_blank" class="text-gruvbox-blue hover:text-gruvbox-aqua">
                            <svg xmlns="http://www.w3.org/2000/svg" width="24" height="24" viewBox="0 0 24 24" fill="none"
                                stroke="currentColor" stroke-width="2" stroke-linecap="round" stroke-linejoin="round"
                                class="lucide lucide-linkedin">
                                <path d="M16 8a6 6 0 0 1 6 6v7h-4v-7a2 2 0 0 0-2-2 2 2 0 0 0-2 2v7h-4v-7a6 6 0 0 1 6-6z"></path>
                                <rect width="4" height="12" x="2" y="9"></rect>
                                <circle cx="4" cy="4" r="2"></circle>
                            </svg>
                        </a>
                        <a href=""#@ + cfg.third@
        + r#"" class="text-gruvbox-blue hover:text-gruvbox-aqua">
                            <svg xmlns="http://www.w3.org/2000/svg" width="24" height="24" viewBox="0 0 24 24" fill="none"
                                stroke="currentColor" stroke-width="2" stroke-linecap="round" stroke-linejoin="round"
                                class="lucide lucide-twitter">
                                <path
                                    d="M22 4s-.7 2.1-2 3.4c1.6 10-9.4 17.3-18 11.6 2.2.1 4.4-.6 6-2C3 15.5.5 9.6 3 5c2.2 2.6 5.6 4.1 9 4-.9-4.2 4-6.6 7-3.8 1.1 0 3-1.2 3-1.2z">
                                </path>
                            </svg>
                        </a>
                    </div>"#@ + "</div>\n"@
}

fn bio_header(heading: &str, cfg: &SocialLinks) -> (r: String)
    ensures
        r@ == spec_bio_header(heading@, *cfg),
{
    let mut out = String::from_str(
        "<div class=\"flex flex-col md:flex-row justify-between items-start md:items-center\">\n",
    );
    out.append("<h1 class=\"text-2xl text-gruvbox-yellow font-normal mt-8 mb-6 relative\">");
    out.append(heading);
    out.append("</h1>\n");
    out.append(r#"<div class="flex space-x-3 mb-6 md:mb-0 md:mt-8">
                        <a href=""#);
    out.append(cfg.github.as_str());
    out.append(r#"" target="_blank" class="text-gruvbox-blue hover:text-gruvbox-aqua">
                            <svg xmlns="http://www.w3.org/2000/svg" width="24" height="24" viewBox="0 0 24 24" fill="none"
                                stroke="currentColor" stroke-width="2" stroke-linecap="round" stroke-linejoin="round"
                                class="lucide lucide-github">
                                <path
                                    d="M15 22v-4a4.8 4.8 0 0 0-1-3.5c3 0 6-2 6-5.5.08-1.25-.27-2.48-1-3.5.28-1.15.28-2.35 0-3.5 0 0-1 0-3 1.5-2.64-.5-5.36-.5-8 0C6 2 5 2 5 2c-.3 1.15-.3 2.35 0 3.5A5.403 5.403 0 0 0 4 9c0 3.5 3 5.5 6 5.5-.39.49-.68 1.05-.85 1.65-.17.6-.22 1.23-.15 1.85v4">
                                </path>
                                <path d="M9 18c-4.51 2-5-2-7-2"></path>
                            </svg>
                        </a>
                        <a href=""#);
    out.append(cfg.linkedin.as_str());
    out.append(r#"" target="_blank" class="text-gruvbox-blue hover:text-gruvbox-aqua">
                            <svg xmlns="http://www.w3.org/2000/svg" width="24" height="24" viewBox="0 0 24 24" fill="none"
                                stroke="currentColor" stroke-width="2" stroke-linecap="round" stroke-linejoin="round"
                                class="lucide lucide-linkedin">
                                <path d="M16 8a6 6 0 0 1 6 6v7h-4v-7a2 2 0 0 0-2-2 2 2 0 0 0-2 2v7h-4v-7a6 6 0 0 1 6-6z"></path>
                                <rect width="4" height="12" x="2" y="9"></rect>
                                <circle cx="4" cy="4" r="2"></circle>
                            </svg>
                        </a>
                        <a href=""#);
    out.append(cfg.third.as_str());
    out.append(r#"" class="text-gruvbox-blue hover:text-gruvbox-aqua">
                            <svg xmlns="http://www.w3.org/2000/svg" width="24" height="24" viewBox="0 0 24 24" fill="none"
                                stroke="currentColor" stroke-width="2" stroke-linecap="round" stroke-linejoin="round"
                                class="lucide lucide-twitter">
                                <path
                                    d="M22 4s-.7 2.1-2 3.4c1.6 10-9.4 17.3-18 11.6 2.2.1 4.4-.6 6-2C3 15.5.5 9.6 3 5c2.2 2.6 5.6 4.1 9 4-.9-4.2 4-6.6 7-3.8 1.1 0 3-1.2 3-1.2z">
                                </path>
                            </svg>
                        </a>
                    </div>"#);
    out.append("</div>\n");
    proof {
        assert(out@ =~= spec_bio_header(heading@, *cfg));
    }
    out
}

/// A heading that is not the bio header: open tag, rendered inline
/// content, close tag.
pub open spec fn spec_heading_open(level: nat) -> Seq<char> {
    "<h"@ + spec_digits(level) + " class=\"text-"@ + spec_size_class(level)
        + " text-gruvbox-yellow font-normal mt-8 mb-6 relative\">"@
}

pub open spec fn spec_heading_close(level: nat) -> Seq<char> {
    "</h"@ + spec_digits(level) + ">\n"@
}

/// The heading level: the character length of the first ATX marker
/// child whose text was extracted, or one.
pub open spec fn spec_heading_level(n: MdNode) -> nat {
    match first_atx_marker_text(n.children@) {
        Some(t) => t.len(),
        None => 1,
    }
}

/// The heading text: the first `heading_content` child's raw text.
pub open spec fn spec_heading_text(n: MdNode) -> Seq<char> {
    match first_kind_text(n.children@, "heading_content"@) {
        Some(t) => t,
        None => Seq::empty(),
    }
}

/// Whether a list node is ordered: the first marker of its first child
/// begins with an ASCII digit.
pub open spec fn spec_list_ordered(n: MdNode) -> bool {
    if n.children@.len() > 0 {
        match first_list_marker_text(n.children@[0].children@) {
            Some(t) => t.len() > 0 && is_digit_char(t[0]),
            None => false,
        }
    } else {
        false
    }
}

/// The `<li>` lines of the table items from index `i` on.
pub open spec fn spec_items_html(items: Seq<Seq<char>>, i: int) -> Seq<char>
    decreases items.len() - i,
{
    if i < 0 || i >= items.len() {
        Seq::empty()
    } else {
        "<li>"@ + items[i] + "</li>\n"@ + spec_items_html(items, i + 1)
    }
}

/// A list node: `ol` or `ul` by the first marker, the item strings taken
/// verbatim from the list table entry keyed by the node's start line, or
/// a single placeholder item when the table has none.
pub open spec fn spec_list_html(n: MdNode, lists: Seq<(int, Seq<Seq<char>>)>) -> Seq<char> {
    let tag: Seq<char> = if spec_list_ordered(n) {
        "ol"@
    } else {
        "ul"@
    };
    let body = match spec_table_get(lists, n.start_row as int) {
        Some(items) => spec_items_html(items, 0),
        None => "<li></li>\n"@,
    };
    "<"@ + tag + " class=\"pl-6\">\n"@ + body + "</"@ + tag + ">\n"@
}

fn list_html(n: &MdNode, lists: &ListTable) -> (r: String)
    ensures
        r@ == spec_list_html(*n, lists@),
{
    let ordered = if n.children.len() > 0 {
        match find_first_list_marker_text(&n.children[0].children) {
            Some(t) => t.as_str().unicode_len() > 0 && is_digit(t.as_str().get_char(0)),
            None => false,
        }
    } else {
        false
    };
    let tag = if ordered {
        "ol"
    } else {
        "ul"
    };
    let mut out = String::from_str("<");
    out.append(tag);
    out.append(" class=\"pl-6\">\n");
    match lists.get(n.start_row) {
        Some(items) => {
            let ghost itemsv = items.deep_view();
            let ghost mid0 = out@;
            let m = items.len();
            let mut j: usize = 0;
            while j < m
                invariant
                    j <= m,
                    m == items.len(),
                    out@ + spec_items_html(itemsv, j as int) == mid0 + spec_items_html(itemsv, 0),
                decreases m - j,
            {
                let ghost outp = out@;
                out.append("<li>");
                out.append(items[j].as_str());
                out.append("</li>\n");
                proof {
                    assert(items@[j as int]@ == itemsv[j as int]);
                    assert(out@ + spec_items_html(itemsv, j + 1) =~= outp + spec_items_html(
                        itemsv,
                        j as int,
                    ));
                }
                j += 1;
            }
            proof {
                assert(out@ + Seq::<char>::empty() =~= out@);
            }
        },
        None => {
            out.append("<li></li>\n");
        },
    }
    out.append("</");
    out.append(tag);
    out.append(">\n");
    proof {
        assert(out@ =~= spec_list_html(*n, lists@));
    }
    out
}

/// An inline link: anchor tag with the literal child values.
pub open spec fn spec_link_html(n: MdNode) -> Seq<char> {
    let url = match last_kind_text(n.children@, "link_destination"@) {
        Some(t) => t,
        None => Seq::empty(),
    };
    let text = match last_kind_text(n.children@, "link_text"@) {
        Some(t) => t,
        None => Seq::empty(),
    };
    let title = match last_kind_text(n.children@, "link_title"@) {
        Some(t) => spec_strip_both(spec_strip_both(t, '"'), '\''),
        None => Seq::empty(),
    };
    "<a href=\""@ + url + "\" title=\""@ + title
        + "\" class=\"text-gruvbox-blue hover:text-gruvbox-aqua\">"@ + text + "</a>"@
}

fn link_html(n: &MdNode) -> (r: String)
    ensures
        r@ == spec_link_html(*n),
{
    proof {
        reveal_strlit("");
    }
    let url = match find_last_kind_text(&n.children, "link_destination") {
        Some(t) => t.as_str(),
        None => "",
    };
    let text = match find_last_kind_text(&n.children, "link_text") {
        Some(t) => t.as_str(),
        None => "",
    };
    let title = match find_last_kind_text(&n.children, "link_title") {
        Some(t) => strip_both(strip_both(t.as_str(), '"'), '\''),
        None => "",
    };
    let mut out = String::from_str("<a href=\"");
    out.append(url);
    out.append("\" title=\"");
    out.append(title);
    out.append("\" class=\"text-gruvbox-blue hover:text-gruvbox-aqua\">");
    out.append(text);
    out.append("</a>");
    proof {
        assert(out@ =~= spec_link_html(*n));
    }
    out
}

/// An inline code span: the raw text verbatim in a styled tag, or
/// nothing when the text could not be extracted.
pub open spec fn spec_code_html(n: MdNode) -> Seq<char> {
    match n.text {
        Some(t) =>
            "<code class=\"bg-gruvbox-bg1 text-gruvbox-yellow px-2 py-1 rounded font-mono text-sm\">"@
            + t@ + "</code>"@,
        None => Seq::empty(),
    }
}

fn code_html(n: &MdNode) -> (r: String)
    ensures
        r@ == spec_code_html(*n),
{
    match &n.text {
        Some(t) => {
            let mut out = String::from_str(
                "<code class=\"bg-gruvbox-bg1 text-gruvbox-yellow px-2 py-1 rounded font-mono text-sm\">",
            );
            out.append(t.as_str());
            out.append("</code>");
            proof {
                assert(out@ =~= spec_code_html(*n));
            }
            out
        },
        None => {
            let out = String::new();
            proof {
                assert(out@ =~= spec_code_html(*n));
            }
            out
        },
    }
}

/// A fenced code block: the trimmed info string names the language
/// (`plaintext` when absent), and the trimmed body is HTML-escaped.
pub open spec fn spec_fenced_html(n: MdNode) -> Seq<char> {
    let lang = match last_kind_text(n.children@, "info_string"@) {
        Some(t) => spec_trim(t),
        None => "plaintext"@,
    };
    let content = match last_kind_text(n.children@, "code_fence_content"@) {
        Some(t) => spec_escape_html(spec_trim(t)),
        None => Seq::empty(),
    };
    "<pre class=\"line-numbers\"><code class=\"language-"@ + lang + "\">"@ + content
        + "</code></pre>"@
}

fn fenced_html(n: &MdNode) -> (r: String)
    ensures
        r@ == spec_fenced_html(*n),
{
    let mut out = String::from_str("<pre class=\"line-numbers\"><code class=\"language-");
    match find_last_kind_text(&n.children, "info_string") {
        Some(t) => {
            out.append(trim(t.as_str()));
        },
        None => {
            out.append("plaintext");
        },
    }
    out.append("\">");
    match find_last_kind_text(&n.children, "code_fence_content") {
        Some(t) => {
            let escaped = escape_html(trim(t.as_str()));
            out.append(escaped.as_str());
        },
        None => {},
    }
    out.append("</code></pre>");
    proof {
        assert(out@ =~= spec_fenced_html(*n));
    }
    out
}

/// The bio paragraph's text: the node's raw text, or the concatenated
/// child texts when the node's own range did not decode.
pub open spec fn spec_para_text(n: MdNode) -> Seq<char> {
    match n.text {
        Some(t) => t@,
        None => concat_child_texts(n.children@),
    }
}

/// One node's rendering: the emitted HTML and the state after it.
pub open spec fn render_node(
    n: MdNode,
    src: Seq<char>,
    lists: Seq<(int, Seq<Seq<char>>)>,
    cfg: SocialLinks,
    st: RState,
) -> (Seq<char>, RState)
    decreases n, 0int,
{
    let k = n.kind@;
    if k == "document"@ {
        render_doc_children(n.children@, 0, src, lists, cfg, st)
    } else if k == "list"@ {
        (spec_list_html(n, lists), st)
    } else if k == "atx_heading"@ {
        let level = spec_heading_level(n);
        if level == 1 && st.first_heading {
            (
                spec_bio_header(spec_heading_text(n), cfg),
                RState { first_heading: false, ..st },
            )
        } else {
            let (inner, st2) = render_heading_contents(n.children@, 0, src, lists, cfg, st);
            (spec_heading_open(level) + inner + spec_heading_close(level), st2)
        }
    } else if k == "paragraph"@ {
        if st.in_list {
            (Seq::empty(), st)
        } else if st.first_paragraph && !st.first_heading {
            (
                "<p class=\"cursor\">"@ + spec_para_text(n) + "</p>\n"@
                    + "<hr class=\"border-t border-gruvbox-gray my-8\">\n"@,
                RState { first_paragraph: false, ..st },
            )
        } else {
            let (inner, st2) = render_children(n.children@, 0, src, lists, cfg, st);
            ("<p class=\"my-4\">"@ + inner + "</p>\n"@, st2)
        }
    } else if k == "link"@ {
        (spec_link_html(n), st)
    } else if k == "image"@ {
        (spec_image_html(n, src), st)
    } else if k == "strong_emphasis"@ || k == "emphasis"@ {
        let (inner, st2) = render_emph_children(n.children@, 0, src, lists, cfg, st);
        if k == "strong_emphasis"@ {
            ("<strong class=\"font-bold\">"@ + inner + "</strong>"@, st2)
        } else {
            ("<em class=\"italic\">"@ + inner + "</em>"@, st2)
        }
    } else if k == "code"@ || k == "code_span"@ {
        (spec_code_html(n), st)
    } else if k == "fenced_code_block"@ {
        (spec_fenced_html(n), st)
    } else if k == "block_quote"@ {
        let (inner, st2) = render_children(n.children@, 0, src, lists, cfg, st);
        (
            "<blockquote class=\"border-l-4 border-gruvbox-gray pl-4 my-4 italic\">"@ + inner
                + "</blockquote>"@,
            st2,
        )
    } else {
        if spec_is_list_kind(k) {
            (Seq::empty(), st)
        } else if n.text is Some {
            (n.text->0@, st)
        } else {
            render_children(n.children@, 0, src, lists, cfg, st)
        }
    }
}

/// Rendering of the nodes of `s` from index `i` on, in order.
pub open spec fn render_children(
    s: Seq<MdNode>,
    i: int,
    src: Seq<char>,
    lists: Seq<(int, Seq<Seq<char>>)>,
    cfg: SocialLinks,
    st: RState,
) -> (Seq<char>, RState)
    decreases s, s.len() - i,
{
    if i < 0 || i >= s.len() {
        (Seq::empty(), st)
    } else {
        let (h, st1) = render_node(s[i], src, lists, cfg, st);
        let (h2, st2) = render_children(s, i + 1, src, lists, cfg, st1);
        (h + h2, st2)
    }
}

/// Document children: `link_reference_definition` nodes are skipped and
/// never appear in output.
pub open spec fn render_doc_children(
    s: Seq<MdNode>,
    i: int,
    src: Seq<char>,
    lists: Seq<(int, Seq<Seq<char>>)>,
    cfg: SocialLinks,
    st: RState,
) -> (Seq<char>, RState)
    decreases s, s.len() - i,
{
    if i < 0 || i >= s.len() {
        (Seq::empty(), st)
    } else if s[i].kind@ == "link_reference_definition"@ {
        render_doc_children(s, i + 1, src, lists, cfg, st)
    } else {
        let (h, st1) = render_node(s[i], src, lists, cfg, st);
        let (h2, st2) = render_doc_children(s, i + 1, src, lists, cfg, st1);
        (h + h2, st2)
    }
}

/// Emphasis children: delimiter marker nodes are skipped.
pub open spec fn render_emph_children(
    s: Seq<MdNode>,
    i: int,
    src: Seq<char>,
    lists: Seq<(int, Seq<Seq<char>>)>,
    cfg: SocialLinks,
    st: RState,
) -> (Seq<char>, RState)
    decreases s, s.len() - i,
{
    if i < 0 || i >= s.len() {
        (Seq::empty(), st)
    } else if s[i].kind@ == "emphasis_delimiter"@ {
        render_emph_children(s, i + 1, src, lists, cfg, st)
    } else {
        let (h, st1) = render_node(s[i], src, lists, cfg, st);
        let (h2, st2) = render_emph_children(s, i + 1, src, lists, cfg, st1);
        (h + h2, st2)
    }
}

/// Heading children: the children of every `heading_content` child are
/// rendered in order; all other children contribute nothing.
pub open spec fn render_heading_contents(
    s: Seq<MdNode>,
    i: int,
    src: Seq<char>,
    lists: Seq<(int, Seq<Seq<char>>)>,
    cfg: SocialLinks,
    st: RState,
) -> (Seq<char>, RState)
    decreases s, s.len() - i,
{
    if i < 0 || i >= s.len() {
        (Seq::empty(), st)
    } else if s[i].kind@ == "heading_content"@ {
        let (h, st1) = render_children(s[i].children@, 0, src, lists, cfg, st);
        let (h2, st2) = render_heading_contents(s, i + 1, src, lists, cfg, st1);
        (h + h2, st2)
    } else {
        render_heading_contents(s, i + 1, src, lists, cfg, st)
    }
}

fn para_text(n: &MdNode) -> (r: String)
    ensures
        r@ == spec_para_text(*n),
{
    match &n.text {
        Some(t) => t.clone(),
        None => {
            let m = n.children.len();
            let mut out = String::new();
            let mut i: usize = 0;
            while i < m
                invariant
                    i <= m,
                    m == n.children.len(),
                    out@ + concat_texts_from(n.children@, i as int) == concat_child_texts(
                        n.children@,
                    ),
                decreases m - i,
            {
                let ghost pre = out@;
                match &n.children[i].text {
                    Some(t) => {
                        out.append(t.as_str());
                    },
                    None => {},
                }
                proof {
                    assert(out@ + concat_texts_from(n.children@, i + 1) =~= pre
                        + concat_texts_from(n.children@, i as int));
                }
                i += 1;
            }
            proof {
                assert(out@ + Seq::<char>::empty() =~= out@);
            }
            out
        },
    }
}

/// Render one node into `html`, threading the per-render state through
/// the recursive walk.
pub fn convert_node_to_html(
    node: &MdNode,
    source: &str,
    html: &mut String,
    link_references: &LinkTable,
    lists: &ListTable,
    cfg: &SocialLinks,
    state: &mut RState,
)
    ensures
        final(html)@ == old(html)@ + render_node(*node, source@, lists@, *cfg, *old(state)).0,
        *final(state) == render_node(*node, source@, lists@, *cfg, *old(state)).1,
    decreases *node,
{
    let ghost st0 = *state;
    let ghost html0 = html@;
    let k = node.kind.as_str();
    if str_eq(k, "document") {
        convert_doc_children(&node.children, source, html, link_references, lists, cfg, state);
    } else if str_eq(k, "list") {
        let piece = list_html(node, lists);
        html.append(piece.as_str());
    } else if str_eq(k, "atx_heading") {
        let level = match find_first_atx_marker_text(&node.children) {
            Some(t) => t.as_str().unicode_len(),
            None => 1,
        };
        if level == 1 && state.first_heading {
            state.first_heading = false;
            proof {
                reveal_strlit("");
            }
            let heading = match find_first_kind_text(&node.children, "heading_content") {
                Some(t) => t.as_str(),
                None => "",
            };
            let piece = bio_header(heading, cfg);
            html.append(piece.as_str());
        } else {
            let digits = usize_to_string(level);
            html.append("<h");
            html.append(digits.as_str());
            html.append(" class=\"text-");
            html.append(size_class(level));
            html.append(" text-gruvbox-yellow font-normal mt-8 mb-6 relative\">");
            proof {
                assert(html@ =~= html0 + spec_heading_open(level as nat));
            }
            let ghost html1 = html@;
            convert_heading_contents(
                &node.children,
                source,
                html,
                link_references,
                lists,
                cfg,
                state,
            );
            html.append("</h");
            html.append(digits.as_str());
            html.append(">\n");
            proof {
                let inner = render_heading_contents(
                    node.children@,
                    0,
                    source@,
                    lists@,
                    *cfg,
                    st0,
                ).0;
                assert(html@ =~= html0 + (spec_heading_open(level as nat) + inner
                    + spec_heading_close(level as nat)));
            }
        }
    } else if str_eq(k, "paragraph") {
        if state.in_list {
        } else if state.first_paragraph && !state.first_heading {
            state.first_paragraph = false;
            let text = para_text(node);
            html.append("<p class=\"cursor\">");
            html.append(text.as_str());
            html.append("</p>\n");
            html.append("<hr class=\"border-t border-gruvbox-gray my-8\">\n");
            proof {
                assert(html@ =~= html0 + render_node(*node, source@, lists@, *cfg, st0).0);
            }
        } else {
            html.append("<p class=\"my-4\">");
            convert_children(&node.children, source, html, link_references, lists, cfg, state);
            html.append("</p>\n");
            proof {
                let inner = render_children(node.children@, 0, source@, lists@, *cfg, st0).0;
                assert(html@ =~= html0 + ("<p class=\"my-4\">"@ + inner + "</p>\n"@));
            }
        }
    } else if str_eq(k, "link") {
        let piece = link_html(node);
        html.append(piece.as_str());
    } else if str_eq(k, "image") {
        let piece = image_html(node, source);
        html.append(piece.as_str());
    } else if str_eq(k, "strong_emphasis") || str_eq(k, "emphasis") {
        let strong = str_eq(k, "strong_emphasis");
        if strong {
            html.append("<strong class=\"font-bold\">");
        } else {
            html.append("<em class=\"italic\">");
        }
        convert_emph_children(&node.children, source, html, link_references, lists, cfg, state);
        if strong {
            html.append("</strong>");
        } else {
            html.append("</em>");
        }
        proof {
            let inner = render_emph_children(node.children@, 0, source@, lists@, *cfg, st0).0;
            if strong {
                assert(html@ =~= html0 + ("<strong class=\"font-bold\">"@ + inner
                    + "</strong>"@));
            } else {
                assert(html@ =~= html0 + ("<em class=\"italic\">"@ + inner + "</em>"@));
            }
        }
    } else if str_eq(k, "code") || str_eq(k, "code_span") {
        let piece = code_html(node);
        html.append(piece.as_str());
    } else if str_eq(k, "fenced_code_block") {
        let piece = fenced_html(node);
        html.append(piece.as_str());
    } else if str_eq(k, "block_quote") {
        html.append("<blockquote class=\"border-l-4 border-gruvbox-gray pl-4 my-4 italic\">");
        convert_children(&node.children, source, html, link_references, lists, cfg, state);
        html.append("</blockquote>");
        proof {
            let inner = render_children(node.children@, 0, source@, lists@, *cfg, st0).0;
            assert(html@ =~= html0
                + ("<blockquote class=\"border-l-4 border-gruvbox-gray pl-4 my-4 italic\">"@
                + inner + "</blockquote>"@));
        }
    } else {
        if is_list_node(node) {
        } else {
            match &node.text {
                Some(t) => {
                    html.append(t.as_str());
                },
                None => {
                    convert_children(
                        &node.children,
                        source,
                        html,
                        link_references,
                        lists,
                        cfg,
                        state,
                    );
                },
            }
        }
    }
}

fn convert_children(
    children: &Vec<MdNode>,
    source: &str,
    html: &mut String,
    link_references: &LinkTable,
    lists: &ListTable,
    cfg: &SocialLinks,
    state: &mut RState,
)
    ensures
        final(html)@ == old(html)@ + render_children(
            children@,
            0,
            source@,
            lists@,
            *cfg,
            *old(state),
        ).0,
        *final(state) == render_children(children@, 0, source@, lists@, *cfg, *old(state)).1,
    decreases *children,
{
    let n = children.len();
    let mut i: usize = 0;
    while i < n
        invariant
            i <= n,
            n == children.len(),
            html@ + render_children(children@, i as int, source@, lists@, *cfg, *state).0 == old(
                html,
            )@ + render_children(children@, 0, source@, lists@, *cfg, *old(state)).0,
            render_children(children@, i as int, source@, lists@, *cfg, *state).1
                == render_children(children@, 0, source@, lists@, *cfg, *old(state)).1,
        decreases n - i,
    {
        let ghost pre_html = html@;
        let ghost pre_st = *state;
        convert_node_to_html(&children[i], source, html, link_references, lists, cfg, state);
        proof {
            let step = render_node(children@[i as int], source@, lists@, *cfg, pre_st);
            let rest = render_children(children@, i + 1, source@, lists@, *cfg, step.1);
            assert(html@ + rest.0 =~= pre_html + (step.0 + rest.0));
        }
        i += 1;
    }
    proof {
        assert(html@ + Seq::<char>::empty() =~= html@);
    }
}

fn convert_doc_children(
    children: &Vec<MdNode>,
    source: &str,
    html: &mut String,
    link_references: &LinkTable,
    lists: &ListTable,
    cfg: &SocialLinks,
    state: &mut RState,
)
    ensures
        final(html)@ == old(html)@ + render_doc_children(
            children@,
            0,
            source@,
            lists@,
            *cfg,
            *old(state),
        ).0,
        *final(state) == render_doc_children(children@, 0, source@, lists@, *cfg, *old(state)).1,
    decreases *children,
{
    let n = children.len();
    let mut i: usize = 0;
    while i < n
        invariant
            i <= n,
            n == children.len(),
            html@ + render_doc_children(children@, i as int, source@, lists@, *cfg, *state).0
                == old(html)@ + render_doc_children(
                children@,
                0,
                source@,
                lists@,
                *cfg,
                *old(state),
            ).0,
            render_doc_children(children@, i as int, source@, lists@, *cfg, *state).1
                == render_doc_children(children@, 0, source@, lists@, *cfg, *old(state)).1,
        decreases n - i,
    {
        let ghost pre_html = html@;
        let ghost pre_st = *state;
        if str_eq(children[i].kind.as_str(), "link_reference_definition") {
        } else {
            convert_node_to_html(&children[i], source, html, link_references, lists, cfg, state);
            proof {
                let step = render_node(children@[i as int], source@, lists@, *cfg, pre_st);
                let rest = render_doc_children(children@, i + 1, source@, lists@, *cfg, step.1);
                assert(html@ + rest.0 =~= pre_html + (step.0 + rest.0));
            }
        }
        i += 1;
    }
    proof {
        assert(html@ + Seq::<char>::empty() =~= html@);
    }
}

fn convert_emph_children(
    children: &Vec<MdNode>,
    source: &str,
    html: &mut String,
    link_references: &LinkTable,
    lists: &ListTable,
    cfg: &SocialLinks,
    state: &mut RState,
)
    ensures
        final(html)@ == old(html)@ + render_emph_children(
            children@,
            0,
            source@,
            lists@,
            *cfg,
            *old(state),
        ).0,
        *final(state) == render_emph_children(children@, 0, source@, lists@, *cfg, *old(state)).1,
    decreases *children,
{
    let n = children.len();
    let mut i: usize = 0;
    while i < n
        invariant
            i <= n,
            n == children.len(),
            html@ + render_emph_children(children@, i as int, source@, lists@, *cfg, *state).0
                == old(html)@ + render_emph_children(
                children@,
                0,
                source@,
                lists@,
                *cfg,
                *old(state),
            ).0,
            render_emph_children(children@, i as int, source@, lists@, *cfg, *state).1
                == render_emph_children(children@, 0, source@, lists@, *cfg, *old(state)).1,
        decreases n - i,
    {
        let ghost pre_html = html@;
        let ghost pre_st = *state;
        if str_eq(children[i].kind.as_str(), "emphasis_delimiter") {
        } else {
            convert_node_to_html(&children[i], source, html, link_references, lists, cfg, state);
            proof {
                let step = render_node(children@[i as int], source@, lists@, *cfg, pre_st);
                let rest = render_emph_children(children@, i + 1, source@, lists@, *cfg, step.1);
                assert(html@ + rest.0 =~= pre_html + (step.0 + rest.0));
            }
        }
        i += 1;
    }
    proof {
        assert(html@ + Seq::<char>::empty() =~= html@);
    }
}

fn convert_heading_contents(
    children: &Vec<MdNode>,
    source: &str,
    html: &mut String,
    link_references: &LinkTable,
    lists: &ListTable,
    cfg: &SocialLinks,
    state: &mut RState,
)
    ensures
        final(html)@ == old(html)@ + render_heading_contents(
            children@,
            0,
            source@,
            lists@,
            *cfg,
            *old(state),
        ).0,
        *final(state) == render_heading_contents(
            children@,
            0,
            source@,
            lists@,
            *cfg,
            *old(state),
        ).1,
    decreases *children,
{
    let n = children.len();
    let mut i: usize = 0;
    while i < n
        invariant
            i <= n,
            n == children.len(),
            html@ + render_heading_contents(children@, i as int, source@, lists@, *cfg, *state).0
                == old(html)@ + render_heading_contents(
                children@,
                0,
                source@,
                lists@,
                *cfg,
                *old(state),
            ).0,
            render_heading_contents(children@, i as int, source@, lists@, *cfg, *state).1
                == render_heading_contents(children@, 0, source@, lists@, *cfg, *old(state)).1,
        decreases n - i,
    {
        let ghost pre_html = html@;
        let ghost pre_st = *state;
        if str_eq(children[i].kind.as_str(), "heading_content") {
            convert_children(
                &children[i].children,
                source,
                html,
                link_references,
                lists,
                cfg,
                state,
            );
            proof {
                let step = render_children(
                    children@[i as int].children@,
                    0,
                    source@,
                    lists@,
                    *cfg,
                    pre_st,
                );
                let rest = render_heading_contents(
                    children@,
                    i + 1,
                    source@,
                    lists@,
                    *cfg,
                    step.1,
                );
                assert(html@ + rest.0 =~= pre_html + (step.0 + rest.0));
            }
        }
        i += 1;
    }
    proof {
        assert(html@ + Seq::<char>::empty() =~= html@);
    }
}

/// Law: rendering never turns the one-time flags back on and never
/// changes the list context: once the bio header or the bio paragraph
/// has been emitted, its flag stays off for the rest of the render.
pub proof fn lemma_state_monotonic(
    n: MdNode,
    src: Seq<char>,
    lists: Seq<(int, Seq<Seq<char>>)>,
    cfg: SocialLinks,
    st: RState,
)
    ensures
        ({
            let st2 = render_node(n, src, lists, cfg, st).1;
            &&& (!st.first_heading ==> !st2.first_heading)
            &&& (!st.first_paragraph ==> !st2.first_paragraph)
            &&& st2.in_list == st.in_list
        }),
    decreases n, 0int,
{
    let k = n.kind@;
    if k == "document"@ {
        lemma_state_monotonic_doc(n.children@, 0, src, lists, cfg, st);
    } else if k == "list"@ {
    } else if k == "atx_heading"@ {
        if spec_heading_level(n) == 1 && st.first_heading {
        } else {
            lemma_state_monotonic_heading(n.children@, 0, src, lists, cfg, st);
        }
    } else if k == "paragraph"@ {
        if st.in_list {
        } else if st.first_paragraph && !st.first_heading {
        } else {
            lemma_state_monotonic_children(n.children@, 0, src, lists, cfg, st);
        }
    } else if k == "link"@ || k == "image"@ {
    } else if k == "strong_emphasis"@ || k == "emphasis"@ {
        lemma_state_monotonic_emph(n.children@, 0, src, lists, cfg, st);
    } else if k == "code"@ || k == "code_span"@ || k == "fenced_code_block"@ {
    } else if k == "block_quote"@ {
        lemma_state_monotonic_children(n.children@, 0, src, lists, cfg, st);
    } else {
        if spec_is_list_kind(k) {
        } else if n.text is Some {
        } else {
            lemma_state_monotonic_children(n.children@, 0, src, lists, cfg, st);
        }
    }
}

proof fn lemma_state_monotonic_children(
    s: Seq<MdNode>,
    i: int,
    src: Seq<char>,
    lists: Seq<(int, Seq<Seq<char>>)>,
    cfg: SocialLinks,
    st: RState,
)
    ensures
        ({
            let st2 = render_children(s, i, src, lists, cfg, st).1;
            &&& (!st.first_heading ==> !st2.first_heading)
            &&& (!st.first_paragraph ==> !st2.first_paragraph)
            &&& st2.in_list == st.in_list
        }),
    decreases s, s.len() - i,
{
    if 0 <= i < s.len() {
        lemma_state_monotonic(s[i], src, lists, cfg, st);
        let st1 = render_node(s[i], src, lists, cfg, st).1;
        lemma_state_monotonic_children(s, i + 1, src, lists, cfg, st1);
    }
}

proof fn lemma_state_monotonic_doc(
    s: Seq<MdNode>,
    i: int,
    src: Seq<char>,
    lists: Seq<(int, Seq<Seq<char>>)>,
    cfg: SocialLinks,
    st: RState,
)
    ensures
        ({
            let st2 = render_doc_children(s, i, src, lists, cfg, st).1;
            &&& (!st.first_heading ==> !st2.first_heading)
            &&& (!st.first_paragraph ==> !st2.first_paragraph)
            &&& st2.in_list == st.in_list
        }),
    decreases s, s.len() - i,
{
    if 0 <= i < s.len() {
        if s[i].kind@ == "link_reference_definition"@ {
            lemma_state_monotonic_doc(s, i + 1, src, lists, cfg, st);
        } else {
            lemma_state_monotonic(s[i], src, lists, cfg, st);
            let st1 = render_node(s[i], src, lists, cfg, st).1;
            lemma_state_monotonic_doc(s, i + 1, src, lists, cfg, st1);
        }
    }
}

proof fn lemma_state_monotonic_emph(
    s: Seq<MdNode>,
    i: int,
    src: Seq<char>,
    lists: Seq<(int, Seq<Seq<char>>)>,
    cfg: SocialLinks,
    st: RState,
)
    ensures
        ({
            let st2 = render_emph_children(s, i, src, lists, cfg, st).1;
            &&& (!st.first_heading ==> !st2.first_heading)
            &&& (!st.first_paragraph ==> !st2.first_paragraph)
            &&& st2.in_list == st.in_list
        }),
    decreases s, s.len() - i,
{
    if 0 <= i < s.len() {
        if s[i].kind@ == "emphasis_delimiter"@ {
            lemma_state_monotonic_emph(s, i + 1, src, lists, cfg, st);
        } else {
            lemma_state_monotonic(s[i], src, lists, cfg, st);
            let st1 = render_node(s[i], src, lists, cfg, st).1;
            lemma_state_monotonic_emph(s, i + 1, src, lists, cfg, st1);
        }
    }
}

proof fn lemma_state_monotonic_heading(
    s: Seq<MdNode>,
    i: int,
    src: Seq<char>,
    lists: Seq<(int, Seq<Seq<char>>)>,
    cfg: SocialLinks,
    st: RState,
)
    ensures
        ({
            let st2 = render_heading_contents(s, i, src, lists, cfg, st).1;
            &&& (!st.first_heading ==> !st2.first_heading)
            &&& (!st.first_paragraph ==> !st2.first_paragraph)
            &&& st2.in_list == st.in_list
        }),
    decreases s, s.len() - i,
{
    if 0 <= i < s.len() {
        if s[i].kind@ == "heading_content"@ {
            lemma_state_monotonic_children(s[i].children@, 0, src, lists, cfg, st);
            let st1 = render_children(s[i].children@, 0, src, lists, cfg, st).1;
            lemma_state_monotonic_heading(s, i + 1, src, lists, cfg, st1);
        } else {
            lemma_state_monotonic_heading(s, i + 1, src, lists, cfg, st);
        }
    }
}

/// How many times rendering `n` emits the one-time blocks: the first
/// component counts bio headers, the second bio paragraphs. The counts
/// are incremented exactly where `render_node` takes the corresponding
/// branch, threading the same state.
pub open spec fn spec_bio_counts(
    n: MdNode,
    src: Seq<char>,
    lists: Seq<(int, Seq<Seq<char>>)>,
    cfg: SocialLinks,
    st: RState,
) -> (int, int)
    decreases n, 0int,
{
    let k = n.kind@;
    if k == "document"@ {
        spec_bio_counts_doc(n.children@, 0, src, lists, cfg, st)
    } else if k == "list"@ {
        (0, 0)
    } else if k == "atx_heading"@ {
        if spec_heading_level(n) == 1 && st.first_heading {
            (1, 0)
        } else {
            spec_bio_counts_heading(n.children@, 0, src, lists, cfg, st)
        }
    } else if k == "paragraph"@ {
        if st.in_list {
            (0, 0)
        } else if st.first_paragraph && !st.first_heading {
            (0, 1)
        } else {
            spec_bio_counts_children(n.children@, 0, src, lists, cfg, st)
        }
    } else if k == "link"@ || k == "image"@ {
        (0, 0)
    } else if k == "strong_emphasis"@ || k == "emphasis"@ {
        spec_bio_counts_emph(n.children@, 0, src, lists, cfg, st)
    } else if k == "code"@ || k == "code_span"@ || k == "fenced_code_block"@ {
        (0, 0)
    } else if k == "block_quote"@ {
        spec_bio_counts_children(n.children@, 0, src, lists, cfg, st)
    } else {
        if spec_is_list_kind(k) {
            (0, 0)
        } else if n.text is Some {
            (0, 0)
        } else {
            spec_bio_counts_children(n.children@, 0, src, lists, cfg, st)
        }
    }
}

/// The blocks emitted by the nodes of `s` from index `i` on.
pub open spec fn spec_bio_counts_children(
    s: Seq<MdNode>,
    i: int,
    src: Seq<char>,
    lists: Seq<(int, Seq<Seq<char>>)>,
    cfg: SocialLinks,
    st: RState,
) -> (int, int)
    decreases s, s.len() - i,
{
    if i < 0 || i >= s.len() {
        (0, 0)
    } else {
        let a = spec_bio_counts(s[i], src, lists, cfg, st);
        let st1 = render_node(s[i], src, lists, cfg, st).1;
        let b = spec_bio_counts_children(s, i + 1, src, lists, cfg, st1);
        (a.0 + b.0, a.1 + b.1)
    }
}

/// As above for document children, skipping definitions.
pub open spec fn spec_bio_counts_doc(
    s: Seq<MdNode>,
    i: int,
    src: Seq<char>,
    lists: Seq<(int, Seq<Seq<char>>)>,
    cfg: SocialLinks,
    st: RState,
) -> (int, int)
    decreases s, s.len() - i,
{
    if i < 0 || i >= s.len() {
        (0, 0)
    } else if s[i].kind@ == "link_reference_definition"@ {
        spec_bio_counts_doc(s, i + 1, src, lists, cfg, st)
    } else {
        let a = spec_bio_counts(s[i], src, lists, cfg, st);
        let st1 = render_node(s[i], src, lists, cfg, st).1;
        let b = spec_bio_counts_doc(s, i + 1, src, lists, cfg, st1);
        (a.0 + b.0, a.1 + b.1)
    }
}

/// As above for emphasis children, skipping delimiters.
pub open spec fn spec_bio_counts_emph(
    s: Seq<MdNode>,
    i: int,
    src: Seq<char>,
    lists: Seq<(int, Seq<Seq<char>>)>,
    cfg: SocialLinks,
    st: RState,
) -> (int, int)
    decreases s, s.len() - i,
{
    if i < 0 || i >= s.len() {
        (0, 0)
    } else if s[i].kind@ == "emphasis_delimiter"@ {
        spec_bio_counts_emph(s, i + 1, src, lists, cfg, st)
    } else {
        let a = spec_bio_counts(s[i], src, lists, cfg, st);
        let st1 = render_node(s[i], src, lists, cfg, st).1;
        let b = spec_bio_counts_emph(s, i + 1, src, lists, cfg, st1);
        (a.0 + b.0, a.1 + b.1)
    }
}

/// As above for heading children: the children of each
/// `heading_content` child are counted.
pub open spec fn spec_bio_counts_heading(
    s: Seq<MdNode>,
    i: int,
    src: Seq<char>,
    lists: Seq<(int, Seq<Seq<char>>)>,
    cfg: SocialLinks,
    st: RState,
) -> (int, int)
    decreases s, s.len() - i,
{
    if i < 0 || i >= s.len() {
        (0, 0)
    } else if s[i].kind@ == "heading_content"@ {
        let a = spec_bio_counts_children(s[i].children@, 0, src, lists, cfg, st);
        let st1 = render_children(s[i].children@, 0, src, lists, cfg, st).1;
        let b = spec_bio_counts_heading(s, i + 1, src, lists, cfg, st1);
        (a.0 + b.0, a.1 + b.1)
    } else {
        spec_bio_counts_heading(s, i + 1, src, lists, cfg, st)
    }
}

/// Law: each one-time block is emitted at most once per render. An
/// emission consumes its flag, so the number of bio headers emitted
/// plus the still-armed flag never exceeds the flag's initial arming,
/// and likewise for the bio paragraph; from the initial state both
/// counts are therefore bounded by one.
pub proof fn lemma_bio_blocks_at_most_once(
    n: MdNode,
    src: Seq<char>,
    lists: Seq<(int, Seq<Seq<char>>)>,
    cfg: SocialLinks,
    st: RState,
)
    ensures
        ({
            let c = spec_bio_counts(n, src, lists, cfg, st);
            let st2 = render_node(n, src, lists, cfg, st).1;
            &&& c.0 >= 0
            &&& c.1 >= 0
            &&& c.0 + (if st2.first_heading { 1int } else { 0int }) <= (if st.first_heading { 1int } else { 0int })
            &&& c.1 + (if st2.first_paragraph { 1int } else { 0int }) <= (if st.first_paragraph { 1int } else { 0int })
        }),
    decreases n, 0int,
{
    let k = n.kind@;
    if k == "document"@ {
        lemma_bio_counts_doc(n.children@, 0, src, lists, cfg, st);
    } else if k == "list"@ {
    } else if k == "atx_heading"@ {
        if spec_heading_level(n) == 1 && st.first_heading {
        } else {
            lemma_bio_counts_heading(n.children@, 0, src, lists, cfg, st);
        }
    } else if k == "paragraph"@ {
        if st.in_list {
        } else if st.first_paragraph && !st.first_heading {
        } else {
            lemma_bio_counts_children(n.children@, 0, src, lists, cfg, st);
        }
    } else if k == "link"@ || k == "image"@ {
    } else if k == "strong_emphasis"@ || k == "emphasis"@ {
        lemma_bio_counts_emph(n.children@, 0, src, lists, cfg, st);
    } else if k == "code"@ || k == "code_span"@ || k == "fenced_code_block"@ {
    } else if k == "block_quote"@ {
        lemma_bio_counts_children(n.children@, 0, src, lists, cfg, st);
    } else {
        if spec_is_list_kind(k) {
        } else if n.text is Some {
        } else {
            lemma_bio_counts_children(n.children@, 0, src, lists, cfg, st);
        }
    }
}

proof fn lemma_bio_counts_children(
    s: Seq<MdNode>,
    i: int,
    src: Seq<char>,
    lists: Seq<(int, Seq<Seq<char>>)>,
    cfg: SocialLinks,
    st: RState,
)
    ensures
        ({
            let c = spec_bio_counts_children(s, i, src, lists, cfg, st);
            let st2 = render_children(s, i, src, lists, cfg, st).1;
            &&& c.0 >= 0
            &&& c.1 >= 0
            &&& c.0 + (if st2.first_heading { 1int } else { 0int }) <= (if st.first_heading { 1int } else { 0int })
            &&& c.1 + (if st2.first_paragraph { 1int } else { 0int }) <= (if st.first_paragraph { 1int } else { 0int })
        }),
    decreases s, s.len() - i,
{
    if 0 <= i < s.len() {
        lemma_bio_blocks_at_most_once(s[i], src, lists, cfg, st);
        let st1 = render_node(s[i], src, lists, cfg, st).1;
        lemma_bio_counts_children(s, i + 1, src, lists, cfg, st1);
    }
}

proof fn lemma_bio_counts_doc(
    s: Seq<MdNode>,
    i: int,
    src: Seq<char>,
    lists: Seq<(int, Seq<Seq<char>>)>,
    cfg: SocialLinks,
    st: RState,
)
    ensures
        ({
            let c = spec_bio_counts_doc(s, i, src, lists, cfg, st);
            let st2 = render_doc_children(s, i, src, lists, cfg, st).1;
            &&& c.0 >= 0
            &&& c.1 >= 0
            &&& c.0 + (if st2.first_heading { 1int } else { 0int }) <= (if st.first_heading { 1int } else { 0int })
            &&& c.1 + (if st2.first_paragraph { 1int } else { 0int }) <= (if st.first_paragraph { 1int } else { 0int })
        }),
    decreases s, s.len() - i,
{
    if 0 <= i < s.len() {
        if s[i].kind@ == "link_reference_definition"@ {
            lemma_bio_counts_doc(s, i + 1, src, lists, cfg, st);
        } else {
            lemma_bio_blocks_at_most_once(s[i], src, lists, cfg, st);
            let st1 = render_node(s[i], src, lists, cfg, st).1;
            lemma_bio_counts_doc(s, i + 1, src, lists, cfg, st1);
        }
    }
}

proof fn lemma_bio_counts_emph(
    s: Seq<MdNode>,
    i: int,
    src: Seq<char>,
    lists: Seq<(int, Seq<Seq<char>>)>,
    cfg: SocialLinks,
    st: RState,
)
    ensures
        ({
            let c = spec_bio_counts_emph(s, i, src, lists, cfg, st);
            let st2 = render_emph_children(s, i, src, lists, cfg, st).1;
            &&& c.0 >= 0
            &&& c.1 >= 0
            &&& c.0 + (if st2.first_heading { 1int } else { 0int }) <= (if st.first_heading { 1int } else { 0int })
            &&& c.1 + (if st2.first_paragraph { 1int } else { 0int }) <= (if st.first_paragraph { 1int } else { 0int })
        }),
    decreases s, s.len() - i,
{
    if 0 <= i < s.len() {
        if s[i].kind@ == "emphasis_delimiter"@ {
            lemma_bio_counts_emph(s, i + 1, src, lists, cfg, st);
        } else {
            lemma_bio_blocks_at_most_once(s[i], src, lists, cfg, st);
            let st1 = render_node(s[i], src, lists, cfg, st).1;
            lemma_bio_counts_emph(s, i + 1, src, lists, cfg, st1);
        }
    }
}

proof fn lemma_bio_counts_heading(
    s: Seq<MdNode>,
    i: int,
    src: Seq<char>,
    lists: Seq<(int, Seq<Seq<char>>)>,
    cfg: SocialLinks,
    st: RState,
)
    ensures
        ({
            let c = spec_bio_counts_heading(s, i, src, lists, cfg, st);
            let st2 = render_heading_contents(s, i, src, lists, cfg, st).1;
            &&& c.0 >= 0
            &&& c.1 >= 0
            &&& c.0 + (if st2.first_heading { 1int } else { 0int }) <= (if st.first_heading { 1int } else { 0int })
            &&& c.1 + (if st2.first_paragraph { 1int } else { 0int }) <= (if st.first_paragraph { 1int } else { 0int })
        }),
    decreases s, s.len() - i,
{
    if 0 <= i < s.len() {
        if s[i].kind@ == "heading_content"@ {
            lemma_bio_counts_children(s[i].children@, 0, src, lists, cfg, st);
            let st1 = render_children(s[i].children@, 0, src, lists, cfg, st).1;
            lemma_bio_counts_heading(s, i + 1, src, lists, cfg, st1);
        } else {
            lemma_bio_counts_heading(s, i + 1, src, lists, cfg, st);
        }
    }
}

/// Law: while the first-heading flag is set, a level-1 heading renders
/// as the bio header and clears the flag; with the monotonicity law
/// this makes the bio header appear at most once per render.
pub proof fn lemma_first_h1_is_bio(
    n: MdNode,
    src: Seq<char>,
    lists: Seq<(int, Seq<Seq<char>>)>,
    cfg: SocialLinks,
    st: RState,
)
    requires
        n.kind@ == "atx_heading"@,
        spec_heading_level(n) == 1,
        st.first_heading,
    ensures
        render_node(n, src, lists, cfg, st).0 == spec_bio_header(spec_heading_text(n), cfg),
        render_node(n, src, lists, cfg, st).1 == (RState { first_heading: false, ..st }),
{
    reveal_strlit("document");
    reveal_strlit("list");
    reveal_strlit("atx_heading");
    assert("document"@.len() == 8);
    assert("list"@.len() == 4);
    assert("atx_heading"@.len() == 11);
}

/// Law: once the first-heading flag is clear, every level-1 heading
/// renders as an ordinary `<h1>` element, never as the bio header.
pub proof fn lemma_later_h1_is_normal(
    n: MdNode,
    src: Seq<char>,
    lists: Seq<(int, Seq<Seq<char>>)>,
    cfg: SocialLinks,
    st: RState,
)
    requires
        n.kind@ == "atx_heading"@,
        !st.first_heading,
    ensures
        render_node(n, src, lists, cfg, st).0 == spec_heading_open(spec_heading_level(n))
            + render_heading_contents(n.children@, 0, src, lists, cfg, st).0
            + spec_heading_close(spec_heading_level(n)),
        render_node(n, src, lists, cfg, st).1.first_heading == st.first_heading,
        render_node(n, src, lists, cfg, st).1.in_list == st.in_list,
        !st.first_paragraph ==> render_node(n, src, lists, cfg, st).1 == st,
{
    reveal_strlit("document");
    reveal_strlit("list");
    reveal_strlit("atx_heading");
    assert("document"@.len() == 8);
    assert("list"@.len() == 4);
    assert("atx_heading"@.len() == 11);
    lemma_state_monotonic_heading(n.children@, 0, src, lists, cfg, st);
    if !st.first_paragraph {
        assert(render_node(n, src, lists, cfg, st).1 =~= st);
    }
}

/// Law: while the first-paragraph flag is set and the first heading has
/// been consumed, a paragraph outside any list renders as the bio
/// paragraph and clears the flag.
pub proof fn lemma_first_paragraph_is_bio(
    n: MdNode,
    src: Seq<char>,
    lists: Seq<(int, Seq<Seq<char>>)>,
    cfg: SocialLinks,
    st: RState,
)
    requires
        n.kind@ == "paragraph"@,
        !st.in_list,
        st.first_paragraph,
        !st.first_heading,
    ensures
        render_node(n, src, lists, cfg, st).0 == "<p class=\"cursor\">"@ + spec_para_text(n)
            + "</p>\n"@ + "<hr class=\"border-t border-gruvbox-gray my-8\">\n"@,
        render_node(n, src, lists, cfg, st).1 == (RState { first_paragraph: false, ..st }),
{
    reveal_strlit("document");
    reveal_strlit("list");
    reveal_strlit("atx_heading");
    reveal_strlit("paragraph");
    assert("document"@.len() == 8);
    assert("list"@.len() == 4);
    assert("atx_heading"@.len() == 11);
    assert("paragraph"@.len() == 9);
}

/// Law: once the first-paragraph flag is clear, every paragraph outside
/// a list renders in the ordinary `<p class="my-4">` form.
pub proof fn lemma_later_paragraph_is_normal(
    n: MdNode,
    src: Seq<char>,
    lists: Seq<(int, Seq<Seq<char>>)>,
    cfg: SocialLinks,
    st: RState,
)
    requires
        n.kind@ == "paragraph"@,
        !st.in_list,
        !st.first_paragraph,
    ensures
        render_node(n, src, lists, cfg, st).0 == "<p class=\"my-4\">"@ + render_children(
            n.children@,
            0,
            src,
            lists,
            cfg,
            st,
        ).0 + "</p>\n"@,
        render_node(n, src, lists, cfg, st).1.first_paragraph == st.first_paragraph,
        render_node(n, src, lists, cfg, st).1.in_list == st.in_list,
        !st.first_heading ==> render_node(n, src, lists, cfg, st).1 == st,
{
    reveal_strlit("document");
    reveal_strlit("list");
    reveal_strlit("atx_heading");
    reveal_strlit("paragraph");
    assert("document"@.len() == 8);
    assert("list"@.len() == 4);
    assert("atx_heading"@.len() == 11);
    assert("paragraph"@.len() == 9);
    lemma_state_monotonic_children(n.children@, 0, src, lists, cfg, st);
    if !st.first_heading {
        assert(render_node(n, src, lists, cfg, st).1 =~= st);
    }
}

/// The HTML of a whole document tree, rendered from the initial state.
pub open spec fn spec_markdown_to_html(
    n: MdNode,
    src: Seq<char>,
    lists: Seq<(int, Seq<Seq<char>>)>,
    cfg: SocialLinks,
) -> Seq<char> {
    render_node(n, src, lists, cfg, spec_initial_state()).0
}

/// Render a document tree to an HTML fragment with fresh per-render
/// state.
pub fn markdown_to_html(
    node: &MdNode,
    source: &str,
    link_references: &LinkTable,
    lists: &ListTable,
    cfg: &SocialLinks,
) -> (html: String)
    ensures
        html@ == spec_markdown_to_html(*node, source@, lists@, *cfg),
{
    let mut html = String::new();
    let mut state = RState::initial();
    convert_node_to_html(node, source, &mut html, link_references, lists, cfg, &mut state);
    proof {
        assert(html@ =~= spec_markdown_to_html(*node, source@, lists@, *cfg));
    }
    html
}

} // verus!
