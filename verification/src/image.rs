//! Image rendering: destination, alt text and title are parsed out of the
//! raw node text by bracket and quote positions, and an HTML comment
//! anywhere before the image's start carries `key="value"` attributes for
//! width, height, class, style and preset.

use vstd::prelude::*;
use crate::node::{MdNode, node_text_or_empty};
use crate::text::{
    spec_trim, spec_strip_both, spec_strip_prefix_repeat, spec_strip_suffix_repeat,
    first_index_of, last_index_of, first_match_index, last_match_before, match_at, trim,
    strip_both, strip_prefix_repeat, strip_suffix_repeat, substr, find_char_from,
    rfind_char_before, find_str_from, rfind_str_before, push_char, str_eq,
    lemma_first_index_of_is, lemma_first_match_index_is, lemma_last_match_before_is,
};

verus! {

/// The trimmed text between the first `open` and the first `close` after
/// it, or empty when either bracket is missing.
pub open spec fn spec_bracket_content(raw: Seq<char>, open_c: char, close_c: char) -> Seq<char> {
    let ps = first_index_of(raw, open_c);
    if ps < raw.len() {
        let rel = first_index_of(raw.subrange(ps, raw.len() as int), close_c);
        if rel < raw.len() - ps {
            if rel >= 1 {
                spec_trim(raw.subrange(ps + 1, ps + rel))
            } else {
                Seq::empty()
            }
        } else {
            Seq::empty()
        }
    } else {
        Seq::empty()
    }
}

fn bracket_content(raw: &str, open_c: char, close_c: char) -> (r: &str)
    ensures
        r@ == spec_bracket_content(raw@, open_c, close_c),
{
    proof {
        reveal_strlit("");
    }
    let n = raw.unicode_len();
    let ps = find_char_from(raw, open_c, 0);
    proof {
        lemma_first_index_of_is(raw@, open_c, ps as int);
    }
    if ps < n {
        let pe = find_char_from(raw, close_c, ps);
        proof {
            let sub = raw@.subrange(ps as int, n as int);
            assert forall|j: int| 0 <= j < pe - ps implies sub[j] != close_c by {
                assert(sub[j] == raw@[ps + j]);
            }
            if pe < n {
                assert(sub[pe - ps] == raw@[pe as int]);
            }
            lemma_first_index_of_is(sub, close_c, pe - ps);
        }
        if pe < n {
            if pe > ps {
                trim(substr(raw, ps + 1, pe))
            } else {
                ""
            }
        } else {
            proof {
                reveal_strlit("");
            }
            ""
        }
    } else {
        proof {
            reveal_strlit("");
        }
        ""
    }
}

/// The image title: the trimmed text between the last quotation mark and
/// the one before it, or empty when fewer than two quotes occur.
pub open spec fn spec_image_title(raw: Seq<char>) -> Seq<char> {
    let ts = last_index_of(raw, '"');
    if ts >= 0 {
        let te = last_index_of(raw.subrange(0, ts), '"');
        if te >= 0 {
            spec_trim(raw.subrange(te + 1, ts))
        } else {
            Seq::empty()
        }
    } else {
        Seq::empty()
    }
}

fn image_title(raw: &str) -> (r: &str)
    ensures
        r@ == spec_image_title(raw@),
{
    let n = raw.unicode_len();
    proof {
        assert(raw@.subrange(0, n as int) =~= raw@);
    }
    match rfind_char_before(raw, '"', n) {
        Some(ts) => {
            match rfind_char_before(raw, '"', ts) {
                Some(te) => trim(substr(raw, te + 1, ts)),
                None => {
                    proof {
                        reveal_strlit("");
                    }
                    ""
                },
            }
        },
        None => {
            proof {
                reveal_strlit("");
            }
            ""
        },
    }
}

/// State of the attribute tokenizer: the token being built, whether the
/// scan is inside quotes, and the tokens already produced.
#[verifier::ext_equal]
pub struct TokState {
    pub current: Seq<char>,
    pub in_quotes: bool,
    pub toks: Seq<Seq<char>>,
}

/// One character of the comment is consumed: quotes toggle quoting and
/// are kept, spaces outside quotes end the current token, everything
/// else extends it.
pub open spec fn spec_tok_step(c: char, st: TokState) -> TokState {
    if c == '"' {
        TokState { current: st.current.push('"'), in_quotes: !st.in_quotes, toks: st.toks }
    } else if c == ' ' && !st.in_quotes {
        if st.current.len() > 0 {
            TokState { current: Seq::empty(), in_quotes: st.in_quotes, toks: st.toks.push(st.current) }
        } else {
            st
        }
    } else {
        TokState { current: st.current.push(c), in_quotes: st.in_quotes, toks: st.toks }
    }
}

/// The tokens of `s` from index `i` on; the end of input commits any
/// unfinished token.
pub open spec fn spec_tokenize_from(s: Seq<char>, i: int, st: TokState) -> Seq<Seq<char>>
    decreases s.len() - i,
{
    if i < 0 || i >= s.len() {
        if st.current.len() > 0 {
            st.toks.push(st.current)
        } else {
            st.toks
        }
    } else {
        spec_tokenize_from(s, i + 1, spec_tok_step(s[i], st))
    }
}

/// Space-separated tokens of an attribute comment, respecting quoted
/// spans.
pub open spec fn spec_tokenize(s: Seq<char>) -> Seq<Seq<char>> {
    spec_tokenize_from(s, 0, TokState { current: Seq::empty(), in_quotes: false, toks: seq![] })
}

fn tokenize(s: &str) -> (r: Vec<String>)
    ensures
        r.deep_view() == spec_tokenize(s@),
{
    let n = s.unicode_len();
    let mut toks: Vec<String> = Vec::new();
    let mut current = String::new();
    let mut in_quotes = false;
    let mut i: usize = 0;
    proof {
        assert(toks.deep_view() =~~= Seq::<Seq<char>>::empty());
    }
    while i < n
        invariant
            i <= n,
            spec_tokenize(s@) == spec_tokenize_from(
                s@,
                i as int,
                TokState { current: current@, in_quotes: in_quotes, toks: toks.deep_view() },
            ),
        decreases n - i,
    {
        let ghost st0 = TokState {
            current: current@,
            in_quotes: in_quotes,
            toks: toks.deep_view(),
        };
        let c = s.get_char(i);
        if c == '"' {
            push_char(&mut current, '"');
            in_quotes = !in_quotes;
        } else if c == ' ' && !in_quotes {
            if current.as_str().unicode_len() > 0 {
                toks.push(current);
                current = String::new();
                proof {
                    assert(toks.deep_view() =~~= st0.toks.push(st0.current));
                }
            }
        } else {
            push_char(&mut current, c);
        }
        proof {
            let st1 = TokState {
                current: current@,
                in_quotes: in_quotes,
                toks: toks.deep_view(),
            };
            assert(st1 =~~= spec_tok_step(s@[i as int], st0));
        }
        i += 1;
    }
    if current.as_str().unicode_len() > 0 {
        toks.push(current);
        proof {
            assert(toks.deep_view() =~~= spec_tokenize(s@));
        }
    }
    toks
}

/// Accumulated image attributes.
#[verifier::ext_equal]
pub struct ImgAttrs {
    pub width: Option<Seq<char>>,
    pub height: Option<Seq<char>>,
    pub classes: Seq<char>,
    pub style: Seq<char>,
}

/// The attributes before any comment is read: the default class list,
/// no width, no height, no style.
pub open spec fn spec_default_attrs() -> ImgAttrs {
    ImgAttrs {
        width: None,
        height: None,
        classes: "max-w-full h-auto my-4 rounded-lg shadow-lg"@,
        style: Seq::empty(),
    }
}

/// Effect of one `key=value` token: width and height are stored with
/// quotes stripped, class is appended, style keeps one surrounding pair
/// of quotes off, and preset replaces the class list wholesale; other
/// keys and tokens without `=` change nothing.
pub open spec fn spec_apply_attr(tok: Seq<char>, a: ImgAttrs) -> ImgAttrs {
    let eq = first_index_of(tok, '=');
    if eq < tok.len() {
        let key = spec_trim(tok.subrange(0, eq));
        let value = spec_trim(tok.subrange(eq + 1, tok.len() as int));
        if key == "width"@ {
            ImgAttrs { width: Some(spec_strip_both(value, '"')), ..a }
        } else if key == "height"@ {
            ImgAttrs { height: Some(spec_strip_both(value, '"')), ..a }
        } else if key == "class"@ {
            ImgAttrs { classes: a.classes + " "@ + spec_strip_both(value, '"'), ..a }
        } else if key == "style"@ {
            ImgAttrs {
                style: if value.len() >= 2 && value[0] == '"' && value[value.len() - 1] == '"' {
                    value.subrange(1, value.len() - 1)
                } else {
                    value
                },
                ..a
            }
        } else if key == "preset"@ {
            let p = spec_strip_both(value, '"');
            ImgAttrs {
                classes: if p == "avatar"@ {
                    "w-32 h-32 rounded-full object-cover"@
                } else if p == "banner"@ {
                    "w-full h-64 object-cover"@
                } else if p == "thumbnail"@ {
                    "w-48 h-48 object-cover rounded"@
                } else {
                    a.classes
                },
                ..a
            }
        } else {
            a
        }
    } else {
        a
    }
}

/// The attributes after applying the tokens from index `i` on.
pub open spec fn spec_apply_attrs(toks: Seq<Seq<char>>, i: int, a: ImgAttrs) -> ImgAttrs
    decreases toks.len() - i,
{
    if i < 0 || i >= toks.len() {
        a
    } else {
        spec_apply_attrs(toks, i + 1, spec_apply_attr(toks[i], a))
    }
}

/// The attributes carried by the last HTML comment before the image, or
/// the defaults when there is none or it is unterminated.
pub open spec fn spec_image_attrs(pre: Seq<char>) -> ImgAttrs {
    let cs = last_match_before(pre, "<!--"@, pre.len() as int);
    if cs >= 0 {
        let rel = first_match_index(pre.subrange(cs, pre.len() as int), "-->"@);
        if rel < pre.len() - cs {
            let comment = pre.subrange(cs, cs + rel);
            let attrs_text = spec_trim(
                spec_strip_suffix_repeat(spec_strip_prefix_repeat(comment, "<!--"@), "-->"@),
            );
            spec_apply_attrs(spec_tokenize(attrs_text), 0, spec_default_attrs())
        } else {
            spec_default_attrs()
        }
    } else {
        spec_default_attrs()
    }
}

/// The `<img>` tag assembled from its parts.
pub open spec fn spec_img_tag(
    url: Seq<char>,
    alt: Seq<char>,
    title: Seq<char>,
    a: ImgAttrs,
) -> Seq<char> {
    "<img src=\""@ + url + "\" alt=\""@ + alt + "\" title=\""@ + title + "\" class=\""@
        + a.classes + "\""@ + (match a.width {
        Some(w) => " width=\""@ + w + "\""@,
        None => Seq::<char>::empty(),
    }) + (match a.height {
        Some(h) => " height=\""@ + h + "\""@,
        None => Seq::<char>::empty(),
    }) + (if a.style.len() > 0 {
        " style=\""@ + a.style + "\""@
    } else {
        Seq::<char>::empty()
    }) + ">"@
}

/// The `<img>` tag for an image node in a document whose text is `src`.
pub open spec fn spec_image_html(n: MdNode, src: Seq<char>) -> Seq<char> {
    let raw = node_text_or_empty(n);
    let url = spec_bracket_content(raw, '(', ')');
    let alt = spec_bracket_content(raw, '[', ']');
    let title = spec_image_title(raw);
    let sc = if n.start_char as int <= src.len() {
        n.start_char as int
    } else {
        src.len() as int
    };
    let a = spec_image_attrs(src.subrange(0, sc));
    spec_img_tag(url, alt, title, a)
}

struct ExecAttrs {
    width: Option<String>,
    height: Option<String>,
    classes: String,
    style: String,
}

/// The attribute state an executable accumulator stands for.
spec fn exec_attrs_view(e: ExecAttrs) -> ImgAttrs {
    ImgAttrs {
        width: match e.width {
            Some(w) => Some(w@),
            None => None,
        },
        height: match e.height {
            Some(h) => Some(h@),
            None => None,
        },
        classes: e.classes@,
        style: e.style@,
    }
}

fn apply_attr_tokens(toks: &Vec<String>) -> (r: ExecAttrs)
    ensures
        exec_attrs_view(r) == spec_apply_attrs(toks.deep_view(), 0, spec_default_attrs()),
{
    let mut cur = ExecAttrs {
        width: None,
        height: None,
        classes: String::from_str("max-w-full h-auto my-4 rounded-lg shadow-lg"),
        style: String::new(),
    };
    let n = toks.len();
    let mut i: usize = 0;
    proof {
        assert(exec_attrs_view(cur) =~~= spec_default_attrs());
    }
    while i < n
        invariant
            i <= n,
            n == toks.len(),
            spec_apply_attrs(toks.deep_view(), 0, spec_default_attrs()) == spec_apply_attrs(
                toks.deep_view(),
                i as int,
                exec_attrs_view(cur),
            ),
        decreases n - i,
    {
        let ghost a0 = exec_attrs_view(cur);
        let ghost tokv = toks.deep_view()[i as int];
        proof {
            assert(tokv == toks@[i as int]@);
        }
        let tok = toks[i].as_str();
        let tl = tok.unicode_len();
        let eq = find_char_from(tok, '=', 0);
        proof {
            lemma_first_index_of_is(tok@, '=', eq as int);
        }
        if eq < tl {
            let key = trim(substr(tok, 0, eq));
            let value = trim(substr(tok, eq + 1, tl));
            let vl = value.unicode_len();
            if str_eq(key, "width") {
                cur.width = Some(String::from_str(strip_both(value, '"')));
            } else if str_eq(key, "height") {
                cur.height = Some(String::from_str(strip_both(value, '"')));
            } else if str_eq(key, "class") {
                cur.classes.append(" ");
                cur.classes.append(strip_both(value, '"'));
            } else if str_eq(key, "style") {
                if vl >= 2 && value.get_char(0) == '"' && value.get_char(vl - 1) == '"' {
                    cur.style = String::from_str(substr(value, 1, vl - 1));
                } else {
                    cur.style = String::from_str(value);
                }
            } else if str_eq(key, "preset") {
                let p = strip_both(value, '"');
                if str_eq(p, "avatar") {
                    cur.classes = String::from_str("w-32 h-32 rounded-full object-cover");
                } else if str_eq(p, "banner") {
                    cur.classes = String::from_str("w-full h-64 object-cover");
                } else if str_eq(p, "thumbnail") {
                    cur.classes = String::from_str("w-48 h-48 object-cover rounded");
                }
            }
        }
        proof {
            reveal_strlit(" ");
            assert(" "@ =~= seq![' ']);
            assert(exec_attrs_view(cur) =~~= spec_apply_attr(tokv, a0));
        }
        i += 1;
    }
    cur
}

/// Render one image node against the whole source text.
#[verifier::rlimit(100)]
pub fn image_html(n: &MdNode, source: &str) -> (r: String)
    ensures
        r@ == spec_image_html(*n, source@),
{
    proof {
        reveal_strlit("");
    }
    let raw = match &n.text {
        Some(t) => t.as_str(),
        None => "",
    };
    proof {
        assert(raw@ == node_text_or_empty(*n));
    }
    let url = bracket_content(raw, '(', ')');
    let alt = bracket_content(raw, '[', ']');
    let title = image_title(raw);

    let srclen = source.unicode_len();
    let sc = if n.start_char <= srclen {
        n.start_char
    } else {
        srclen
    };
    let pre = substr(source, 0, sc);
    let prelen = sc;

    proof {
        reveal_strlit("<!--");
        reveal_strlit("-->");
    }
    let ghost aspec = spec_image_attrs(pre@);
    let empty_toks: Vec<String> = Vec::new();
    proof {
        assert(empty_toks.deep_view() =~~= Seq::<Seq<char>>::empty());
    }
    let attrs = match rfind_str_before(pre, "<!--", prelen) {
        Some(cs) => {
            proof {
                lemma_last_match_before_is(pre@, "<!--"@, prelen as int, cs as int);
            }
            match find_str_from(pre, "-->", cs) {
                Some(ce) => {
                    proof {
                        let sub = pre@.subrange(cs as int, prelen as int);
                        assert forall|j: int| 0 <= j < ce - cs implies !match_at(
                            sub,
                            "-->"@,
                            j,
                        ) by {
                            crate::text::lemma_match_in_suffix(pre@, "-->"@, cs as int, j);
                        }
                        crate::text::lemma_match_in_suffix(pre@, "-->"@, cs as int, ce - cs);
                        lemma_first_match_index_is(sub, "-->"@, ce - cs);
                        assert(sub.subrange(0, ce - cs) =~= pre@.subrange(cs as int, ce as int));
                    }
                    let comment = substr(pre, cs, ce);
                    let attrs_text = trim(
                        strip_suffix_repeat(strip_prefix_repeat(comment, "<!--"), "-->"),
                    );
                    let toks = tokenize(attrs_text);
                    let a = apply_attr_tokens(&toks);
                    proof {
                        assert(exec_attrs_view(a) == aspec);
                    }
                    a
                },
                None => {
                    proof {
                        let sub = pre@.subrange(cs as int, prelen as int);
                        assert forall|j: int| 0 <= j implies !match_at(sub, "-->"@, j) by {
                            crate::text::lemma_match_in_suffix(pre@, "-->"@, cs as int, j);
                        }
                        lemma_first_match_index_is(sub, "-->"@, sub.len() as int);
                    }
                    let a = apply_attr_tokens(&empty_toks);
                    proof {
                        assert(exec_attrs_view(a) == aspec);
                    }
                    a
                },
            }
        },
        None => {
            proof {
                lemma_last_match_before_is(pre@, "<!--"@, prelen as int, -1);
            }
            let a = apply_attr_tokens(&empty_toks);
            proof {
                assert(exec_attrs_view(a) == aspec);
            }
            a
        },
    };

    build_img_tag(url, alt, title, attrs)
}

fn build_img_tag(url: &str, alt: &str, title: &str, attrs: ExecAttrs) -> (r: String)
    ensures
        r@ == spec_img_tag(url@, alt@, title@, exec_attrs_view(attrs)),
{
    let mut out = String::from_str("<img src=\"");
    out.append(url);
    out.append("\" alt=\"");
    out.append(alt);
    out.append("\" title=\"");
    out.append(title);
    out.append("\" class=\"");
    out.append(attrs.classes.as_str());
    out.append("\"");
    match &attrs.width {
        Some(w) => {
            out.append(" width=\"");
            out.append(w.as_str());
            out.append("\"");
        },
        None => {},
    }
    match &attrs.height {
        Some(h) => {
            out.append(" height=\"");
            out.append(h.as_str());
            out.append("\"");
        },
        None => {},
    }
    if attrs.style.as_str().unicode_len() > 0 {
        out.append(" style=\"");
        out.append(attrs.style.as_str());
        out.append("\"");
    }
    out.append(">");
    proof {
        assert(out@ =~= spec_img_tag(url@, alt@, title@, exec_attrs_view(attrs)));
    }
    out
}

} // verus!
