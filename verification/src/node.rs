//! The library's own view of a parsed Markdown syntax tree.
//!
//! Each node carries its kind tag as an open string discriminator, the raw
//! text of its byte range (absent when the range did not decode), its
//! starting line and starting character offset in the source, and its
//! children in order.

use vstd::prelude::*;
use crate::text::{contains_sub, str_eq, contains_str};

verus! {

pub struct MdNode {
    /// Kind tag of the grammar node, e.g. `document`, `atx_heading`.
    pub kind: String,
    /// The node's own source text; `None` when extraction failed.
    pub text: Option<String>,
    /// Line number of the node's first character, counted from zero.
    pub start_row: usize,
    /// Character offset of the node's start within the whole source.
    pub start_char: usize,
    /// Child nodes in source order.
    pub children: Vec<MdNode>,
}

/// A kind tag naming an ATX heading marker (`atx_h1_marker` .. `atx_h6_marker`).
pub open spec fn spec_is_atx_marker(k: Seq<char>) -> bool {
    contains_sub(k, "atx_h"@) && contains_sub(k, "_marker"@)
}

pub fn is_atx_marker_kind(k: &str) -> (r: bool)
    ensures
        r == spec_is_atx_marker(k@),
{
    contains_str(k, "atx_h") && contains_str(k, "_marker")
}

/// A kind tag naming a list marker.
pub open spec fn spec_is_list_marker(k: Seq<char>) -> bool {
    contains_sub(k, "list_marker"@)
}

/// A kind tag belonging to the list family.
pub open spec fn spec_is_list_kind(k: Seq<char>) -> bool {
    k == "list"@ || k == "list_item"@ || contains_sub(k, "list_marker"@)
}

/// Whether a node is a list, a list item, or a list marker.
pub fn is_list_node(node: &MdNode) -> (r: bool)
    ensures
        r == spec_is_list_kind(node.kind@),
{
    str_eq(node.kind.as_str(), "list") || str_eq(node.kind.as_str(), "list_item")
        || contains_str(node.kind.as_str(), "list_marker")
}

/// The node's raw text, or the empty sequence when extraction failed.
pub open spec fn node_text_or_empty(n: MdNode) -> Seq<char> {
    match n.text {
        Some(t) => t@,
        None => Seq::empty(),
    }
}

/// The text of the first child of kind `k` whose text extraction
/// succeeded, if any.
pub open spec fn first_kind_text(s: Seq<MdNode>, k: Seq<char>) -> Option<Seq<char>>
    decreases s.len(),
{
    if s.len() == 0 {
        None
    } else if s[0].kind@ == k && s[0].text is Some {
        Some(s[0].text->0@)
    } else {
        first_kind_text(s.drop_first(), k)
    }
}

proof fn lemma_first_kind_text_is(s: Seq<MdNode>, k: Seq<char>, i: int)
    requires
        0 <= i <= s.len(),
        forall|j: int| 0 <= j < i ==> !(s[j].kind@ == k && s[j].text is Some),
        i < s.len() ==> s[i].kind@ == k && s[i].text is Some,
    ensures
        first_kind_text(s, k) == if i < s.len() {
            Some(s[i].text->0@)
        } else {
            None::<Seq<char>>
        },
    decreases i,
{
    if s.len() == 0 {
    } else if i == 0 {
    } else {
        lemma_first_kind_text_is(s.drop_first(), k, i - 1);
    }
}

pub fn find_first_kind_text<'a>(children: &'a Vec<MdNode>, k: &str) -> (r: Option<&'a String>)
    ensures
        r matches Some(t) ==> first_kind_text(children@, k@) == Some(t@),
        r is None ==> first_kind_text(children@, k@) is None,
{
    let n = children.len();
    let mut i: usize = 0;
    while i < n
        invariant
            i <= n,
            forall|j: int|
                0 <= j < i ==> !(children@[j].kind@ == k@ && children@[j].text is Some),
        decreases n - i,
    {
        if str_eq(children[i].kind.as_str(), k) {
            match &children[i].text {
                Some(t) => {
                    proof {
                        lemma_first_kind_text_is(children@, k@, i as int);
                    }
                    return Some(t);
                },
                None => {},
            }
        }
        i += 1;
    }
    proof {
        lemma_first_kind_text_is(children@, k@, n as int);
    }
    None
}

/// The text of the last child of kind `k` whose text extraction
/// succeeded, if any: each matching child in order overwrites the value.
pub open spec fn last_kind_text(s: Seq<MdNode>, k: Seq<char>) -> Option<Seq<char>>
    decreases s.len(),
{
    if s.len() == 0 {
        None
    } else if s.last().kind@ == k && s.last().text is Some {
        Some(s.last().text->0@)
    } else {
        last_kind_text(s.drop_last(), k)
    }
}

pub fn find_last_kind_text<'a>(children: &'a Vec<MdNode>, k: &str) -> (r: Option<&'a String>)
    ensures
        r matches Some(t) ==> last_kind_text(children@, k@) == Some(t@),
        r is None ==> last_kind_text(children@, k@) is None,
{
    let n = children.len();
    let mut found: Option<&String> = None;
    let mut i: usize = 0;
    while i < n
        invariant
            i <= n,
            found matches Some(t) ==> last_kind_text(children@.subrange(0, i as int), k@) == Some(
                t@,
            ),
            found is None ==> last_kind_text(children@.subrange(0, i as int), k@) is None,
        decreases n - i,
    {
        let ghost pre = children@.subrange(0, i as int);
        if str_eq(children[i].kind.as_str(), k) {
            match &children[i].text {
                Some(t) => {
                    found = Some(t);
                },
                None => {},
            }
        }
        proof {
            let cur = children@.subrange(0, i + 1);
            assert(cur.drop_last() =~= pre);
            assert(cur.last() == children@[i as int]);
        }
        i += 1;
    }
    proof {
        assert(children@.subrange(0, n as int) =~= children@);
    }
    found
}

/// The text of the first child whose kind names an ATX heading marker
/// and whose text extraction succeeded.
pub open spec fn first_atx_marker_text(s: Seq<MdNode>) -> Option<Seq<char>>
    decreases s.len(),
{
    if s.len() == 0 {
        None
    } else if spec_is_atx_marker(s[0].kind@) && s[0].text is Some {
        Some(s[0].text->0@)
    } else {
        first_atx_marker_text(s.drop_first())
    }
}

proof fn lemma_first_atx_marker_text_is(s: Seq<MdNode>, i: int)
    requires
        0 <= i <= s.len(),
        forall|j: int| 0 <= j < i ==> !(spec_is_atx_marker(s[j].kind@) && s[j].text is Some),
        i < s.len() ==> spec_is_atx_marker(s[i].kind@) && s[i].text is Some,
    ensures
        first_atx_marker_text(s) == if i < s.len() {
            Some(s[i].text->0@)
        } else {
            None::<Seq<char>>
        },
    decreases i,
{
    if s.len() == 0 {
    } else if i == 0 {
    } else {
        lemma_first_atx_marker_text_is(s.drop_first(), i - 1);
    }
}

pub fn find_first_atx_marker_text<'a>(children: &'a Vec<MdNode>) -> (r: Option<&'a String>)
    ensures
        r matches Some(t) ==> first_atx_marker_text(children@) == Some(t@),
        r is None ==> first_atx_marker_text(children@) is None,
{
    let n = children.len();
    let mut i: usize = 0;
    while i < n
        invariant
            i <= n,
            forall|j: int|
                0 <= j < i ==> !(spec_is_atx_marker(children@[j].kind@)
                    && children@[j].text is Some),
        decreases n - i,
    {
        if is_atx_marker_kind(children[i].kind.as_str()) {
            match &children[i].text {
                Some(t) => {
                    proof {
                        lemma_first_atx_marker_text_is(children@, i as int);
                    }
                    return Some(t);
                },
                None => {},
            }
        }
        i += 1;
    }
    proof {
        lemma_first_atx_marker_text_is(children@, n as int);
    }
    None
}

/// The text of the first child whose kind names a list marker and whose
/// text extraction succeeded.
pub open spec fn first_list_marker_text(s: Seq<MdNode>) -> Option<Seq<char>>
    decreases s.len(),
{
    if s.len() == 0 {
        None
    } else if spec_is_list_marker(s[0].kind@) && s[0].text is Some {
        Some(s[0].text->0@)
    } else {
        first_list_marker_text(s.drop_first())
    }
}

proof fn lemma_first_list_marker_text_is(s: Seq<MdNode>, i: int)
    requires
        0 <= i <= s.len(),
        forall|j: int| 0 <= j < i ==> !(spec_is_list_marker(s[j].kind@) && s[j].text is Some),
        i < s.len() ==> spec_is_list_marker(s[i].kind@) && s[i].text is Some,
    ensures
        first_list_marker_text(s) == if i < s.len() {
            Some(s[i].text->0@)
        } else {
            None::<Seq<char>>
        },
    decreases i,
{
    if s.len() == 0 {
    } else if i == 0 {
    } else {
        lemma_first_list_marker_text_is(s.drop_first(), i - 1);
    }
}

pub fn find_first_list_marker_text<'a>(children: &'a Vec<MdNode>) -> (r: Option<&'a String>)
    ensures
        r matches Some(t) ==> first_list_marker_text(children@) == Some(t@),
        r is None ==> first_list_marker_text(children@) is None,
{
    let n = children.len();
    let mut i: usize = 0;
    while i < n
        invariant
            i <= n,
            forall|j: int|
                0 <= j < i ==> !(spec_is_list_marker(children@[j].kind@)
                    && children@[j].text is Some),
        decreases n - i,
    {
        if contains_str(children[i].kind.as_str(), "list_marker") {
            match &children[i].text {
                Some(t) => {
                    proof {
                        lemma_first_list_marker_text_is(children@, i as int);
                    }
                    return Some(t);
                },
                None => {},
            }
        }
        i += 1;
    }
    proof {
        lemma_first_list_marker_text_is(children@, n as int);
    }
    None
}

/// The concatenated texts of the nodes of `s` from index `i` on, taking
/// the empty sequence for each node whose text extraction failed.
pub open spec fn concat_texts_from(s: Seq<MdNode>, i: int) -> Seq<char>
    decreases s.len() - i,
{
    if i < 0 || i >= s.len() {
        Seq::empty()
    } else {
        node_text_or_empty(s[i]) + concat_texts_from(s, i + 1)
    }
}

/// The concatenated texts of all children whose text extraction
/// succeeded, in order.
pub open spec fn concat_child_texts(s: Seq<MdNode>) -> Seq<char> {
    concat_texts_from(s, 0)
}

} // verus!
