//! Link-reference resolution: a depth-first pre-order walk of the whole
//! tree collects `link_reference_definition` nodes into a table from
//! lower-cased label to destination and title, later definitions for the
//! same label overwriting earlier ones.

use vstd::prelude::*;
use crate::node::{MdNode, last_kind_text, find_last_kind_text};
use crate::text::{
    spec_to_lower, spec_strip_start, spec_strip_end, spec_strip_both, to_lower, strip_start,
    strip_end, strip_both, str_eq,
};

verus! {

/// Mapping from lower-cased reference label to `(destination, title)`,
/// unique by label, in order of first definition.
pub struct LinkTable {
    pub entries: Vec<(String, (String, String))>,
}

impl View for LinkTable {
    type V = Seq<(Seq<char>, (Seq<char>, Seq<char>))>;

    open spec fn view(&self) -> Self::V {
        self.entries.deep_view()
    }
}

/// Insert with the same ordered-mapping shape as the metadata table: an
/// existing label keeps its position and takes the new pair.
pub open spec fn spec_link_insert(
    m: Seq<(Seq<char>, (Seq<char>, Seq<char>))>,
    k: Seq<char>,
    v: (Seq<char>, Seq<char>),
) -> Seq<(Seq<char>, (Seq<char>, Seq<char>))>
    decreases m.len(),
{
    if m.len() == 0 {
        seq![(k, v)]
    } else if m[0].0 == k {
        seq![(k, v)] + m.drop_first()
    } else {
        seq![m[0]] + spec_link_insert(m.drop_first(), k, v)
    }
}

/// The pair stored under label `k`, if any.
pub open spec fn spec_link_get(
    m: Seq<(Seq<char>, (Seq<char>, Seq<char>))>,
    k: Seq<char>,
) -> Option<(Seq<char>, Seq<char>)>
    decreases m.len(),
{
    if m.len() == 0 {
        None
    } else if m[0].0 == k {
        Some(m[0].1)
    } else {
        spec_link_get(m.drop_first(), k)
    }
}

proof fn lemma_link_insert_at(
    m: Seq<(Seq<char>, (Seq<char>, Seq<char>))>,
    k: Seq<char>,
    v: (Seq<char>, Seq<char>),
    i: int,
)
    requires
        0 <= i <= m.len(),
        forall|j: int| 0 <= j < i ==> m[j].0 != k,
        i < m.len() ==> m[i].0 == k,
    ensures
        spec_link_insert(m, k, v) == if i < m.len() {
            m.update(i, (k, v))
        } else {
            m.push((k, v))
        },
    decreases i,
{
    if m.len() == 0 {
        assert(spec_link_insert(m, k, v) =~= m.push((k, v)));
    } else if i == 0 {
        if m[0].0 == k {
            assert(seq![(k, v)] + m.drop_first() =~= m.update(0, (k, v)));
        }
    } else {
        lemma_link_insert_at(m.drop_first(), k, v, i - 1);
        if i < m.len() {
            assert(seq![m[0]] + m.drop_first().update(i - 1, (k, v)) =~= m.update(i, (k, v)));
        } else {
            assert(seq![m[0]] + m.drop_first().push((k, v)) =~= m.push((k, v)));
        }
    }
}

proof fn lemma_link_get_at(m: Seq<(Seq<char>, (Seq<char>, Seq<char>))>, k: Seq<char>, i: int)
    requires
        0 <= i <= m.len(),
        forall|j: int| 0 <= j < i ==> m[j].0 != k,
        i < m.len() ==> m[i].0 == k,
    ensures
        spec_link_get(m, k) == if i < m.len() {
            Some(m[i].1)
        } else {
            None::<(Seq<char>, Seq<char>)>
        },
    decreases i,
{
    if m.len() == 0 {
    } else if i == 0 {
    } else {
        lemma_link_get_at(m.drop_first(), k, i - 1);
    }
}

impl LinkTable {
    pub fn new() -> (t: LinkTable)
        ensures
            t@ =~= Seq::<(Seq<char>, (Seq<char>, Seq<char>))>::empty(),
    {
        LinkTable { entries: Vec::new() }
    }

    pub fn insert(&mut self, label: String, destination: String, title: String)
        ensures
            final(self)@ == spec_link_insert(old(self)@, label@, (destination@, title@)),
    {
        let n = self.entries.len();
        let mut i: usize = 0;
        while i < n
            invariant
                i <= n,
                n == self.entries.len(),
                *self == *old(self),
                forall|j: int| 0 <= j < i ==> self@[j].0 != label@,
            decreases n - i,
        {
            if str_eq(self.entries[i].0.as_str(), label.as_str()) {
                proof {
                    lemma_link_insert_at(old(self)@, label@, (destination@, title@), i as int);
                }
                self.entries.set(i, (label, (destination, title)));
                proof {
                    assert(self@ =~~= old(self)@.update(
                        i as int,
                        (label@, (destination@, title@)),
                    ));
                }
                return;
            }
            i += 1;
        }
        proof {
            lemma_link_insert_at(old(self)@, label@, (destination@, title@), n as int);
        }
        self.entries.push((label, (destination, title)));
        proof {
            assert(self@ =~~= old(self)@.push((label@, (destination@, title@))));
        }
    }

    pub fn get<'a>(&'a self, label: &str) -> (r: Option<&'a (String, String)>)
        ensures
            r matches Some(p) ==> spec_link_get(self@, label@) == Some((p.0@, p.1@)),
            r is None ==> spec_link_get(self@, label@) is None,
    {
        let n = self.entries.len();
        let mut i: usize = 0;
        while i < n
            invariant
                i <= n,
                n == self.entries.len(),
                forall|j: int| 0 <= j < i ==> self@[j].0 != label@,
            decreases n - i,
        {
            if str_eq(self.entries[i].0.as_str(), label) {
                proof {
                    lemma_link_get_at(self@, label@, i as int);
                }
                return Some(&self.entries[i].1);
            }
            i += 1;
        }
        proof {
            lemma_link_get_at(self@, label@, n as int);
        }
        None
    }

    pub fn len(&self) -> (n: usize)
        ensures
            n == self@.len(),
    {
        self.entries.len()
    }
}

/// The label recorded by a definition node: brackets stripped.
pub open spec fn spec_def_label(n: MdNode) -> Seq<char> {
    match last_kind_text(n.children@, "link_label"@) {
        Some(t) => spec_strip_end(spec_strip_start(t, '['), ']'),
        None => Seq::empty(),
    }
}

/// The destination recorded by a definition node.
pub open spec fn spec_def_destination(n: MdNode) -> Seq<char> {
    match last_kind_text(n.children@, "link_destination"@) {
        Some(t) => t,
        None => Seq::empty(),
    }
}

/// The title recorded by a definition node: double then single quotes
/// stripped from both ends.
pub open spec fn spec_def_title(n: MdNode) -> Seq<char> {
    match last_kind_text(n.children@, "link_title"@) {
        Some(t) => spec_strip_both(spec_strip_both(t, '"'), '\''),
        None => Seq::empty(),
    }
}

/// Effect of one `link_reference_definition` node on the table: inserted
/// under the lower-cased label when both label and destination are
/// non-empty, otherwise ignored.
pub open spec fn spec_ref_def_insert(
    n: MdNode,
    acc: Seq<(Seq<char>, (Seq<char>, Seq<char>))>,
) -> Seq<(Seq<char>, (Seq<char>, Seq<char>))> {
    let lab = spec_def_label(n);
    let dest = spec_def_destination(n);
    let title = spec_def_title(n);
    if lab.len() > 0 && dest.len() > 0 {
        spec_link_insert(acc, spec_to_lower(lab), (dest, title))
    } else {
        acc
    }
}

/// The table after a pre-order walk of `n` and all its descendants.
pub open spec fn spec_collect_refs(
    n: MdNode,
    acc: Seq<(Seq<char>, (Seq<char>, Seq<char>))>,
) -> Seq<(Seq<char>, (Seq<char>, Seq<char>))>
    decreases n, 1int,
{
    let acc1 = if n.kind@ == "link_reference_definition"@ {
        spec_ref_def_insert(n, acc)
    } else {
        acc
    };
    spec_collect_refs_from(n.children@, 0, acc1)
}

/// The table after walking the nodes of `s` from index `i` on.
pub open spec fn spec_collect_refs_from(
    s: Seq<MdNode>,
    i: int,
    acc: Seq<(Seq<char>, (Seq<char>, Seq<char>))>,
) -> Seq<(Seq<char>, (Seq<char>, Seq<char>))>
    decreases s, s.len() - i, 0int,
{
    if i < 0 || i >= s.len() {
        acc
    } else {
        spec_collect_refs_from(s, i + 1, spec_collect_refs(s[i], acc))
    }
}

/// Walk the tree under `node` and record every link reference definition
/// in `references`.
pub fn extract_link_references(node: &MdNode, references: &mut LinkTable)
    ensures
        final(references)@ == spec_collect_refs(*node, old(references)@),
    decreases *node,
{
    if str_eq(node.kind.as_str(), "link_reference_definition") {
        let label_raw = match find_last_kind_text(&node.children, "link_label") {
            Some(t) => strip_end(strip_start(t.as_str(), '['), ']'),
            None => "",
        };
        let destination = match find_last_kind_text(&node.children, "link_destination") {
            Some(t) => t.as_str(),
            None => "",
        };
        let title = match find_last_kind_text(&node.children, "link_title") {
            Some(t) => strip_both(strip_both(t.as_str(), '"'), '\''),
            None => "",
        };
        proof {
            reveal_strlit("");
            assert(""@ =~= Seq::<char>::empty());
        }
        if label_raw.unicode_len() > 0 && destination.unicode_len() > 0 {
            references.insert(
                to_lower(label_raw),
                String::from_str(destination),
                String::from_str(title),
            );
        }
    }
    let n = node.children.len();
    let mut i: usize = 0;
    while i < n
        invariant
            i <= n,
            n == node.children.len(),
            spec_collect_refs(*node, old(references)@) == spec_collect_refs_from(
                node.children@,
                i as int,
                references@,
            ),
        decreases n - i,
    {
        extract_link_references(&node.children[i], references);
        i += 1;
    }
}

} // verus!
