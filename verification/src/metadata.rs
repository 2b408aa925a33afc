//! Front-matter extraction: a leading HTML-comment block at the very top of
//! a document is parsed into an ordered `key: value` mapping, keys
//! lower-cased and both sides trimmed. Scanning stops at the first
//! non-empty line outside a comment block; nothing here ever fails.

use vstd::prelude::*;
use crate::text::{
    spec_trim, spec_to_lower, spec_split_lines, match_at, first_index_of, trim, to_lower,
    split_lines, str_starts_with, str_ends_with, substr, find_char_from, lemma_first_index_of_is,
    str_eq, lemma_trim_id, lemma_trim_stable_ends, is_space_char,
};

verus! {

/// An ordered mapping from lower-cased keys to values, unique by key.
pub struct Metadata {
    pub pairs: Vec<(String, String)>,
}

impl View for Metadata {
    type V = Seq<(Seq<char>, Seq<char>)>;

    open spec fn view(&self) -> Self::V {
        self.pairs.deep_view()
    }
}

/// Insert into an ordered mapping: an existing key keeps its position and
/// takes the new value; a new key is appended.
pub open spec fn spec_meta_insert(
    m: Seq<(Seq<char>, Seq<char>)>,
    k: Seq<char>,
    v: Seq<char>,
) -> Seq<(Seq<char>, Seq<char>)>
    decreases m.len(),
{
    if m.len() == 0 {
        seq![(k, v)]
    } else if m[0].0 == k {
        seq![(k, v)] + m.drop_first()
    } else {
        seq![m[0]] + spec_meta_insert(m.drop_first(), k, v)
    }
}

/// The value stored under `k`, if any.
pub open spec fn spec_meta_get(m: Seq<(Seq<char>, Seq<char>)>, k: Seq<char>) -> Option<Seq<char>>
    decreases m.len(),
{
    if m.len() == 0 {
        None
    } else if m[0].0 == k {
        Some(m[0].1)
    } else {
        spec_meta_get(m.drop_first(), k)
    }
}

proof fn lemma_meta_insert_at(m: Seq<(Seq<char>, Seq<char>)>, k: Seq<char>, v: Seq<char>, i: int)
    requires
        0 <= i <= m.len(),
        forall|j: int| 0 <= j < i ==> m[j].0 != k,
        i < m.len() ==> m[i].0 == k,
    ensures
        spec_meta_insert(m, k, v) == if i < m.len() {
            m.update(i, (k, v))
        } else {
            m.push((k, v))
        },
    decreases i,
{
    if m.len() == 0 {
        assert(spec_meta_insert(m, k, v) =~= m.push((k, v)));
    } else if i == 0 {
        if m[0].0 == k {
            assert(seq![(k, v)] + m.drop_first() =~= m.update(0, (k, v)));
        }
    } else {
        lemma_meta_insert_at(m.drop_first(), k, v, i - 1);
        if i < m.len() {
            assert(seq![m[0]] + m.drop_first().update(i - 1, (k, v)) =~= m.update(i, (k, v)));
        } else {
            assert(seq![m[0]] + m.drop_first().push((k, v)) =~= m.push((k, v)));
        }
    }
}

proof fn lemma_meta_get_at(m: Seq<(Seq<char>, Seq<char>)>, k: Seq<char>, i: int)
    requires
        0 <= i <= m.len(),
        forall|j: int| 0 <= j < i ==> m[j].0 != k,
        i < m.len() ==> m[i].0 == k,
    ensures
        spec_meta_get(m, k) == if i < m.len() {
            Some(m[i].1)
        } else {
            None::<Seq<char>>
        },
    decreases i,
{
    if m.len() == 0 {
    } else if i == 0 {
    } else {
        lemma_meta_get_at(m.drop_first(), k, i - 1);
    }
}

impl Metadata {
    pub fn new() -> (m: Metadata)
        ensures
            m@ =~= Seq::<(Seq<char>, Seq<char>)>::empty(),
    {
        Metadata { pairs: Vec::new() }
    }

    pub fn insert(&mut self, key: String, value: String)
        ensures
            final(self)@ == spec_meta_insert(old(self)@, key@, value@),
    {
        let n = self.pairs.len();
        let mut i: usize = 0;
        while i < n
            invariant
                i <= n,
                n == self.pairs.len(),
                *self == *old(self),
                forall|j: int| 0 <= j < i ==> self@[j].0 != key@,
            decreases n - i,
        {
            if str_eq(self.pairs[i].0.as_str(), key.as_str()) {
                proof {
                    lemma_meta_insert_at(old(self)@, key@, value@, i as int);
                }
                self.pairs.set(i, (key, value));
                proof {
                    assert(self@ =~~= old(self)@.update(i as int, (key@, value@)));
                }
                return;
            }
            i += 1;
        }
        proof {
            lemma_meta_insert_at(old(self)@, key@, value@, n as int);
        }
        self.pairs.push((key, value));
        proof {
            assert(self@ =~~= old(self)@.push((key@, value@)));
        }
    }

    pub fn get<'a>(&'a self, key: &str) -> (r: Option<&'a String>)
        ensures
            r matches Some(v) ==> spec_meta_get(self@, key@) == Some(v@),
            r is None ==> spec_meta_get(self@, key@) is None,
    {
        let n = self.pairs.len();
        let mut i: usize = 0;
        while i < n
            invariant
                i <= n,
                n == self.pairs.len(),
                forall|j: int| 0 <= j < i ==> self@[j].0 != key@,
            decreases n - i,
        {
            if str_eq(self.pairs[i].0.as_str(), key) {
                proof {
                    lemma_meta_get_at(self@, key@, i as int);
                }
                return Some(&self.pairs[i].1);
            }
            i += 1;
        }
        proof {
            lemma_meta_get_at(self@, key@, n as int);
        }
        None
    }

    pub fn len(&self) -> (n: usize)
        ensures
            n == self@.len(),
    {
        self.pairs.len()
    }
}

/// Effect of one front-matter line on the mapping: split at the first
/// colon, trim and lower-case the key, trim the value; a line without a
/// colon changes nothing.
pub open spec fn spec_parse_meta_line(
    l: Seq<char>,
    m: Seq<(Seq<char>, Seq<char>)>,
) -> Seq<(Seq<char>, Seq<char>)> {
    let i = first_index_of(l, ':');
    if i < l.len() {
        spec_meta_insert(
            m,
            spec_to_lower(spec_trim(l.subrange(0, i))),
            spec_trim(l.subrange(i + 1, l.len() as int)),
        )
    } else {
        m
    }
}

/// Parse one `key: value` line into the mapping; malformed lines are
/// silently skipped.
pub fn parse_metadata_line(line: &str, metadata: &mut Metadata)
    ensures
        final(metadata)@ == spec_parse_meta_line(line@, old(metadata)@),
{
    let ll = line.unicode_len();
    let i = find_char_from(line, ':', 0);
    proof {
        lemma_first_index_of_is(line@, ':', i as int);
    }
    if i < ll {
        let key = to_lower(trim(substr(line, 0, i)));
        let val = String::from_str(trim(substr(line, i + 1, ll)));
        metadata.insert(key, val);
    }
}

/// Whether a trimmed line opens an HTML comment.
pub open spec fn spec_opens_comment(t: Seq<char>) -> bool {
    match_at(t, "<!--"@, 0)
}

/// Whether a trimmed line closes an HTML comment.
pub open spec fn spec_closes_comment(t: Seq<char>) -> bool {
    "-->"@.len() <= t.len() && match_at(t, "-->"@, t.len() - "-->"@.len())
}

/// The single-line block `<!-- ... -->`: the text strictly between the
/// delimiters, when the line is long enough to hold both.
pub open spec fn spec_comment_middle(t: Seq<char>) -> Seq<char> {
    if t.len() >= 7 {
        t.subrange(4, t.len() - 3)
    } else {
        Seq::empty()
    }
}

/// The front-matter scan over the remaining lines: a two-state machine
/// that is inside or outside a comment block, accumulating pairs, and
/// stopping at the first non-empty line outside a block.
pub open spec fn spec_meta_scan(
    lines: Seq<Seq<char>>,
    in_block: bool,
    acc: Seq<(Seq<char>, Seq<char>)>,
) -> Seq<(Seq<char>, Seq<char>)>
    decreases lines.len(),
{
    if lines.len() == 0 {
        acc
    } else {
        let t = spec_trim(lines[0]);
        let rest = lines.drop_first();
        if !in_block && spec_opens_comment(t) {
            if spec_closes_comment(t) {
                spec_meta_scan(rest, false, spec_parse_meta_line(spec_comment_middle(t), acc))
            } else {
                spec_meta_scan(rest, true, acc)
            }
        } else if in_block && spec_closes_comment(t) {
            spec_meta_scan(rest, false, acc)
        } else if in_block {
            spec_meta_scan(rest, true, spec_parse_meta_line(t, acc))
        } else if t.len() == 0 {
            spec_meta_scan(rest, false, acc)
        } else {
            acc
        }
    }
}

/// The mapping recovered from a document's leading comment block.
pub open spec fn spec_extract_metadata(s: Seq<char>) -> Seq<(Seq<char>, Seq<char>)> {
    spec_meta_scan(spec_split_lines(s), false, Seq::empty())
}

/// Scan the leading lines of `markdown` for an HTML-comment front-matter
/// block and collect its `key: value` pairs.
pub fn extract_metadata(markdown: &str) -> (m: Metadata)
    ensures
        m@ == spec_extract_metadata(markdown@),
{
    let lines = split_lines(markdown);
    let n = lines.len();
    let mut m = Metadata::new();
    let mut in_block = false;
    let mut i: usize = 0;
    proof {
        assert(lines.deep_view().subrange(0, n as int) =~~= lines.deep_view());
    }
    while i < n
        invariant
            i <= n,
            n == lines.len(),
            lines.deep_view() == spec_split_lines(markdown@),
            spec_extract_metadata(markdown@) == spec_meta_scan(
                lines.deep_view().subrange(i as int, n as int),
                in_block,
                m@,
            ),
        decreases n - i,
    {
        let ghost rem = lines.deep_view().subrange(i as int, n as int);
        proof {
            assert(rem[0] == lines@[i as int].deep_view());
            assert(rem.drop_first() =~~= lines.deep_view().subrange(i + 1, n as int));
        }
        let t = trim(lines[i].as_str());
        let tl = t.unicode_len();
        if !in_block && str_starts_with(t, "<!--") {
            if str_ends_with(t, "-->") {
                if tl >= 7 {
                    let mid = substr(t, 4, tl - 3);
                    parse_metadata_line(mid, &mut m);
                } else {
                    parse_metadata_line("", &mut m);
                    proof {
                        reveal_strlit("");
                        assert(""@ =~= Seq::<char>::empty());
                        assert(spec_comment_middle(t@) =~= Seq::<char>::empty());
                    }
                }
            } else {
                in_block = true;
            }
        } else if in_block && str_ends_with(t, "-->") {
            in_block = false;
        } else if in_block {
            parse_metadata_line(t, &mut m);
        } else if tl == 0 {
            // blank line outside any block: keep scanning
        } else {
            return m;
        }
        i += 1;
    }
    proof {
        assert(lines.deep_view().subrange(n as int, n as int) =~~= Seq::<Seq<char>>::empty());
    }
    m
}

/// One body line of a front-matter block.
pub open spec fn meta_block_line(k: Seq<char>, v: Seq<char>) -> Seq<char> {
    k + ":"@ + v
}

/// The body lines of a block with the given keys and values.
pub open spec fn meta_block_lines(keys: Seq<Seq<char>>, values: Seq<Seq<char>>) -> Seq<
    Seq<char>,
> {
    Seq::new(keys.len(), |i: int| meta_block_line(keys[i], values[i]))
}

/// A well-formed front-matter entry: key and value carry no blank
/// edges, the key is non-empty and holds no colon, and the line does
/// not end in a comment terminator.
pub open spec fn wf_meta_entry(k: Seq<char>, v: Seq<char>) -> bool {
    &&& spec_trim(k) == k
    &&& k.len() > 0
    &&& (forall|j: int| 0 <= j < k.len() ==> k[j] != ':')
    &&& spec_trim(v) == v
    &&& !spec_closes_comment(meta_block_line(k, v))
}

/// The pairs a block with these keys and values describes, in order.
pub open spec fn meta_block_pairs(keys: Seq<Seq<char>>, values: Seq<Seq<char>>) -> Seq<
    (Seq<char>, Seq<char>),
> {
    Seq::new(keys.len(), |i: int| (spec_to_lower(keys[i]), values[i]))
}

proof fn lemma_parse_wf_line(k: Seq<char>, v: Seq<char>, acc: Seq<(Seq<char>, Seq<char>)>)
    requires
        wf_meta_entry(k, v),
    ensures
        spec_parse_meta_line(meta_block_line(k, v), acc) == spec_meta_insert(
            acc,
            spec_to_lower(k),
            v,
        ),
{
    reveal_strlit(":");
    let l = meta_block_line(k, v);
    assert(l[k.len() as int] == ':');
    assert forall|j: int| 0 <= j < k.len() implies l[j] != ':' by {
        assert(l[j] == k[j]);
    }
    lemma_first_index_of_is(l, ':', k.len() as int);
    assert(l.subrange(0, k.len() as int) =~= k);
    assert(l.subrange(k.len() as int + 1, l.len() as int) =~= v);
}

proof fn lemma_line_trim_id(k: Seq<char>, v: Seq<char>)
    requires
        wf_meta_entry(k, v),
    ensures
        spec_trim(meta_block_line(k, v)) == meta_block_line(k, v),
{
    reveal_strlit(":");
    let l = meta_block_line(k, v);
    lemma_trim_stable_ends(k);
    assert(l[0] == k[0]);
    if v.len() > 0 {
        lemma_trim_stable_ends(v);
        assert(l[l.len() - 1] == v[v.len() - 1]);
    } else {
        assert(l[l.len() - 1] == ':');
    }
    lemma_trim_id(l);
}

proof fn lemma_meta_block_body(
    keys: Seq<Seq<char>>,
    values: Seq<Seq<char>>,
    rest: Seq<Seq<char>>,
    acc: Seq<(Seq<char>, Seq<char>)>,
)
    requires
        keys.len() == values.len(),
        forall|i: int| 0 <= i < keys.len() ==> wf_meta_entry(#[trigger] keys[i], values[i]),
        forall|i: int, j: int|
            0 <= i < j < keys.len() ==> spec_to_lower(keys[i]) != spec_to_lower(keys[j]),
        forall|i: int, j: int|
            0 <= i < keys.len() && 0 <= j < acc.len() ==> #[trigger] acc[j].0 != spec_to_lower(
                #[trigger] keys[i],
            ),
    ensures
        spec_meta_scan(meta_block_lines(keys, values) + seq!["-->"@] + rest, true, acc)
            == spec_meta_scan(rest, false, acc + meta_block_pairs(keys, values)),
    decreases keys.len(),
{
    reveal_strlit("-->");
    reveal_strlit("<!--");
    let lines = meta_block_lines(keys, values) + seq!["-->"@] + rest;
    if keys.len() == 0 {
        assert(lines[0] == "-->"@);
        lemma_trim_id("-->"@);
        let t = spec_trim("-->"@);
        assert(t.subrange(0, 3) =~= "-->"@);
        assert(spec_closes_comment(t));
        assert(lines.drop_first() =~~= rest);
        assert(acc + meta_block_pairs(keys, values) =~~= acc);
    } else {
        let k0 = keys[0];
        let v0 = values[0];
        let l0 = meta_block_line(k0, v0);
        assert(lines[0] == l0);
        lemma_line_trim_id(k0, v0);
        lemma_parse_wf_line(k0, v0, acc);
        assert forall|j: int| 0 <= j < acc.len() implies acc[j].0 != spec_to_lower(k0) by {}
        lemma_meta_insert_at(acc, spec_to_lower(k0), v0, acc.len() as int);
        let acc1 = acc.push((spec_to_lower(k0), v0));
        let keys1 = keys.drop_first();
        let values1 = values.drop_first();
        assert(lines.drop_first() =~~= meta_block_lines(keys1, values1) + seq!["-->"@] + rest);
        assert forall|i: int| 0 <= i < keys1.len() implies wf_meta_entry(
            #[trigger] keys1[i],
            values1[i],
        ) by {
            assert(keys1[i] == keys[i + 1]);
            assert(values1[i] == values[i + 1]);
        }
        assert forall|i: int, j: int| 0 <= i < j < keys1.len() implies spec_to_lower(keys1[i])
            != spec_to_lower(keys1[j]) by {
            assert(keys1[i] == keys[i + 1]);
            assert(keys1[j] == keys[j + 1]);
        }
        assert forall|i: int, j: int|
            0 <= i < keys1.len() && 0 <= j < acc1.len() implies #[trigger] acc1[j].0
            != spec_to_lower(#[trigger] keys1[i]) by {
            assert(keys1[i] == keys[i + 1]);
            if j < acc.len() {
                assert(acc1[j] == acc[j]);
            } else {
                assert(acc1[j].0 == spec_to_lower(keys[0]));
            }
        }
        lemma_meta_block_body(keys1, values1, rest, acc1);
        assert(acc1 + meta_block_pairs(keys1, values1) =~~= acc + meta_block_pairs(
            keys,
            values,
        )) by {
            assert forall|i: int|
                0 <= i < meta_block_pairs(keys1, values1).len() implies meta_block_pairs(
                keys1,
                values1,
            )[i] == meta_block_pairs(keys, values)[i + 1] by {
                assert(keys1[i] == keys[i + 1]);
                assert(values1[i] == values[i + 1]);
            }
        }
    }
}

/// Law: scanning stops at a non-empty line outside any comment block,
/// and that line is not consumed as front matter.
pub proof fn lemma_meta_scan_stops(lines: Seq<Seq<char>>, acc: Seq<(Seq<char>, Seq<char>)>)
    requires
        lines.len() > 0 ==> spec_trim(lines[0]).len() > 0 && !spec_opens_comment(
            spec_trim(lines[0]),
        ),
    ensures
        spec_meta_scan(lines, false, acc) == acc,
{
}

/// Law (multi-line front matter): a block of `<!--`, one well-formed
/// `key: value` line per entry with pairwise distinct lower-cased keys,
/// and `-->`, followed by ordinary content, yields exactly those pairs
/// in order, keys lower-cased.
pub proof fn lemma_front_matter_multiline(
    keys: Seq<Seq<char>>,
    values: Seq<Seq<char>>,
    rest: Seq<Seq<char>>,
)
    requires
        keys.len() == values.len(),
        forall|i: int| 0 <= i < keys.len() ==> wf_meta_entry(#[trigger] keys[i], values[i]),
        forall|i: int, j: int|
            0 <= i < j < keys.len() ==> spec_to_lower(keys[i]) != spec_to_lower(keys[j]),
        rest.len() > 0 ==> spec_trim(rest[0]).len() > 0 && !spec_opens_comment(
            spec_trim(rest[0]),
        ),
    ensures
        spec_meta_scan(
            seq!["<!--"@] + meta_block_lines(keys, values) + seq!["-->"@] + rest,
            false,
            Seq::empty(),
        ) == meta_block_pairs(keys, values),
{
    reveal_strlit("<!--");
    reveal_strlit("-->");
    let lines = seq!["<!--"@] + meta_block_lines(keys, values) + seq!["-->"@] + rest;
    assert(lines[0] == "<!--"@);
    lemma_trim_id("<!--"@);
    let t = spec_trim("<!--"@);
    assert(t.subrange(0, 4) =~= "<!--"@);
    assert(spec_opens_comment(t));
    assert(!spec_closes_comment(t)) by {
        if spec_closes_comment(t) {
            assert(t.subrange(1, 4)[0] == t[1]);
        }
    }
    assert(lines.drop_first() =~~= meta_block_lines(keys, values) + seq!["-->"@] + rest);
    lemma_meta_block_body(keys, values, rest, Seq::empty());
    lemma_meta_scan_stops(rest, Seq::empty() + meta_block_pairs(keys, values));
    assert(Seq::empty() + meta_block_pairs(keys, values) =~~= meta_block_pairs(keys, values));
}

/// The single-line form of a front-matter block.
pub open spec fn single_line_block(k: Seq<char>, v: Seq<char>) -> Seq<char> {
    "<!--"@ + meta_block_line(k, v) + "-->"@
}

/// Law (single-line front matter): `<!-- key: value -->` on one line,
/// followed by ordinary content, yields exactly that pair, its key
/// lower-cased.
pub proof fn lemma_front_matter_single_line(k: Seq<char>, v: Seq<char>, rest: Seq<Seq<char>>)
    requires
        spec_trim(k) == k,
        k.len() > 0,
        forall|j: int| 0 <= j < k.len() ==> k[j] != ':',
        spec_trim(v) == v,
        rest.len() > 0 ==> spec_trim(rest[0]).len() > 0 && !spec_opens_comment(
            spec_trim(rest[0]),
        ),
    ensures
        spec_meta_scan(seq![single_line_block(k, v)] + rest, false, Seq::empty()) == seq![
            (spec_to_lower(k), v),
        ],
{
    reveal_strlit("<!--");
    reveal_strlit("-->");
    reveal_strlit(":");
    let lines = seq![single_line_block(k, v)] + rest;
    let l = single_line_block(k, v);
    assert(lines[0] == l);
    lemma_trim_stable_ends(k);
    assert(!is_space_char(l[0]));
    assert(!is_space_char(l[l.len() - 1]));
    lemma_trim_id(l);
    let t = spec_trim(l);
    assert(t.subrange(0, 4) =~= "<!--"@);
    assert(spec_opens_comment(t));
    assert(t.subrange(t.len() - 3, t.len() as int) =~= "-->"@);
    assert(spec_closes_comment(t));
    assert(t.len() >= 7);
    assert(spec_comment_middle(t) =~= meta_block_line(k, v));
    let acc = Seq::<(Seq<char>, Seq<char>)>::empty();
    assert(l[k.len() as int + 4] == ':');
    assert forall|j: int| 0 <= j < k.len() implies meta_block_line(k, v)[j] != ':' by {
        assert(meta_block_line(k, v)[j] == k[j]);
    }
    lemma_first_index_of_is(meta_block_line(k, v), ':', k.len() as int);
    assert(meta_block_line(k, v).subrange(0, k.len() as int) =~= k);
    assert(meta_block_line(k, v).subrange(k.len() as int + 1, meta_block_line(k, v).len() as int)
        =~= v);
    assert(spec_parse_meta_line(spec_comment_middle(t), acc) =~~= seq![(spec_to_lower(k), v)]);
    assert(lines.drop_first() =~~= rest);
    lemma_meta_scan_stops(rest, seq![(spec_to_lower(k), v)]);
}

proof fn lemma_meta_scan_blank_prefix(
    lines: Seq<Seq<char>>,
    f: int,
    acc: Seq<(Seq<char>, Seq<char>)>,
)
    requires
        0 <= f <= lines.len(),
        forall|j: int| 0 <= j < f ==> spec_trim(#[trigger] lines[j]).len() == 0,
        f < lines.len() ==> spec_trim(lines[f]).len() > 0 && !spec_opens_comment(
            spec_trim(lines[f]),
        ),
    ensures
        spec_meta_scan(lines, false, acc) == acc,
    decreases f,
{
    reveal_strlit("<!--");
    if f == 0 {
        lemma_meta_scan_stops(lines, acc);
    } else {
        assert(spec_trim(lines[0]).len() == 0);
        assert(!spec_opens_comment(spec_trim(lines[0])));
        let rest = lines.drop_first();
        assert forall|j: int| 0 <= j < f - 1 implies spec_trim(#[trigger] rest[j]).len()
            == 0 by {
            assert(rest[j] == lines[j + 1]);
        }
        assert(f - 1 < rest.len() ==> rest[f - 1] == lines[f]);
        lemma_meta_scan_blank_prefix(rest, f - 1, acc);
    }
}

/// Law (no front matter): when the lines before the first content line
/// are all blank and that content line does not open a comment, the
/// extracted mapping is empty and the content line is left unread.
pub proof fn lemma_no_front_matter(lines: Seq<Seq<char>>, f: int)
    requires
        0 <= f <= lines.len(),
        forall|j: int| 0 <= j < f ==> spec_trim(#[trigger] lines[j]).len() == 0,
        f < lines.len() ==> spec_trim(lines[f]).len() > 0 && !spec_opens_comment(
            spec_trim(lines[f]),
        ),
    ensures
        spec_meta_scan(lines, false, Seq::empty()) == Seq::<(Seq<char>, Seq<char>)>::empty(),
{
    lemma_meta_scan_blank_prefix(lines, f, Seq::empty());
}

} // verus!
