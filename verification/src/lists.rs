//! Line-oriented list pre-extraction: a purely textual scan that detects
//! bullet and numbered list blocks and records, per list, the item texts
//! keyed by the line index on which the list starts. The table overrides
//! tree-derived list rendering, so soft-wrapped items render whole.

use vstd::prelude::*;
use crate::text::{
    spec_trim, spec_split_lines, match_at, is_space_char, is_digit_char, first_match_index,
    lemma_first_match_index_is, trim, split_lines, str_starts_with, substr, is_space, is_digit,
    find_str,
};

verus! {

/// Per-document table: list start line (as an index from zero) to the
/// ordered item texts of that list.
pub struct ListTable {
    pub entries: Vec<(usize, Vec<String>)>,
}

impl View for ListTable {
    type V = Seq<(int, Seq<Seq<char>>)>;

    open spec fn view(&self) -> Self::V {
        Seq::new(
            self.entries@.len(),
            |i: int| (self.entries@[i].0 as int, self.entries@[i].1.deep_view()),
        )
    }
}

/// The items recorded under start line `row`, if any.
pub open spec fn spec_table_get(t: Seq<(int, Seq<Seq<char>>)>, row: int) -> Option<Seq<Seq<char>>>
    decreases t.len(),
{
    if t.len() == 0 {
        None
    } else if t[0].0 == row {
        Some(t[0].1)
    } else {
        spec_table_get(t.drop_first(), row)
    }
}

proof fn lemma_table_get_at(t: Seq<(int, Seq<Seq<char>>)>, row: int, i: int)
    requires
        0 <= i <= t.len(),
        forall|j: int| 0 <= j < i ==> t[j].0 != row,
        i < t.len() ==> t[i].0 == row,
    ensures
        spec_table_get(t, row) == if i < t.len() {
            Some(t[i].1)
        } else {
            None::<Seq<Seq<char>>>
        },
    decreases i,
{
    if t.len() == 0 {
    } else if i == 0 {
    } else {
        lemma_table_get_at(t.drop_first(), row, i - 1);
    }
}

impl ListTable {
    pub fn new() -> (t: ListTable)
        ensures
            t@ =~= Seq::<(int, Seq<Seq<char>>)>::empty(),
    {
        ListTable { entries: Vec::new() }
    }

    pub fn get<'a>(&'a self, row: usize) -> (r: Option<&'a Vec<String>>)
        ensures
            r matches Some(items) ==> spec_table_get(self@, row as int) == Some(items.deep_view()),
            r is None ==> spec_table_get(self@, row as int) is None,
    {
        let n = self.entries.len();
        let mut i: usize = 0;
        while i < n
            invariant
                i <= n,
                n == self.entries.len(),
                forall|j: int| 0 <= j < i ==> self@[j].0 != row as int,
            decreases n - i,
        {
            if self.entries[i].0 == row {
                proof {
                    lemma_table_get_at(self@, row as int, i as int);
                }
                return Some(&self.entries[i].1);
            }
            i += 1;
        }
        proof {
            lemma_table_get_at(self@, row as int, n as int);
        }
        None
    }
}

/// A trimmed line that opens a list item: `- `, `* `, or a digit
/// followed by a period and a space.
pub open spec fn spec_is_opener(t: Seq<char>) -> bool {
    match_at(t, "- "@, 0) || match_at(t, "* "@, 0) || (t.len() >= 3 && is_digit_char(t[0])
        && t[1] == '.' && t[2] == ' ')
}

/// The item text of an opener line: the marker is stripped and the rest
/// trimmed.
pub open spec fn spec_item_text(t: Seq<char>) -> Seq<char> {
    if match_at(t, "- "@, 0) || match_at(t, "* "@, 0) {
        spec_trim(t.subrange(2, t.len() as int))
    } else {
        spec_trim(t.subrange(3, t.len() as int))
    }
}

/// State of the line scan: whether a list is open, its start line, its
/// items so far, and the lists already committed.
#[verifier::ext_equal]
pub struct ListScanState {
    pub in_list: bool,
    pub key: int,
    pub items: Seq<Seq<char>>,
    pub acc: Seq<(int, Seq<Seq<char>>)>,
}

/// Closing a list commits it under its start line, provided it has items.
pub open spec fn spec_list_close(st: ListScanState) -> ListScanState {
    ListScanState {
        in_list: false,
        key: 0,
        items: seq![],
        acc: if st.in_list && st.items.len() > 0 {
            st.acc.push((st.key, st.items))
        } else {
            st.acc
        },
    }
}

/// Effect of the line with index `i` on the scan state.
pub open spec fn spec_list_step(line: Seq<char>, i: int, st: ListScanState) -> ListScanState {
    let t = spec_trim(line);
    if st.in_list {
        if t.len() == 0 {
            spec_list_close(st)
        } else if spec_is_opener(t) {
            ListScanState { items: st.items.push(spec_item_text(t)), ..st }
        } else if line.len() > 0 && is_space_char(line[0]) {
            if st.items.len() > 0 {
                ListScanState {
                    items: st.items.update(
                        st.items.len() - 1,
                        st.items.last() + seq![' '] + t,
                    ),
                    ..st
                }
            } else {
                st
            }
        } else {
            spec_list_close(st)
        }
    } else {
        if spec_is_opener(t) {
            ListScanState { in_list: true, key: i, items: seq![spec_item_text(t)], acc: st.acc }
        } else {
            st
        }
    }
}

/// The scan over all lines from index `i`; the end of input closes any
/// open list.
pub open spec fn spec_list_scan(
    lines: Seq<Seq<char>>,
    i: int,
    st: ListScanState,
) -> Seq<(int, Seq<Seq<char>>)>
    decreases lines.len() - i,
{
    if i < 0 || i >= lines.len() {
        spec_list_close(st).acc
    } else {
        spec_list_scan(lines, i + 1, spec_list_step(lines[i], i, st))
    }
}

/// The list table of a whole document.
pub open spec fn spec_extract_lists(s: Seq<char>) -> Seq<(int, Seq<Seq<char>>)> {
    spec_list_scan(
        spec_split_lines(s),
        0,
        ListScanState { in_list: false, key: 0, items: seq![], acc: seq![] },
    )
}

fn is_opener_line(t: &str) -> (r: bool)
    ensures
        r == spec_is_opener(t@),
{
    if str_starts_with(t, "- ") || str_starts_with(t, "* ") {
        return true;
    }
    let n = t.unicode_len();
    n >= 3 && is_digit(t.get_char(0)) && t.get_char(1) == '.' && t.get_char(2) == ' '
}

fn opener_item_text(t: &str) -> (r: String)
    requires
        spec_is_opener(t@),
    ensures
        r@ == spec_item_text(t@),
{
    proof {
        reveal_strlit("- ");
        reveal_strlit("* ");
    }
    let n = t.unicode_len();
    if str_starts_with(t, "- ") || str_starts_with(t, "* ") {
        String::from_str(trim(substr(t, 2, n)))
    } else {
        String::from_str(trim(substr(t, 3, n)))
    }
}

/// Scan raw text for bullet or numbered list blocks, independent of any
/// syntax tree.
pub fn extract_lists(text: &str) -> (table: ListTable)
    ensures
        table@ == spec_extract_lists(text@),
{
    let lines = split_lines(text);
    let n = lines.len();
    let mut table = ListTable::new();
    let mut in_list = false;
    let mut key: usize = 0;
    let mut items: Vec<String> = Vec::new();
    let mut i: usize = 0;
    proof {
        reveal_strlit("- ");
        reveal_strlit("* ");
        assert(items.deep_view() =~~= Seq::<Seq<char>>::empty());
        assert(ListScanState { in_list: false, key: 0, items: items.deep_view(), acc: table@ }
            =~~= ListScanState { in_list: false, key: 0, items: seq![], acc: seq![] });
    }
    while i < n
        invariant
            i <= n,
            n == lines.len(),
            lines.deep_view() == spec_split_lines(text@),
            !in_list ==> items.len() == 0,
            in_list ==> items.len() > 0,
            spec_extract_lists(text@) == spec_list_scan(
                lines.deep_view(),
                i as int,
                ListScanState {
                    in_list: in_list,
                    key: if in_list {
                        key as int
                    } else {
                        0
                    },
                    items: items.deep_view(),
                    acc: table@,
                },
            ),
        decreases n - i,
    {
        let ghost st0 = ListScanState {
            in_list: in_list,
            key: if in_list {
                key as int
            } else {
                0
            },
            items: items.deep_view(),
            acc: table@,
        };
        let ghost line0 = lines.deep_view()[i as int];
        proof {
            assert(line0 == lines@[i as int]@);
        }
        let line = &lines[i];
        let t = trim(line.as_str());
        let tl = t.unicode_len();
        if in_list {
            if tl == 0 {
                if items.len() > 0 {
                    let done_items = items;
                    items = Vec::new();
                    table.entries.push((key, done_items));
                    proof {
                        assert(table@ =~~= st0.acc.push((st0.key, st0.items)));
                    }
                }
                in_list = false;
                key = 0;
            } else if is_opener_line(t) {
                items.push(opener_item_text(t));
                proof {
                    assert(items.deep_view() =~~= st0.items.push(spec_item_text(spec_trim(
                        line0,
                    ))));
                }
            } else if line.as_str().unicode_len() > 0 && is_space(line.as_str().get_char(0)) {
                let last_idx = items.len() - 1;
                let mut joined = items[last_idx].clone();
                joined.append(" ");
                joined.append(t);
                items.set(last_idx, joined);
                proof {
                    reveal_strlit(" ");
                    assert(" "@ =~= seq![' ']);
                    assert(items.deep_view() =~~= st0.items.update(
                        st0.items.len() - 1,
                        st0.items.last() + seq![' '] + spec_trim(line0),
                    ));
                }
            } else {
                if items.len() > 0 {
                    let done_items = items;
                    items = Vec::new();
                    table.entries.push((key, done_items));
                    proof {
                        assert(table@ =~~= st0.acc.push((st0.key, st0.items)));
                    }
                }
                in_list = false;
                key = 0;
            }
        } else {
            if is_opener_line(t) {
                in_list = true;
                key = i;
                items.push(opener_item_text(t));
                proof {
                    assert(items.deep_view() =~~= seq![spec_item_text(spec_trim(line0))]);
                }
            }
        }
        proof {
            let st1 = ListScanState {
                in_list: in_list,
                key: if in_list {
                    key as int
                } else {
                    0
                },
                items: items.deep_view(),
                acc: table@,
            };
            assert(st1 =~~= spec_list_step(line0, i as int, st0));
        }
        i += 1;
    }
    if in_list && items.len() > 0 {
        let ghost st0 = ListScanState {
            in_list: in_list,
            key: key as int,
            items: items.deep_view(),
            acc: table@,
        };
        table.entries.push((key, items));
        proof {
            assert(table@ =~~= st0.acc.push((st0.key, st0.items)));
        }
    }
    table
}

/// One `<li>` line contributed by a single raw line of a degraded list
/// block: ordered lines split at the first `. `, unordered lines at the
/// bullet marker; anything else contributes nothing.
pub open spec fn spec_list_item_line(t: Seq<char>, is_ordered: bool) -> Seq<char> {
    if t.len() == 0 {
        Seq::empty()
    } else if is_ordered {
        let p = first_match_index(t, ". "@);
        if p < t.len() {
            "<li>"@ + spec_trim(t.subrange(p + 2, t.len() as int)) + "</li>\n"@
        } else {
            Seq::empty()
        }
    } else {
        if match_at(t, "- "@, 0) || match_at(t, "* "@, 0) {
            "<li>"@ + spec_trim(t.subrange(2, t.len() as int)) + "</li>\n"@
        } else {
            Seq::empty()
        }
    }
}

/// The `<li>` lines of all lines of `s` from index `i` on.
pub open spec fn spec_list_items_from(
    lines: Seq<Seq<char>>,
    i: int,
    is_ordered: bool,
) -> Seq<char>
    decreases lines.len() - i,
{
    if i < 0 || i >= lines.len() {
        Seq::empty()
    } else {
        spec_list_item_line(spec_trim(lines[i]), is_ordered) + spec_list_items_from(
            lines,
            i + 1,
            is_ordered,
        )
    }
}

/// The `<li>` lines emitted for a raw list block.
pub open spec fn spec_process_list_items(s: Seq<char>, is_ordered: bool) -> Seq<char> {
    spec_list_items_from(spec_split_lines(s), 0, is_ordered)
}

/// Render the lines of a raw list block as `<li>` elements, splitting
/// each line at its marker.
pub fn process_list_items(text: &str, html: &mut String, is_ordered: bool)
    ensures
        final(html)@ == old(html)@ + spec_process_list_items(text@, is_ordered),
{
    let lines = split_lines(text);
    let n = lines.len();
    let mut i: usize = 0;
    proof {
        reveal_strlit("- ");
        reveal_strlit("* ");
        reveal_strlit(". ");
    }
    while i < n
        invariant
            i <= n,
            n == lines.len(),
            lines.deep_view() == spec_split_lines(text@),
            html@ + spec_list_items_from(lines.deep_view(), i as int, is_ordered) == old(html)@
                + spec_process_list_items(text@, is_ordered),
        decreases n - i,
    {
        proof {
            reveal_strlit("- ");
            reveal_strlit("* ");
            reveal_strlit(". ");
        }
        let ghost line0 = lines.deep_view()[i as int];
        proof {
            assert(line0 == lines@[i as int]@);
        }
        let ghost html0 = html@;
        let t = trim(lines[i].as_str());
        let tl = t.unicode_len();
        if tl == 0 {
        } else if is_ordered {
            match find_str(t, ". ") {
                Some(p) => {
                    proof {
                        lemma_first_match_index_is(t@, ". "@, p as int);
                    }
                    html.append("<li>");
                    html.append(trim(substr(t, p + 2, tl)));
                    html.append("</li>\n");
                    proof {
                        assert(html@ =~= html0 + spec_list_item_line(spec_trim(line0), is_ordered));
                    }
                },
                None => {
                    proof {
                        lemma_first_match_index_is(t@, ". "@, t@.len() as int);
                    }
                },
            }
        } else {
            if str_starts_with(t, "- ") || str_starts_with(t, "* ") {
                html.append("<li>");
                html.append(trim(substr(t, 2, tl)));
                html.append("</li>\n");
                proof {
                    assert(html@ =~= html0 + spec_list_item_line(spec_trim(line0), is_ordered));
                }
            }
        }
        proof {
            assert(html@ + spec_list_items_from(lines.deep_view(), i + 1, is_ordered) =~= html0
                + spec_list_items_from(lines.deep_view(), i as int, is_ordered));
        }
        i += 1;
    }
    proof {
        assert(html@ + Seq::<char>::empty() =~= html@);
    }
}

} // verus!
