//! Character-level utilities over `&str` and `String`, specified against
//! `Seq<char>` views: equality, search, trimming, case folding, line
//! splitting, substring replacement, HTML escaping and decimal formatting.

use vstd::prelude::*;

verus! {

/// The characters treated as blank when a line is trimmed: the ASCII
/// blanks only; other Unicode white space is kept.
pub open spec fn is_space_char(c: char) -> bool {
    c == ' ' || c == '\t' || c == '\r' || c == '\n'
}

pub fn is_space(c: char) -> (r: bool)
    ensures
        r == is_space_char(c),
{
    c == ' ' || c == '\t' || c == '\r' || c == '\n'
}

/// An ASCII decimal digit.
pub open spec fn is_digit_char(c: char) -> bool {
    48 <= c as u32 && c as u32 <= 57
}

pub fn is_digit(c: char) -> (r: bool)
    ensures
        r == is_digit_char(c),
{
    let u = c as u32;
    48 <= u && u <= 57
}

/// ASCII upper-case letters fold to lower case; every other character,
/// non-ASCII letters included, passes through unchanged.
pub open spec fn lower_char(c: char) -> char {
    if 65 <= c as u32 && c as u32 <= 90 {
        ((c as u8) + 32) as char
    } else {
        c
    }
}

pub fn to_lower_char(c: char) -> (r: char)
    ensures
        r == lower_char(c),
{
    let u = c as u32;
    if 65 <= u && u <= 90 {
        ((c as u8) + 32) as char
    } else {
        c
    }
}

/// Relies on `String::push`: it appends the given character.
#[verifier::external_body]
pub fn push_char(s: &mut String, c: char)
    ensures
        final(s)@ == old(s)@ + seq![c],
{
    s.push(c);
}

pub fn str_eq(a: &str, b: &str) -> (r: bool)
    ensures
        r == (a@ == b@),
{
    let la = a.unicode_len();
    let lb = b.unicode_len();
    if la != lb {
        return false;
    }
    let mut i: usize = 0;
    while i < la
        invariant
            i <= la,
            forall|j: int| 0 <= j < i ==> a@[j] == b@[j],
        decreases la - i,
    {
        if a.get_char(i) != b.get_char(i) {
            return false;
        }
        i += 1;
    }
    proof {
        assert(a@ =~= b@);
    }
    true
}

/// The pattern `p` occurs in `s` at position `i`.
pub open spec fn match_at(s: Seq<char>, p: Seq<char>, i: int) -> bool {
    0 <= i && i + p.len() <= s.len() && s.subrange(i, i + p.len() as int) == p
}

pub fn match_at_exec(s: &str, p: &str, at: usize) -> (r: bool)
    ensures
        r == match_at(s@, p@, at as int),
{
    let ls = s.unicode_len();
    let lp = p.unicode_len();
    if at > ls || lp > ls - at {
        return false;
    }
    let mut j: usize = 0;
    while j < lp
        invariant
            j <= lp,
            at + lp <= ls,
            forall|k: int| 0 <= k < j ==> s@[at + k] == p@[k],
        decreases lp - j,
    {
        if s.get_char(at + j) != p.get_char(j) {
            proof {
                assert(s@.subrange(at as int, at + lp as int) != p@) by {
                    if s@.subrange(at as int, at + lp as int) == p@ {
                        assert(s@.subrange(at as int, at + lp as int)[j as int] == s@[at + j]);
                    }
                }
            }
            return false;
        }
        j += 1;
    }
    proof {
        assert(s@.subrange(at as int, at + lp as int) =~= p@);
    }
    true
}

pub fn str_starts_with(s: &str, p: &str) -> (r: bool)
    ensures
        r == match_at(s@, p@, 0),
{
    match_at_exec(s, p, 0)
}

pub fn str_ends_with(s: &str, p: &str) -> (r: bool)
    ensures
        r == (p@.len() <= s@.len() && match_at(s@, p@, s@.len() - p@.len())),
{
    let ls = s.unicode_len();
    let lp = p.unicode_len();
    if lp > ls {
        return false;
    }
    match_at_exec(s, p, ls - lp)
}

/// First occurrence of `p` in `s` at or after `from`, if any.
pub fn find_str_from(s: &str, p: &str, from: usize) -> (r: Option<usize>)
    ensures
        r matches Some(i) ==> from <= i && match_at(s@, p@, i as int) && forall|j: int|
            from <= j < i ==> !match_at(s@, p@, j),
        r is None ==> forall|j: int| from <= j ==> !match_at(s@, p@, j),
{
    let ls = s.unicode_len();
    if from > ls {
        return None;
    }
    let mut i: usize = from;
    while i < ls
        invariant
            from <= i <= ls,
            forall|j: int| from <= j < i ==> !match_at(s@, p@, j),
        decreases ls - i,
    {
        if match_at_exec(s, p, i) {
            return Some(i);
        }
        i += 1;
    }
    if match_at_exec(s, p, ls) {
        return Some(ls);
    }
    proof {
        assert forall|j: int| from <= j implies !match_at(s@, p@, j) by {
            if j > s@.len() {
                assert(!match_at(s@, p@, j));
            }
        }
    }
    None
}

/// The pattern `p` occurs somewhere in `s`.
pub open spec fn contains_sub(s: Seq<char>, p: Seq<char>) -> bool {
    exists|i: int| match_at(s, p, i)
}

pub fn contains_str(s: &str, p: &str) -> (r: bool)
    ensures
        r == contains_sub(s@, p@),
{
    match find_str_from(s, p, 0) {
        Some(i) => {
            proof {
                assert(match_at(s@, p@, i as int));
            }
            true
        },
        None => false,
    }
}

pub fn find_str(s: &str, p: &str) -> (r: Option<usize>)
    ensures
        r matches Some(i) ==> match_at(s@, p@, i as int) && forall|j: int|
            0 <= j < i ==> !match_at(s@, p@, j),
        r is None ==> forall|j: int| !match_at(s@, p@, j),
{
    find_str_from(s, p, 0)
}

/// Last occurrence of `p` in `s` strictly before position `before`, if any.
pub fn rfind_str_before(s: &str, p: &str, before: usize) -> (r: Option<usize>)
    ensures
        r matches Some(i) ==> i < before && match_at(s@, p@, i as int) && forall|j: int|
            i < j < before ==> !match_at(s@, p@, j),
        r is None ==> forall|j: int| 0 <= j < before ==> !match_at(s@, p@, j),
{
    let mut i: usize = before;
    while i > 0
        invariant
            i <= before,
            forall|j: int| i <= j < before ==> !match_at(s@, p@, j),
        decreases i,
    {
        i -= 1;
        if match_at_exec(s, p, i) {
            return Some(i);
        }
    }
    None
}

/// Index of the last occurrence of `p` strictly before position `before`,
/// or `-1` when there is none.
pub open spec fn last_match_before(s: Seq<char>, p: Seq<char>, before: int) -> int
    decreases before,
{
    if before <= 0 {
        -1
    } else if match_at(s, p, before - 1) {
        before - 1
    } else {
        last_match_before(s, p, before - 1)
    }
}

pub proof fn lemma_last_match_before_is(s: Seq<char>, p: Seq<char>, before: int, k: int)
    requires
        0 <= before,
        k == -1 ==> forall|j: int| 0 <= j < before ==> !match_at(s, p, j),
        k >= 0 ==> 0 <= k < before && match_at(s, p, k) && forall|j: int|
            k < j < before ==> !match_at(s, p, j),
        k >= -1,
    ensures
        last_match_before(s, p, before) == k,
    decreases before,
{
    if before == 0 {
    } else if match_at(s, p, before - 1) {
        assert(k == before - 1);
    } else {
        if k == before - 1 {
            assert(false);
        }
        lemma_last_match_before_is(s, p, before - 1, k);
    }
}

/// Index of the last occurrence of `c` in `s`, or `-1` when none.
pub open spec fn last_index_of(s: Seq<char>, c: char) -> int
    decreases s.len(),
{
    if s.len() == 0 {
        -1
    } else if s[s.len() - 1] == c {
        s.len() - 1
    } else {
        last_index_of(s.drop_last(), c)
    }
}

proof fn lemma_last_index_of_is(s: Seq<char>, c: char, k: int)
    requires
        k == -1 ==> forall|j: int| 0 <= j < s.len() ==> s[j] != c,
        k >= 0 ==> 0 <= k < s.len() && s[k] == c && forall|j: int| k < j < s.len() ==> s[j] != c,
        k >= -1,
    ensures
        last_index_of(s, c) == k,
    decreases s.len(),
{
    if s.len() == 0 {
    } else if s[s.len() - 1] == c {
        assert(k == s.len() - 1);
    } else {
        if k == s.len() - 1 {
            assert(false);
        }
        assert forall|j: int| 0 <= j < s.drop_last().len() implies s.drop_last()[j] == s[j] by {}
        lemma_last_index_of_is(s.drop_last(), c, k);
    }
}

/// Last index strictly before `before` whose character is `c`, if any.
pub fn rfind_char_before(s: &str, c: char, before: usize) -> (r: Option<usize>)
    requires
        before <= s@.len(),
    ensures
        r matches Some(i) ==> last_index_of(s@.subrange(0, before as int), c) == i as int && i
            < before,
        r is None ==> last_index_of(s@.subrange(0, before as int), c) == -1,
{
    let mut b: usize = before;
    while b > 0
        invariant
            b <= before,
            forall|j: int| b <= j < before ==> s@[j] != c,
        decreases b,
    {
        b -= 1;
        if s.get_char(b) == c {
            proof {
                let pre = s@.subrange(0, before as int);
                assert forall|j: int| b < j < pre.len() implies pre[j] != c by {
                    assert(pre[j] == s@[j]);
                }
                lemma_last_index_of_is(pre, c, b as int);
            }
            return Some(b);
        }
    }
    proof {
        let pre = s@.subrange(0, before as int);
        assert forall|j: int| 0 <= j < pre.len() implies pre[j] != c by {
            assert(pre[j] == s@[j]);
        }
        lemma_last_index_of_is(pre, c, -1);
    }
    None
}

/// First index at or after `from` whose character is `c`, or the length of
/// `s` when none is.
pub fn find_char_from(s: &str, c: char, from: usize) -> (r: usize)
    requires
        from <= s@.len(),
    ensures
        from <= r <= s@.len(),
        r < s@.len() ==> s@[r as int] == c,
        forall|j: int| from <= j < r ==> s@[j] != c,
{
    let ls = s.unicode_len();
    let mut i: usize = from;
    while i < ls
        invariant
            from <= i <= ls,
            forall|j: int| from <= j < i ==> s@[j] != c,
        decreases ls - i,
    {
        if s.get_char(i) == c {
            return i;
        }
        i += 1;
    }
    i
}

pub fn substr(s: &str, a: usize, b: usize) -> (r: &str)
    requires
        a <= b <= s@.len(),
    ensures
        r@ == s@.subrange(a as int, b as int),
{
    s.substring_char(a, b)
}

/// The prefix of `s` with leading blank characters removed.
pub open spec fn spec_trim_start(s: Seq<char>) -> Seq<char>
    decreases s.len(),
{
    if s.len() > 0 && is_space_char(s[0]) {
        spec_trim_start(s.drop_first())
    } else {
        s
    }
}

/// `s` with trailing blank characters removed.
pub open spec fn spec_trim_end(s: Seq<char>) -> Seq<char>
    decreases s.len(),
{
    if s.len() > 0 && is_space_char(s[s.len() - 1]) {
        spec_trim_end(s.drop_last())
    } else {
        s
    }
}

/// `s` with leading and trailing blank characters removed.
pub open spec fn spec_trim(s: Seq<char>) -> Seq<char> {
    spec_trim_end(spec_trim_start(s))
}

proof fn lemma_trim_start_subrange(s: Seq<char>, k: int)
    requires
        0 <= k <= s.len(),
        forall|j: int| 0 <= j < k ==> is_space_char(s[j]),
        k < s.len() ==> !is_space_char(s[k]),
    ensures
        spec_trim_start(s) == s.subrange(k, s.len() as int),
    decreases k,
{
    if k == 0 {
        assert(s.subrange(0, s.len() as int) =~= s);
    } else {
        lemma_trim_start_subrange(s.drop_first(), k - 1);
        assert(s.drop_first().subrange(k - 1, s.drop_first().len() as int) =~= s.subrange(
            k,
            s.len() as int,
        ));
    }
}

proof fn lemma_trim_end_subrange(s: Seq<char>, k: int)
    requires
        0 <= k <= s.len(),
        forall|j: int| k <= j < s.len() ==> is_space_char(s[j]),
        k > 0 ==> !is_space_char(s[k - 1]),
    ensures
        spec_trim_end(s) == s.subrange(0, k),
    decreases s.len() - k,
{
    if k == s.len() {
        assert(s.subrange(0, k) =~= s);
    } else {
        assert(s.drop_last() =~= s.subrange(0, s.len() - 1));
        lemma_trim_end_subrange(s.drop_last(), k);
        assert(s.drop_last().subrange(0, k) =~= s.subrange(0, k));
    }
}

pub fn trim(s: &str) -> (r: &str)
    ensures
        r@ == spec_trim(s@),
{
    let ls = s.unicode_len();
    let mut a: usize = 0;
    while a < ls && is_space(s.get_char(a))
        invariant
            a <= ls,
            forall|j: int| 0 <= j < a ==> is_space_char(s@[j]),
        decreases ls - a,
    {
        a += 1;
    }
    let mut b: usize = ls;
    while b > a && is_space(s.get_char(b - 1))
        invariant
            a <= b <= ls,
            forall|j: int| b <= j < ls ==> is_space_char(s@[j]),
        decreases b,
    {
        b -= 1;
    }
    proof {
        lemma_trim_start_subrange(s@, a as int);
        let t = s@.subrange(a as int, s@.len() as int);
        if b == a {
            lemma_trim_end_subrange(t, 0);
        } else {
            lemma_trim_end_subrange(t, b - a);
        }
        assert(t.subrange(0, b - a) =~= s@.subrange(a as int, b as int));
    }
    substr(s, a, b)
}

/// `s` with every leading repetition of `p` removed.
pub open spec fn spec_strip_prefix_repeat(s: Seq<char>, p: Seq<char>) -> Seq<char>
    decreases s.len(),
{
    if p.len() > 0 && match_at(s, p, 0) {
        spec_strip_prefix_repeat(s.subrange(p.len() as int, s.len() as int), p)
    } else {
        s
    }
}

pub fn strip_prefix_repeat<'a>(s: &'a str, p: &str) -> (r: &'a str)
    requires
        p@.len() > 0,
    ensures
        r@ == spec_strip_prefix_repeat(s@, p@),
{
    let lp = p.unicode_len();
    let mut cur = s;
    let mut n = s.unicode_len();
    while match_at_exec(cur, p, 0)
        invariant
            n == cur@.len(),
            lp == p@.len(),
            lp > 0,
            spec_strip_prefix_repeat(s@, p@) == spec_strip_prefix_repeat(cur@, p@),
        decreases n,
    {
        cur = substr(cur, lp, n);
        n = n - lp;
    }
    cur
}

/// `s` with every trailing repetition of `p` removed.
pub open spec fn spec_strip_suffix_repeat(s: Seq<char>, p: Seq<char>) -> Seq<char>
    decreases s.len(),
{
    if p.len() > 0 && p.len() <= s.len() && match_at(s, p, s.len() - p.len()) {
        spec_strip_suffix_repeat(s.subrange(0, s.len() - p.len()), p)
    } else {
        s
    }
}

pub fn strip_suffix_repeat<'a>(s: &'a str, p: &str) -> (r: &'a str)
    requires
        p@.len() > 0,
    ensures
        r@ == spec_strip_suffix_repeat(s@, p@),
{
    let lp = p.unicode_len();
    let mut cur = s;
    let mut n = s.unicode_len();
    while n >= lp && match_at_exec(cur, p, n - lp)
        invariant
            n == cur@.len(),
            lp == p@.len(),
            lp > 0,
            spec_strip_suffix_repeat(s@, p@) == spec_strip_suffix_repeat(cur@, p@),
        decreases n,
    {
        cur = substr(cur, 0, n - lp);
        n = n - lp;
    }
    cur
}

/// The suffix of `s` after all leading copies of `c`.
pub open spec fn spec_strip_start(s: Seq<char>, c: char) -> Seq<char>
    decreases s.len(),
{
    if s.len() > 0 && s[0] == c {
        spec_strip_start(s.drop_first(), c)
    } else {
        s
    }
}

/// `s` without its trailing copies of `c`.
pub open spec fn spec_strip_end(s: Seq<char>, c: char) -> Seq<char>
    decreases s.len(),
{
    if s.len() > 0 && s[s.len() - 1] == c {
        spec_strip_end(s.drop_last(), c)
    } else {
        s
    }
}

/// `s` without leading and trailing copies of `c`.
pub open spec fn spec_strip_both(s: Seq<char>, c: char) -> Seq<char> {
    spec_strip_end(spec_strip_start(s, c), c)
}

proof fn lemma_strip_start_subrange(s: Seq<char>, c: char, k: int)
    requires
        0 <= k <= s.len(),
        forall|j: int| 0 <= j < k ==> s[j] == c,
        k < s.len() ==> s[k] != c,
    ensures
        spec_strip_start(s, c) == s.subrange(k, s.len() as int),
    decreases k,
{
    if k == 0 {
        assert(s.subrange(0, s.len() as int) =~= s);
    } else {
        lemma_strip_start_subrange(s.drop_first(), c, k - 1);
        assert(s.drop_first().subrange(k - 1, s.drop_first().len() as int) =~= s.subrange(
            k,
            s.len() as int,
        ));
    }
}

proof fn lemma_strip_end_subrange(s: Seq<char>, c: char, k: int)
    requires
        0 <= k <= s.len(),
        forall|j: int| k <= j < s.len() ==> s[j] == c,
        k > 0 ==> s[k - 1] != c,
    ensures
        spec_strip_end(s, c) == s.subrange(0, k),
    decreases s.len() - k,
{
    if k == s.len() {
        assert(s.subrange(0, k) =~= s);
    } else {
        assert(s.drop_last() =~= s.subrange(0, s.len() - 1));
        lemma_strip_end_subrange(s.drop_last(), c, k);
        assert(s.drop_last().subrange(0, k) =~= s.subrange(0, k));
    }
}

pub fn strip_start(s: &str, c: char) -> (r: &str)
    ensures
        r@ == spec_strip_start(s@, c),
{
    let ls = s.unicode_len();
    let mut a: usize = 0;
    while a < ls && s.get_char(a) == c
        invariant
            a <= ls,
            forall|j: int| 0 <= j < a ==> s@[j] == c,
        decreases ls - a,
    {
        a += 1;
    }
    proof {
        lemma_strip_start_subrange(s@, c, a as int);
    }
    substr(s, a, ls)
}

pub fn strip_end(s: &str, c: char) -> (r: &str)
    ensures
        r@ == spec_strip_end(s@, c),
{
    let ls = s.unicode_len();
    let mut b: usize = ls;
    while b > 0 && s.get_char(b - 1) == c
        invariant
            b <= ls,
            forall|j: int| b <= j < ls ==> s@[j] == c,
        decreases b,
    {
        b -= 1;
    }
    proof {
        lemma_strip_end_subrange(s@, c, b as int);
    }
    substr(s, 0, b)
}

pub fn strip_both(s: &str, c: char) -> (r: &str)
    ensures
        r@ == spec_strip_both(s@, c),
{
    strip_end(strip_start(s, c), c)
}

proof fn lemma_trim_start_len(s: Seq<char>)
    ensures
        spec_trim_start(s).len() <= s.len(),
    decreases s.len(),
{
    if s.len() > 0 && is_space_char(s[0]) {
        lemma_trim_start_len(s.drop_first());
    }
}

proof fn lemma_trim_end_len(s: Seq<char>)
    ensures
        spec_trim_end(s).len() <= s.len(),
    decreases s.len(),
{
    if s.len() > 0 && is_space_char(s[s.len() - 1]) {
        lemma_trim_end_len(s.drop_last());
    }
}

/// A non-empty sequence that trims to itself has no blank character at
/// either end.
pub proof fn lemma_trim_stable_ends(s: Seq<char>)
    requires
        spec_trim(s) == s,
        s.len() > 0,
    ensures
        !is_space_char(s[0]),
        !is_space_char(s[s.len() - 1]),
{
    if is_space_char(s[0]) {
        lemma_trim_start_len(s.drop_first());
        lemma_trim_end_len(spec_trim_start(s));
        assert(spec_trim(s).len() < s.len());
    }
    assert(spec_trim_start(s) == s);
    if is_space_char(s[s.len() - 1]) {
        lemma_trim_end_len(s.drop_last());
        assert(spec_trim_end(s).len() < s.len());
    }
}

/// A sequence with no blank character at either end trims to itself.
pub proof fn lemma_trim_id(s: Seq<char>)
    requires
        s.len() > 0 ==> !is_space_char(s[0]),
        s.len() > 0 ==> !is_space_char(s[s.len() - 1]),
    ensures
        spec_trim(s) == s,
{
    assert(spec_trim_start(s) == s);
    assert(spec_trim_end(s) == s);
}

/// Character-wise ASCII lower-casing of a whole sequence; non-ASCII
/// characters are kept as they are.
pub open spec fn spec_to_lower(s: Seq<char>) -> Seq<char> {
    s.map_values(|c: char| lower_char(c))
}

pub fn to_lower(s: &str) -> (r: String)
    ensures
        r@ == spec_to_lower(s@),
{
    let ls = s.unicode_len();
    let mut out = String::new();
    let mut i: usize = 0;
    while i < ls
        invariant
            i <= ls,
            out@ == spec_to_lower(s@.subrange(0, i as int)),
        decreases ls - i,
    {
        push_char(&mut out, to_lower_char(s.get_char(i)));
        proof {
            assert(s@.subrange(0, i + 1).map_values(|c: char| lower_char(c)) =~= s@.subrange(
                0,
                i as int,
            ).map_values(|c: char| lower_char(c)) + seq![lower_char(s@[i as int])]);
        }
        i += 1;
    }
    proof {
        assert(s@.subrange(0, ls as int) =~= s@);
    }
    out
}

/// Index of the first `c` in `s`, or the length of `s` when none occurs.
pub open spec fn first_index_of(s: Seq<char>, c: char) -> int
    decreases s.len(),
{
    if s.len() == 0 {
        0
    } else if s[0] == c {
        0
    } else {
        1 + first_index_of(s.drop_first(), c)
    }
}

pub proof fn lemma_first_index_of(s: Seq<char>, c: char)
    ensures
        0 <= first_index_of(s, c) <= s.len(),
        first_index_of(s, c) < s.len() ==> s[first_index_of(s, c)] == c,
        forall|j: int| 0 <= j < first_index_of(s, c) ==> s[j] != c,
    decreases s.len(),
{
    if s.len() > 0 && s[0] != c {
        lemma_first_index_of(s.drop_first(), c);
        assert forall|j: int| 0 <= j < first_index_of(s, c) implies s[j] != c by {
            if j > 0 {
                assert(s.drop_first()[j - 1] == s[j]);
            }
        }
    }
}

pub proof fn lemma_first_index_of_is(s: Seq<char>, c: char, k: int)
    requires
        0 <= k <= s.len(),
        forall|j: int| 0 <= j < k ==> s[j] != c,
        k < s.len() ==> s[k] == c,
    ensures
        first_index_of(s, c) == k,
    decreases k,
{
    if s.len() == 0 {
    } else if k == 0 {
    } else {
        lemma_first_index_of_is(s.drop_first(), c, k - 1);
    }
}

/// A line with a trailing carriage return removed, as `str::lines` does.
pub open spec fn strip_cr(l: Seq<char>) -> Seq<char> {
    if l.len() > 0 && l[l.len() - 1] == '\r' {
        l.drop_last()
    } else {
        l
    }
}

/// The lines of `s`, split on `'\n'` with a trailing `'\r'` removed from
/// each, and no final empty line after a terminating newline.
pub open spec fn spec_split_lines(s: Seq<char>) -> Seq<Seq<char>>
    decreases s.len(),
    via spec_split_lines_decreases
{
    if s.len() == 0 {
        seq![]
    } else {
        let i = first_index_of(s, '\n');
        if i == s.len() {
            seq![strip_cr(s)]
        } else {
            seq![strip_cr(s.subrange(0, i))] + spec_split_lines(
                s.subrange(i + 1, s.len() as int),
            )
        }
    }
}

#[via_fn]
proof fn spec_split_lines_decreases(s: Seq<char>) {
    lemma_first_index_of(s, '\n');
}

#[verifier::rlimit(50)]
pub fn split_lines(s: &str) -> (r: Vec<String>)
    ensures
        r.deep_view() == spec_split_lines(s@),
{
    let ls = s.unicode_len();
    let mut out: Vec<String> = Vec::new();
    let mut pos: usize = 0;
    proof {
        assert(s@.subrange(0, ls as int) =~= s@);
        assert(out.deep_view() =~~= Seq::<Seq<char>>::empty());
        assert(Seq::<Seq<char>>::empty() + spec_split_lines(s@) =~~= spec_split_lines(s@));
    }
    while pos < ls
        invariant
            pos <= ls,
            spec_split_lines(s@) =~~= out.deep_view() + spec_split_lines(
                s@.subrange(pos as int, ls as int),
            ),
        decreases ls - pos,
    {
        let ghost prev = out.deep_view();
        let ghost rem = s@.subrange(pos as int, ls as int);
        let nl = find_char_from(s, '\n', pos);
        let end = if nl > pos && s.get_char(nl - 1) == '\r' {
            nl - 1
        } else {
            nl
        };
        let line = substr(s, pos, end);
        out.push(String::from_str(line));
        proof {
            lemma_first_index_of_is(rem, '\n', nl - pos);
            assert(out.deep_view() =~~= prev + seq![line@]);
            if nl == ls {
                assert(strip_cr(rem) =~= line@);
                assert(spec_split_lines(rem) =~~= seq![line@]);
            } else {
                assert(rem.subrange(0, nl - pos) =~= s@.subrange(pos as int, nl as int));
                assert(strip_cr(rem.subrange(0, nl - pos)) =~= line@);
                assert(rem.subrange(nl - pos + 1, rem.len() as int) =~= s@.subrange(
                    nl + 1,
                    ls as int,
                ));
                assert(spec_split_lines(rem) =~~= seq![line@] + spec_split_lines(
                    s@.subrange(nl + 1, ls as int),
                ));
            }
        }
        if nl == ls {
            pos = ls;
            proof {
                assert(s@.subrange(ls as int, ls as int) =~= Seq::<char>::empty());
                assert(spec_split_lines(s@) =~~= out.deep_view() + spec_split_lines(
                    s@.subrange(pos as int, ls as int),
                ));
            }
        } else {
            pos = nl + 1;
            proof {
                assert(spec_split_lines(s@) =~~= out.deep_view() + spec_split_lines(
                    s@.subrange(pos as int, ls as int),
                ));
            }
        }
    }
    proof {
        assert(s@.subrange(pos as int, ls as int) =~= Seq::<char>::empty());
        assert(spec_split_lines(s@) =~~= out.deep_view());
    }
    out
}

/// Index of the first occurrence of `p` in `s`, or the length of `s` when
/// `p` does not occur.
pub open spec fn first_match_index(s: Seq<char>, p: Seq<char>) -> int
    decreases s.len(),
    via first_match_index_decreases
{
    if p.len() > s.len() {
        s.len() as int
    } else if match_at(s, p, 0) {
        0
    } else {
        1 + first_match_index(s.drop_first(), p)
    }
}

#[via_fn]
proof fn first_match_index_decreases(s: Seq<char>, p: Seq<char>) {
    if p.len() == 0 {
        assert(s.subrange(0, 0) =~= p);
    }
}

proof fn lemma_match_drop_first(s: Seq<char>, p: Seq<char>, j: int)
    requires
        s.len() > 0,
        0 <= j,
    ensures
        match_at(s.drop_first(), p, j) == match_at(s, p, j + 1),
{
    if j + 1 + p.len() <= s.len() {
        assert(s.drop_first().subrange(j, j + p.len() as int) =~= s.subrange(
            j + 1,
            j + 1 + p.len() as int,
        ));
    }
}

pub proof fn lemma_first_match_index(s: Seq<char>, p: Seq<char>)
    requires
        p.len() > 0,
    ensures
        0 <= first_match_index(s, p) <= s.len(),
        first_match_index(s, p) < s.len() ==> match_at(s, p, first_match_index(s, p)),
        forall|j: int| 0 <= j < first_match_index(s, p) ==> !match_at(s, p, j),
        first_match_index(s, p) == s.len() ==> forall|j: int| !match_at(s, p, j),
    decreases s.len(),
{
    if p.len() > s.len() {
        assert forall|j: int| !match_at(s, p, j) by {}
    } else if match_at(s, p, 0) {
    } else {
        lemma_first_match_index(s.drop_first(), p);
        let f = first_match_index(s, p);
        assert forall|j: int| 0 <= j < f implies !match_at(s, p, j) by {
            if j > 0 {
                lemma_match_drop_first(s, p, j - 1);
            }
        }
        if f < s.len() {
            lemma_match_drop_first(s, p, f - 1);
        } else {
            assert forall|j: int| !match_at(s, p, j) by {
                if j > 0 {
                    lemma_match_drop_first(s, p, j - 1);
                }
            }
        }
    }
}

pub proof fn lemma_first_match_index_is(s: Seq<char>, p: Seq<char>, k: int)
    requires
        p.len() > 0,
        0 <= k <= s.len(),
        forall|j: int| 0 <= j < k ==> !match_at(s, p, j),
        k < s.len() ==> match_at(s, p, k),
    ensures
        first_match_index(s, p) == k || (k == s.len() && first_match_index(s, p) == s.len()),
        (k < s.len() ==> first_match_index(s, p) == k),
{
    lemma_first_match_index(s, p);
    let f = first_match_index(s, p);
    if k < s.len() {
        if f < k {
        } else if f > k {
            assert(!match_at(s, p, k));
        }
    } else {
        if f < s.len() {
            assert(!match_at(s, p, f));
        }
    }
}

/// `s` with every occurrence of `p` replaced by `rep`, scanning left to
/// right without revisiting replaced text; when `p` is empty, `s` itself.
pub open spec fn spec_replace(s: Seq<char>, p: Seq<char>, rep: Seq<char>) -> Seq<char>
    decreases s.len(),
    via spec_replace_decreases
{
    if p.len() == 0 {
        s
    } else {
        let i = first_match_index(s, p);
        if i == s.len() {
            s
        } else {
            s.subrange(0, i) + rep + spec_replace(
                s.subrange(i + p.len() as int, s.len() as int),
                p,
                rep,
            )
        }
    }
}

#[via_fn]
proof fn spec_replace_decreases(s: Seq<char>, p: Seq<char>, rep: Seq<char>) {
    if p.len() > 0 {
        lemma_first_match_index(s, p);
    }
}

pub proof fn lemma_match_in_suffix(s: Seq<char>, p: Seq<char>, a: int, k: int)
    requires
        0 <= a <= s.len(),
        0 <= k,
    ensures
        match_at(s.subrange(a, s.len() as int), p, k) == match_at(s, p, a + k),
{
    if a + k + p.len() <= s.len() {
        assert(s.subrange(a, s.len() as int).subrange(k, k + p.len() as int) =~= s.subrange(
            a + k,
            a + k + p.len() as int,
        ));
    }
}

pub fn replace_all(s: &str, p: &str, rep: &str) -> (r: String)
    ensures
        r@ == spec_replace(s@, p@, rep@),
{
    let lp = p.unicode_len();
    if lp == 0 {
        return String::from_str(s);
    }
    let ls = s.unicode_len();
    let mut out = String::new();
    let mut pos: usize = 0;
    let mut done = false;
    proof {
        assert(s@.subrange(0, ls as int) =~= s@);
        assert(out@ + spec_replace(s@, p@, rep@) =~= spec_replace(s@, p@, rep@));
    }
    while !done
        invariant
            pos <= ls,
            lp == p@.len(),
            lp > 0,
            !done ==> spec_replace(s@, p@, rep@) == out@ + spec_replace(
                s@.subrange(pos as int, ls as int),
                p@,
                rep@,
            ),
            done ==> spec_replace(s@, p@, rep@) == out@,
        decreases ls - pos + (if done {
            0int
        } else {
            1int
        }),
    {
        let ghost rem = s@.subrange(pos as int, ls as int);
        match find_str_from(s, p, pos) {
            Some(i) => {
                proof {
                    assert forall|j: int| 0 <= j < i - pos implies !match_at(rem, p@, j) by {
                        lemma_match_in_suffix(s@, p@, pos as int, j);
                    }
                    lemma_match_in_suffix(s@, p@, pos as int, i - pos);
                    lemma_first_match_index_is(rem, p@, i - pos);
                    assert(rem.subrange(0, i - pos) =~= s@.subrange(pos as int, i as int));
                    assert(rem.subrange(i - pos + lp as int, rem.len() as int) =~= s@.subrange(
                        i + lp as int,
                        ls as int,
                    ));
                }
                let ghost out0 = out@;
                let piece = substr(s, pos, i);
                out.append(piece);
                out.append(rep);
                proof {
                    assert(spec_replace(rem, p@, rep@) == rem.subrange(0, i - pos) + rep@
                        + spec_replace(s@.subrange(i + lp as int, ls as int), p@, rep@));
                    assert(out0 + spec_replace(rem, p@, rep@) =~= out@ + spec_replace(
                        s@.subrange(i + lp as int, ls as int),
                        p@,
                        rep@,
                    ));
                }
                pos = i + lp;
            },
            None => {
                proof {
                    assert forall|j: int| 0 <= j implies !match_at(rem, p@, j) by {
                        lemma_match_in_suffix(s@, p@, pos as int, j);
                    }
                    lemma_first_match_index_is(rem, p@, rem.len() as int);
                    assert(spec_replace(rem, p@, rep@) == rem);
                }
                let piece = substr(s, pos, ls);
                out.append(piece);
                pos = ls;
                done = true;
            },
        }
    }
    out
}

/// How a single character is written inside an escaped HTML code body.
pub open spec fn escape_char(c: char) -> Seq<char> {
    if c == '&' {
        "&amp;"@
    } else if c == '<' {
        "&lt;"@
    } else if c == '>' {
        "&gt;"@
    } else if c == '"' {
        "&quot;"@
    } else if c == '\'' {
        "&#39;"@
    } else {
        seq![c]
    }
}

/// Character-wise HTML escaping of the five special characters.
pub open spec fn spec_escape_html(s: Seq<char>) -> Seq<char>
    decreases s.len(),
{
    if s.len() == 0 {
        Seq::empty()
    } else {
        escape_char(s[0]) + spec_escape_html(s.drop_first())
    }
}

pub proof fn lemma_escape_snoc(t: Seq<char>, c: char)
    ensures
        spec_escape_html(t.push(c)) == spec_escape_html(t) + escape_char(c),
    decreases t.len(),
{
    if t.len() == 0 {
        assert(t.push(c)[0] == c);
        assert(t.push(c).drop_first() =~= Seq::<char>::empty());
        assert(spec_escape_html(Seq::<char>::empty()) == Seq::<char>::empty());
        assert(spec_escape_html(t.push(c)) =~= escape_char(c));
        assert(spec_escape_html(t) + escape_char(c) =~= escape_char(c));
    } else {
        assert(t.push(c).drop_first() =~= t.drop_first().push(c));
        lemma_escape_snoc(t.drop_first(), c);
        assert(spec_escape_html(t.push(c)) =~= spec_escape_html(t) + escape_char(c));
    }
}

pub fn escape_html(s: &str) -> (r: String)
    ensures
        r@ == spec_escape_html(s@),
{
    let ls = s.unicode_len();
    let mut out = String::new();
    let mut i: usize = 0;
    while i < ls
        invariant
            i <= ls,
            out@ == spec_escape_html(s@.subrange(0, i as int)),
        decreases ls - i,
    {
        let c = s.get_char(i);
        if c == '&' {
            out.append("&amp;");
        } else if c == '<' {
            out.append("&lt;");
        } else if c == '>' {
            out.append("&gt;");
        } else if c == '"' {
            out.append("&quot;");
        } else if c == '\'' {
            out.append("&#39;");
        } else {
            push_char(&mut out, c);
        }
        proof {
            assert(s@.subrange(0, i + 1) =~= s@.subrange(0, i as int).push(s@[i as int]));
            lemma_escape_snoc(s@.subrange(0, i as int), s@[i as int]);
        }
        i += 1;
    }
    proof {
        assert(s@.subrange(0, ls as int) =~= s@);
    }
    out
}

/// Law: an escaped code body never holds a raw `<`, `>`, `"` or `'`:
/// every special character is written as its entity, so `<` always
/// leaves as `&lt;`.
pub proof fn lemma_escape_no_raw_specials(s: Seq<char>)
    ensures
        forall|i: int|
            0 <= i < spec_escape_html(s).len() ==> #[trigger] spec_escape_html(s)[i] != '<'
                && spec_escape_html(s)[i] != '>' && spec_escape_html(s)[i] != '"'
                && spec_escape_html(s)[i] != '\'',
    decreases s.len(),
{
    reveal_strlit("&amp;");
    reveal_strlit("&lt;");
    reveal_strlit("&gt;");
    reveal_strlit("&quot;");
    reveal_strlit("&#39;");
    if s.len() == 0 {
    } else {
        lemma_escape_no_raw_specials(s.drop_first());
        let head = escape_char(s[0]);
        assert forall|j: int| 0 <= j < head.len() implies head[j] != '<' && head[j] != '>'
            && head[j] != '"' && head[j] != '\'' by {}
        assert forall|i: int|
            0 <= i < spec_escape_html(s).len() implies #[trigger] spec_escape_html(s)[i] != '<'
            && spec_escape_html(s)[i] != '>' && spec_escape_html(s)[i] != '"'
            && spec_escape_html(s)[i] != '\'' by {
            if i < head.len() {
                assert(spec_escape_html(s)[i] == head[i]);
            } else {
                assert(spec_escape_html(s)[i] == spec_escape_html(s.drop_first())[i - head.len()]);
            }
        }
    }
}

/// The character for a single decimal digit.
pub open spec fn digit_char(d: nat) -> char {
    ((48 + d) as u8) as char
}

/// The decimal digits of `n`, most significant first.
pub open spec fn spec_digits(n: nat) -> Seq<char>
    decreases n,
{
    if n < 10 {
        seq![digit_char(n)]
    } else {
        spec_digits(n / 10) + seq![digit_char(n % 10)]
    }
}

fn digit_to_char(d: usize) -> (c: char)
    requires
        d < 10,
    ensures
        c == digit_char(d as nat),
{
    (48 + d as u8) as char
}

pub fn usize_to_string(n: usize) -> (r: String)
    ensures
        r@ == spec_digits(n as nat),
    decreases n,
{
    if n < 10 {
        let mut s = String::new();
        push_char(&mut s, digit_to_char(n));
        proof {
            assert(s@ =~= spec_digits(n as nat));
        }
        s
    } else {
        let mut s = usize_to_string(n / 10);
        push_char(&mut s, digit_to_char(n % 10));
        proof {
            assert(s@ =~= spec_digits(n as nat));
        }
        s
    }
}

} // verus!
