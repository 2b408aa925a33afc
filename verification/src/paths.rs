//! Resolution of a requested document path to a Markdown file name under
//! the content root, with a traversal guard: a cleaned path that holds a
//! `..` segment or begins with a slash is rejected, so the resolved name
//! is always a relative path that stays under the root.

use vstd::prelude::*;
use crate::error::RendererError;
use crate::text::{
    match_at, spec_strip_start, spec_strip_end, spec_strip_prefix_repeat, strip_start, strip_end,
    strip_prefix_repeat, match_at_exec,
};

verus! {

/// The requested path after cleaning: leading slashes, then leading
/// `blog/` prefixes, then trailing slashes are removed.
pub open spec fn spec_clean_path(s: Seq<char>) -> Seq<char> {
    spec_strip_end(spec_strip_prefix_repeat(spec_strip_start(s, '/'), "blog/"@), '/')
}

/// A `..` path segment stands at position `i` of `s`.
pub open spec fn is_dotdot_at(s: Seq<char>, i: int) -> bool {
    match_at(s, ".."@, i) && (i == 0 || s[i - 1] == '/') && (i + 2 == s.len() || s[i + 2] == '/')
}

/// The cleaned path holds a `..` segment somewhere.
pub open spec fn spec_has_dotdot(s: Seq<char>) -> bool {
    exists|i: int| is_dotdot_at(s, i)
}

fn has_dotdot(s: &str) -> (r: bool)
    ensures
        r == spec_has_dotdot(s@),
{
    proof {
        reveal_strlit("..");
    }
    let ls = s.unicode_len();
    let mut i: usize = 0;
    while i < ls
        invariant
            i <= ls,
            forall|j: int| 0 <= j < i ==> !is_dotdot_at(s@, j),
        decreases ls - i,
    {
        if match_at_exec(s, "..", i) && (i == 0 || s.get_char(i - 1) == '/') && (i + 2 == ls
            || s.get_char(i + 2) == '/') {
            proof {
                assert(is_dotdot_at(s@, i as int));
            }
            return true;
        }
        i += 1;
    }
    proof {
        assert forall|j: int| !is_dotdot_at(s@, j) by {
            if 0 <= j < ls {
            } else {
                assert(!match_at(s@, ".."@, j));
            }
        }
    }
    false
}

/// The cleaned path names a file inside the root: it holds no `..`
/// segment and does not begin with a slash, so joining it under the
/// root cannot leave the root. A slash can surface at the front when a
/// `blog/` prefix is stripped away, e.g. from `blog//etc/passwd`.
pub open spec fn spec_path_stays_inside(clean: Seq<char>) -> bool {
    !spec_has_dotdot(clean) && (clean.len() == 0 || clean[0] != '/')
}

/// The file name the cleaned path resolves to: `index.md` for the empty
/// path, otherwise the cleaned path with `.md` appended.
pub open spec fn spec_resolved_file(s: Seq<char>) -> Seq<char> {
    let clean = spec_clean_path(s);
    if clean.len() == 0 {
        "index.md"@
    } else {
        clean + ".md"@
    }
}

/// Resolve a requested path to the Markdown file name it names, or
/// reject it when its cleaned form holds a `..` segment or begins with
/// a slash — exactly the inputs whose resolved path could escape the
/// content root. Every name returned is non-empty, relative, and free
/// of `..` segments, so joining it under the root stays under the root.
pub fn resolve_markdown_path(path: &str) -> (r: Result<String, RendererError>)
    ensures
        r matches Ok(p) ==> spec_path_stays_inside(spec_clean_path(path@)) && p@
            == spec_resolved_file(path@) && p@.len() > 0 && p@[0] != '/' && !spec_has_dotdot(p@),
        r matches Err(e) ==> !spec_path_stays_inside(spec_clean_path(path@)) && e matches
            RendererError::InvalidPathError(_),
{
    proof {
        reveal_strlit("blog/");
        reveal_strlit("index.md");
        reveal_strlit(".md");
        reveal_strlit("..");
    }
    let stripped = strip_start(path, '/');
    let unprefixed = strip_prefix_repeat(stripped, "blog/");
    let clean = strip_end(unprefixed, '/');
    let cl = clean.unicode_len();
    if has_dotdot(clean) || (cl > 0 && clean.get_char(0) == '/') {
        return Err(
            RendererError::InvalidPathError(String::from_str("Path traversal not allowed")),
        );
    }
    if cl == 0 {
        let out = String::from_str("index.md");
        proof {
            assert(!spec_has_dotdot(out@)) by {
                assert forall|i: int| !is_dotdot_at(out@, i) by {
                    if 0 <= i && i + 2 <= out@.len() {
                        assert(out@.subrange(i, i + 2)[0] == out@[i]);
                    }
                }
            }
        }
        Ok(out)
    } else {
        let mut out = String::from_str(clean);
        out.append(".md");
        proof {
            assert(out@[0] == clean@[0]);
            assert(!spec_has_dotdot(out@)) by {
                assert forall|i: int| !is_dotdot_at(out@, i) by {
                    if is_dotdot_at(out@, i) {
                        lemma_dotdot_comes_from_path(clean@, out@, i);
                    }
                }
            }
        }
        Ok(out)
    }
}

/// Appending `.md` introduces no `..` segment: any such segment of the
/// extended text already stands as a segment of the path itself, since
/// the appended suffix's only dot is followed by `m`.
proof fn lemma_dotdot_comes_from_path(clean: Seq<char>, out: Seq<char>, i: int)
    requires
        out == clean + ".md"@,
        ".md"@.len() == 3,
        ".md"@[0] == '.',
        ".md"@[1] == 'm',
        ".md"@[2] == 'd',
        is_dotdot_at(out, i),
    ensures
        is_dotdot_at(clean, i),
{
    reveal_strlit("..");
    assert(out.subrange(i, i + 2)[0] == out[i]);
    assert(out.subrange(i, i + 2)[1] == out[i + 1]);
    assert(out[i] == '.' && out[i + 1] == '.');
    if i + 2 <= clean.len() {
        // both dots lie inside the path, with the same segment
        // boundaries there
        assert(clean.subrange(i, i + 2) =~= ".."@);
        if i + 2 == clean.len() {
            assert(out[i + 2] == '.');
        } else {
            assert(out[i + 2] == clean[i + 2]);
        }
    } else if i < clean.len() {
        // the second dot would be the suffix's dot, but then `m`
        // follows it where a segment end is required
        assert(i + 1 == clean.len());
        assert(out[i + 2] == 'm');
        assert(i + 2 < out.len());
    } else {
        // the first dot would be the suffix's dot, which `m` follows
        assert(out[i + 1] == 'm');
    }
}

} // verus!
