//! Placeholder substitution: `{title}` takes the title metadata value or
//! a fixed fallback, every other metadata key fills `{key}`, and
//! `{content}` is filled last with the rendered HTML. Substitution is
//! literal, so a value holding another placeholder is substituted into.

use vstd::prelude::*;
use crate::metadata::{Metadata, spec_meta_get};
use crate::text::{spec_replace, replace_all};

verus! {

/// The template after substituting `{title}`.
pub open spec fn spec_apply_title(template: Seq<char>, meta: Seq<(Seq<char>, Seq<char>)>) -> Seq<
    char,
> {
    match spec_meta_get(meta, "title"@) {
        Some(v) => spec_replace(template, "{title}"@, v),
        None => spec_replace(template, "{title}"@, "Blog Post"@),
    }
}

/// The placeholder text of a metadata key.
pub open spec fn spec_placeholder(key: Seq<char>) -> Seq<char> {
    "{"@ + key + "}"@
}

/// The template after substituting the metadata pairs from index `i` on,
/// in order.
pub open spec fn spec_apply_meta(
    t: Seq<char>,
    meta: Seq<(Seq<char>, Seq<char>)>,
    i: int,
) -> Seq<char>
    decreases meta.len() - i,
{
    if i < 0 || i >= meta.len() {
        t
    } else {
        spec_apply_meta(spec_replace(t, spec_placeholder(meta[i].0), meta[i].1), meta, i + 1)
    }
}

/// The final page: title, then every metadata key, then the content.
pub open spec fn spec_apply_template(
    template: Seq<char>,
    content: Seq<char>,
    meta: Seq<(Seq<char>, Seq<char>)>,
) -> Seq<char> {
    spec_replace(spec_apply_meta(spec_apply_title(template, meta), meta, 0), "{content}"@, content)
}

/// Substitute the rendered content and the metadata values into the
/// static page template.
pub fn apply_template(template: &str, content_html: String, metadata: Metadata) -> (r: String)
    ensures
        r@ == spec_apply_template(template@, content_html@, metadata@),
{
    let mut result = match metadata.get("title") {
        Some(title) => replace_all(template, "{title}", title.as_str()),
        None => replace_all(template, "{title}", "Blog Post"),
    };
    let n = metadata.len();
    let mut i: usize = 0;
    while i < n
        invariant
            i <= n,
            n == metadata@.len(),
            n == metadata.pairs.len(),
            spec_apply_meta(spec_apply_title(template@, metadata@), metadata@, 0)
                == spec_apply_meta(result@, metadata@, i as int),
        decreases n - i,
    {
        let mut placeholder = String::from_str("{");
        placeholder.append(metadata.pairs[i].0.as_str());
        placeholder.append("}");
        proof {
            assert(placeholder@ =~= spec_placeholder(metadata@[i as int].0));
            assert(metadata.pairs[i as int].1.deep_view() == metadata@[i as int].1);
        }
        result = replace_all(result.as_str(), placeholder.as_str(), metadata.pairs[i].1.as_str());
        i += 1;
    }
    replace_all(result.as_str(), "{content}", content_html.as_str())
}

} // verus!
