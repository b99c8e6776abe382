//! Anchoring of relative links at a trusted base location.

use vstd::prelude::*;
use vstd::string::*;
use crate::text::{begins_with_separator, ends_with_separator, finishes_with_separator,
    separator, starts_with_separator};

verus! {

/// The path under which a hosted repository shows the files of its main line.
pub open spec fn browse_path() -> Seq<char> {
    "blob/master"@
}

/// `s`, followed by a path separator unless it already ends with one.
pub open spec fn with_trailing_separator(s: Seq<char>) -> Seq<char> {
    if ends_with_separator(s) {
        s
    } else {
        s + separator()
    }
}

/// `s`, preceded by a path separator unless it already begins with one.
pub open spec fn with_leading_separator(s: Seq<char>) -> Seq<char> {
    if starts_with_separator(s) {
        s
    } else {
        separator() + s
    }
}

/// The text that a relative link becomes under the base `base`: the base as a
/// directory, the browse path, and the link as a path below it. The parts are
/// joined as text; nothing in them is normalised or decoded.
pub open spec fn resolved(base: Seq<char>, relative: Seq<char>) -> Seq<char> {
    with_trailing_separator(base) + browse_path() + with_leading_separator(relative)
}

/// Turns relative links into absolute ones below a fixed base location.
pub struct RelativeUrlResolver {
    pub base: String,
}

impl View for RelativeUrlResolver {
    type V = Seq<char>;

    open spec fn view(&self) -> Seq<char> {
        self.base@
    }
}

impl RelativeUrlResolver {
    /// Binds a resolver to `base`.
    pub fn new(base: &str) -> (resolver: RelativeUrlResolver)
        ensures
            resolver@ == base@,
    {
        RelativeUrlResolver { base: String::from_str(base) }
    }

    /// The absolute link that stands for `relative`.
    pub fn resolve(&self, relative: &str) -> (url: String)
        ensures
            url@ == resolved(self@, relative@),
    {
        let mut url: String = self.base.clone();
        proof {
            reveal_strlit("/");
        }
        if !finishes_with_separator(url.as_str()) {
            url.append("/");
        }
        url.append("blob/master");
        if !begins_with_separator(relative) {
            url.append("/");
        }
        url.append(relative);
        proof {
            assert(url@ =~= resolved(self@, relative@));
        }
        url
    }
}

/// A base serves as a directory whether or not it ends with a separator:
/// adding the separator to a base that lacks it changes no resolved link.
pub proof fn lemma_resolved_base_separator(base: Seq<char>, relative: Seq<char>)
    requires
        !ends_with_separator(base),
    ensures
        resolved(base + separator(), relative) == resolved(base, relative),
{
    let extended = base + separator();
    assert(extended[extended.len() - 1] == '/');
}

/// A link resolves alike whether or not it begins with a separator: adding
/// the separator in front of a link that lacks it changes nothing.
pub proof fn lemma_resolved_link_separator(base: Seq<char>, relative: Seq<char>)
    requires
        !starts_with_separator(relative),
    ensures
        resolved(base, separator() + relative) == resolved(base, relative),
{
    let rooted = separator() + relative;
    assert(rooted[0] == '/');
}

/// A resolved link begins with the base and ends with the link, both as they
/// were given, and holds the browse path between two separators.
pub proof fn lemma_resolved_shape(base: Seq<char>, relative: Seq<char>)
    ensures
        base.is_prefix_of(resolved(base, relative)),
        relative.is_suffix_of(resolved(base, relative)),
        (separator() + browse_path() + separator()).is_prefix_of(
            resolved(base, relative).skip(with_trailing_separator(base).len() - 1),
        ),
{
    let url = resolved(base, relative);
    let head = with_trailing_separator(base);
    let tail = with_leading_separator(relative);
    let middle = separator() + browse_path() + separator();
    assert(url.len() == head.len() + browse_path().len() + tail.len());
    assert(url.subrange(0, base.len() as int) =~= base);
    assert(url.subrange(url.len() - relative.len(), url.len() as int) =~= relative);
    assert(tail[0] == '/');
    assert(head[head.len() - 1] == '/');
    let rest = url.skip(head.len() - 1);
    assert(rest.subrange(0, middle.len() as int) =~= middle);
}

} // verus!
