//! Small verified helpers on string slices.

use vstd::prelude::*;
use vstd::std_specs::iter::IteratorSpec;
use vstd::string::*;

verus! {

/// The one-character text that separates path segments.
pub open spec fn separator() -> Seq<char> {
    seq!['/']
}

/// Whether `s` begins with the path separator.
pub open spec fn starts_with_separator(s: Seq<char>) -> bool {
    s.len() > 0 && s[0] == '/'
}

/// Whether `s` ends with the path separator.
pub open spec fn ends_with_separator(s: Seq<char>) -> bool {
    s.len() > 0 && s[s.len() - 1] == '/'
}

/// The characters of `s`, one by one.
pub fn characters(s: &str) -> (chars: Vec<char>)
    ensures
        chars@ == s@,
{
    broadcast use {axiom_spec_iter, next_postcondition};

    let mut rest = s.chars();
    let mut chars: Vec<char> = Vec::new();
    loop
        invariant
            chars@ + rest.remaining() == s@,
            rest.obeys_prophetic_iter_laws(),
            rest.decrease() is Some,
        ensures
            chars@ == s@,
        decreases rest.decrease()->0,
    {
        let ghost before = rest;
        match rest.next() {
            Some(c) => {
                proof {
                    assert(chars@.push(c) + before.remaining().drop_first() =~= chars@
                        + before.remaining());
                }
                chars.push(c);
            },
            None => {
                proof {
                    assert(chars@ =~= chars@ + rest.remaining());
                }
                break ;
            },
        }
    }
    chars
}

/// Tests whether the characters of `chars` from `from` up to `to` spell `name`.
pub fn spells(chars: &Vec<char>, from: usize, to: usize, name: &str) -> (same: bool)
    requires
        from <= to <= chars.len(),
    ensures
        same == (chars@.subrange(from as int, to as int) == name@),
{
    broadcast use {axiom_spec_iter, next_postcondition};

    let ghost word = chars@.subrange(from as int, to as int);
    let mut rest = name.chars();
    let mut k: usize = from;
    loop
        invariant
            from <= k <= to <= chars.len(),
            word == chars@.subrange(from as int, to as int),
            word.take(k - from) + rest.remaining() == name@,
            rest.obeys_prophetic_iter_laws(),
            rest.decrease() is Some,
        ensures
            k == to,
            word == name@,
        decreases rest.decrease()->0,
    {
        let ghost before = rest;
        let ghost seen = word.take(k - from);
        match rest.next() {
            Some(c) => {
                proof {
                    assert(name@.len() == seen.len() + before.remaining().len());
                    assert(name@[k - from] == c);
                }
                if k >= to || chars[k] != c {
                    proof {
                        if k < to {
                            assert(word[k - from] != name@[k - from]);
                        }
                    }
                    return false;
                }
                proof {
                    assert(word.take(k + 1 - from) + before.remaining().drop_first() =~= seen
                        + before.remaining());
                }
                k = k + 1;
            },
            None => {
                proof {
                    assert(seen =~= seen + rest.remaining());
                }
                if k < to {
                    return false;
                }
                proof {
                    assert(word.take(to - from) =~= word);
                }
                break ;
            },
        }
    }
    true
}

/// Tests whether two string slices hold the same characters.
pub fn same_text(a: &str, b: &str) -> (equal: bool)
    ensures
        equal <==> a@ == b@,
{
    let chars = characters(a);
    proof {
        assert(chars@.subrange(0, chars@.len() as int) =~= chars@);
    }
    spells(&chars, 0, chars.len(), b)
}

/// Tests whether `s` begins with the path separator.
pub fn begins_with_separator(s: &str) -> (found: bool)
    ensures
        found == starts_with_separator(s@),
{
    let n: usize = s.unicode_len();
    n > 0 && s.get_char(0) == '/'
}

/// Tests whether `s` ends with the path separator.
pub fn finishes_with_separator(s: &str) -> (found: bool)
    ensures
        found == ends_with_separator(s@),
{
    let n: usize = s.unicode_len();
    n > 0 && s.get_char(n - 1) == '/'
}

} // verus!
