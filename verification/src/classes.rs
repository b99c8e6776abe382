//! What survives of a class attribute: the tokens that the class table
//! permits on the tag, or nothing at all.

use std::borrow::Cow;
use vstd::prelude::*;
use vstd::string::*;
use crate::policy::{names_of, permits, rules_of, RuleView, TagRule};
use crate::text::{characters, same_text, spells};

verus! {

/// Whether `c` separates class tokens: tab, line feed, form feed, carriage
/// return or space.
pub open spec fn is_space(c: char) -> bool {
    c == ' ' || c == '\t' || c == '\n' || c == '\r' || c == '\u{c}'
}

/// The number of characters before the first space of `s`.
pub open spec fn word_len(s: Seq<char>) -> nat
    decreases s.len(),
{
    if s.len() == 0 || is_space(s[0]) {
        0
    } else {
        1 + word_len(s.skip(1))
    }
}

/// The run at the start of `s` lies within `s`, and is not empty where `s`
/// begins with a character other than a space.
pub proof fn lemma_word_len_bounds(s: Seq<char>)
    ensures
        word_len(s) <= s.len(),
        s.len() > 0 && !is_space(s[0]) ==> word_len(s) >= 1,
    decreases s.len(),
{
    if s.len() > 0 && !is_space(s[0]) {
        lemma_word_len_bounds(s.skip(1));
    }
}

/// The class tokens of an attribute value, in order: its longest runs of
/// characters other than spaces.
pub open spec fn class_tokens(s: Seq<char>) -> Seq<Seq<char>>
    decreases s.len(),
{
    if s.len() == 0 {
        Seq::empty()
    } else if is_space(s[0]) {
        class_tokens(s.skip(1))
    } else {
        proof {
            lemma_word_len_bounds(s);
        }
        seq![s.take(word_len(s) as int)] + class_tokens(s.skip(word_len(s) as int))
    }
}

/// The tokens among `tokens` that `rules` permit on `tag`, in order.
pub open spec fn kept_tokens(rules: Seq<RuleView>, tag: Seq<char>, tokens: Seq<Seq<char>>) -> Seq<
    Seq<char>,
>
    decreases tokens.len(),
{
    if tokens.len() == 0 {
        Seq::empty()
    } else if permits(rules, tag, tokens[0]) {
        seq![tokens[0]] + kept_tokens(rules, tag, tokens.skip(1))
    } else {
        kept_tokens(rules, tag, tokens.skip(1))
    }
}

/// The tokens, with one space between each two.
pub open spec fn joined(tokens: Seq<Seq<char>>) -> Seq<char>
    decreases tokens.len(),
{
    if tokens.len() == 0 {
        Seq::empty()
    } else if tokens.len() == 1 {
        tokens[0]
    } else {
        joined(tokens.drop_last()) + seq![' '] + tokens.last()
    }
}

/// What survives of the class attribute `value` on `tag`: the permitted
/// tokens, joined; `None`, for no attribute, where no token is permitted.
pub open spec fn surviving_classes(rules: Seq<RuleView>, tag: Seq<char>, value: Seq<char>) -> Option<
    Seq<char>,
> {
    let kept = kept_tokens(rules, tag, class_tokens(value));
    if kept.len() == 0 {
        None
    } else {
        Some(joined(kept))
    }
}

/// What the cleaner is to keep of the attribute `attribute` with the value
/// `value` on `tag`: of a class attribute what survives of it, and any other
/// attribute as it is. `None` stands for no attribute.
pub open spec fn filtered_attribute(
    rules: Seq<RuleView>,
    tag: Seq<char>,
    attribute: Seq<char>,
    value: Seq<char>,
) -> Option<Seq<char>> {
    if attribute == "class"@ {
        surviving_classes(rules, tag, value)
    } else {
        Some(value)
    }
}

/// Tests whether `c` separates class tokens.
fn is_space_char(c: char) -> (space: bool)
    ensures
        space == is_space(c),
{
    c == ' ' || c == '\t' || c == '\n' || c == '\r' || c == '\u{c}'
}

/// Looks for the name that the characters from `from` up to `to` spell.
fn spelled_name(names: &Vec<&'static str>, chars: &Vec<char>, from: usize, to: usize) -> (found:
    Option<&'static str>)
    requires
        from <= to <= chars.len(),
    ensures
        match found {
            Some(name) => name@ == chars@.subrange(from as int, to as int) && names_of(
                names@,
            ).contains(name@),
            None => !names_of(names@).contains(chars@.subrange(from as int, to as int)),
        },
{
    let ghost token = chars@.subrange(from as int, to as int);
    let mut i: usize = 0;
    while i < names.len()
        invariant
            i <= names.len(),
            from <= to <= chars.len(),
            token == chars@.subrange(from as int, to as int),
            forall|k: int| 0 <= k < i ==> names_of(names@)[k] != token,
        decreases names.len() - i,
    {
        if spells(chars, from, to, names[i]) {
            proof {
                assert(names_of(names@)[i as int] == token);
            }
            return Some(names[i]);
        }
        i = i + 1;
    }
    None
}

/// Looks for the name that `rules` permit on `tag` and that the characters
/// from `from` up to `to` spell.
fn permitted_name(rules: &Vec<TagRule>, tag: &str, chars: &Vec<char>, from: usize, to: usize) -> (found:
    Option<&'static str>)
    requires
        from <= to <= chars.len(),
    ensures
        match found {
            Some(name) => name@ == chars@.subrange(from as int, to as int) && permits(
                rules_of(rules@),
                tag@,
                name@,
            ),
            None => !permits(rules_of(rules@), tag@, chars@.subrange(from as int, to as int)),
        },
{
    let ghost token = chars@.subrange(from as int, to as int);
    let mut i: usize = 0;
    while i < rules.len()
        invariant
            i <= rules.len(),
            from <= to <= chars.len(),
            token == chars@.subrange(from as int, to as int),
            forall|k: int|
                0 <= k < i ==> !(#[trigger] rules_of(rules@)[k].0 == tag@ && rules_of(
                    rules@,
                )[k].1.contains(token)),
        decreases rules.len() - i,
    {
        if same_text(rules[i].tag, tag) {
            match spelled_name(&rules[i].names, chars, from, to) {
                Some(name) => {
                    proof {
                        let k = i as int;
                        assert(rules_of(rules@)[k].0 == tag@ && rules_of(rules@)[k].1.contains(
                            token,
                        ));
                    }
                    return Some(name);
                },
                None => {},
            }
        }
        i = i + 1;
    }
    None
}

/// Unfolds the tokens of a text that begins with a space.
proof fn lemma_tokens_after_space(s: Seq<char>, i: int)
    requires
        0 <= i < s.len(),
        is_space(s[i]),
    ensures
        class_tokens(s.skip(i)) == class_tokens(s.skip(i + 1)),
{
    assert(s.skip(i).skip(1) =~= s.skip(i + 1));
}

/// Unfolds the tokens of a text that begins with a token.
proof fn lemma_tokens_after_word(s: Seq<char>, i: int, j: int)
    requires
        0 <= i < j <= s.len(),
        word_len(s.skip(i)) == j - i,
    ensures
        class_tokens(s.skip(i)) == seq![s.subrange(i, j)] + class_tokens(s.skip(j)),
{
    let rest = s.skip(i);
    assert(!is_space(rest[0]));
    assert(rest.take(j - i) =~= s.subrange(i, j));
    assert(rest.skip(j - i) =~= s.skip(j));
}

/// Unfolds the run at the start of a text by one character.
proof fn lemma_word_len_step(s: Seq<char>, j: int)
    requires
        0 <= j < s.len(),
        !is_space(s[j]),
    ensures
        word_len(s.skip(j)) == 1 + word_len(s.skip(j + 1)),
{
    assert(s.skip(j).skip(1) =~= s.skip(j + 1));
}

/// Unfolds the kept tokens of a list by its first token.
proof fn lemma_kept_first(
    rules: Seq<RuleView>,
    tag: Seq<char>,
    token: Seq<char>,
    rest: Seq<Seq<char>>,
)
    ensures
        kept_tokens(rules, tag, seq![token] + rest) == if permits(rules, tag, token) {
            seq![token] + kept_tokens(rules, tag, rest)
        } else {
            kept_tokens(rules, tag, rest)
        },
{
    let all = seq![token] + rest;
    assert(all[0] == token);
    assert(all.skip(1) =~= rest);
}

/// Unfolds the joined text of a list by its last token.
proof fn lemma_joined_push(tokens: Seq<Seq<char>>, token: Seq<char>)
    ensures
        joined(tokens.push(token)) == if tokens.len() == 0 {
            token
        } else {
            joined(tokens) + seq![' '] + token
        },
{
    let all = tokens.push(token);
    assert(all.drop_last() =~= tokens);
    assert(all.last() == token);
}

/// Filters the value of a class attribute on `tag`: the tokens that `rules`
/// permit on the tag survive, in their order, with one space between each
/// two; where none survives there is no attribute.
pub fn surviving_class_names(rules: &Vec<TagRule>, tag: &str, value: &str) -> (kept: Option<String>)
    ensures
        match kept {
            Some(classes) => surviving_classes(rules_of(rules@), tag@, value@) == Some(classes@),
            None => surviving_classes(rules_of(rules@), tag@, value@).is_none(),
        },
{
    let chars = characters(value);
    let n: usize = chars.len();
    let mut classes = String::new();
    let mut any = false;
    let ghost table = rules_of(rules@);
    let ghost mut kept: Seq<Seq<char>> = Seq::empty();
    let mut i: usize = 0;
    proof {
        reveal_strlit(" ");
        assert(chars@.skip(0) =~= chars@);
        assert(kept + kept_tokens(table, tag@, class_tokens(chars@)) =~= kept_tokens(
            table,
            tag@,
            class_tokens(chars@),
        ));
    }
    while i < n
        invariant
            chars@ == value@,
            n == chars.len(),
            i <= n,
            table == rules_of(rules@),
            " "@ == seq![' '],
            kept + kept_tokens(table, tag@, class_tokens(chars@.skip(i as int))) == kept_tokens(
                table,
                tag@,
                class_tokens(chars@),
            ),
            classes@ == joined(kept),
            any == (kept.len() > 0),
        decreases n - i,
    {
        if is_space_char(chars[i]) {
            proof {
                lemma_tokens_after_space(chars@, i as int);
            }
            i = i + 1;
        } else {
            let mut j: usize = i + 1;
            proof {
                lemma_word_len_step(chars@, i as int);
            }
            while j < n && !is_space_char(chars[j])
                invariant
                    n == chars.len(),
                    i < j <= n,
                    word_len(chars@.skip(i as int)) == (j - i) + word_len(chars@.skip(j as int)),
                decreases n - j,
            {
                proof {
                    lemma_word_len_step(chars@, j as int);
                }
                j = j + 1;
            }
            let ghost token = chars@.subrange(i as int, j as int);
            let ghost rest = class_tokens(chars@.skip(j as int));
            proof {
                lemma_tokens_after_word(chars@, i as int, j as int);
                lemma_kept_first(table, tag@, token, rest);
            }
            match permitted_name(rules, tag, &chars, i, j) {
                Some(name) => {
                    if any {
                        classes.append(" ");
                    }
                    classes.append(name);
                    any = true;
                    proof {
                        lemma_joined_push(kept, token);
                        assert(kept.push(token) + kept_tokens(table, tag@, rest) =~= kept + (
                        seq![token] + kept_tokens(table, tag@, rest)));
                        kept = kept.push(token);
                    }
                },
                None => {},
            }
            i = j;
        }
    }
    proof {
        assert(chars@.skip(n as int) =~= Seq::<char>::empty());
        assert(kept + Seq::<Seq<char>>::empty() =~= kept);
    }
    if any {
        Some(classes)
    } else {
        None
    }
}

/// Decides what the cleaner keeps of one attribute: see `filtered_attribute`.
pub fn filter_attribute<'u>(rules: &Vec<TagRule>, tag: &str, attribute: &str, value: &'u str) -> (kept:
    Option<Cow<'u, str>>)
    ensures
        match kept {
            Some(v) => filtered_attribute(rules_of(rules@), tag@, attribute@, value@) == Some(v@),
            None => filtered_attribute(rules_of(rules@), tag@, attribute@, value@).is_none(),
        },
{
    if same_text(attribute, "class") {
        match surviving_class_names(rules, tag, value) {
            Some(classes) => Some(Cow::Owned(classes)),
            None => None,
        }
    } else {
        Some(Cow::Borrowed(value))
    }
}

/// Whether `word` is a class token: not empty and without a space.
pub open spec fn is_word(word: Seq<char>) -> bool {
    word.len() > 0 && forall|k: int| 0 <= k < word.len() ==> !is_space(#[trigger] word[k])
}

/// A token is kept exactly when it is among the given tokens and the rules
/// permit it on the tag.
pub proof fn lemma_kept_tokens_are_the_permitted(
    rules: Seq<RuleView>,
    tag: Seq<char>,
    tokens: Seq<Seq<char>>,
    token: Seq<char>,
)
    ensures
        kept_tokens(rules, tag, tokens).contains(token) <==> tokens.contains(token) && permits(
            rules,
            tag,
            token,
        ),
    decreases tokens.len(),
{
    if tokens.len() > 0 {
        let rest = tokens.skip(1);
        lemma_kept_tokens_are_the_permitted(rules, tag, rest, token);
        let kept_rest = kept_tokens(rules, tag, rest);
        let kept = kept_tokens(rules, tag, tokens);
        if tokens.contains(token) {
            let i = choose|i: int| 0 <= i < tokens.len() && tokens[i] == token;
            if i > 0 {
                assert(rest[i - 1] == token);
            }
        }
        if rest.contains(token) {
            let i = choose|i: int| 0 <= i < rest.len() && rest[i] == token;
            assert(tokens[i + 1] == token);
        }
        if permits(rules, tag, tokens[0]) {
            assert(kept == seq![tokens[0]] + kept_rest);
            if kept_rest.contains(token) {
                let i = choose|i: int| 0 <= i < kept_rest.len() && kept_rest[i] == token;
                assert(kept[i + 1] == token);
            }
            if kept.contains(token) {
                let i = choose|i: int| 0 <= i < kept.len() && kept[i] == token;
                if i > 0 {
                    assert(kept_rest[i - 1] == token);
                } else {
                    assert(tokens[0] == token);
                }
            }
            if tokens[0] == token {
                assert(kept[0] == token);
            }
        }
    }
}

/// A class attribute survives exactly when the rules permit one of its
/// tokens on the tag.
pub proof fn lemma_classes_survive_by_a_permitted_token(
    rules: Seq<RuleView>,
    tag: Seq<char>,
    value: Seq<char>,
)
    ensures
        surviving_classes(rules, tag, value).is_some() <==> exists|token: Seq<char>|
            #[trigger] class_tokens(value).contains(token) && permits(rules, tag, token),
{
    let tokens = class_tokens(value);
    let kept = kept_tokens(rules, tag, tokens);
    if kept.len() > 0 {
        assert(kept.contains(kept[0]));
        lemma_kept_tokens_are_the_permitted(rules, tag, tokens, kept[0]);
    }
    if exists|token: Seq<char>| #[trigger] tokens.contains(token) && permits(rules, tag, token) {
        let token = choose|token: Seq<char>| #[trigger]
            tokens.contains(token) && permits(rules, tag, token);
        lemma_kept_tokens_are_the_permitted(rules, tag, tokens, token);
    }
}

/// The characters of the run at the start of a text are no spaces.
proof fn lemma_word_chars(s: Seq<char>)
    ensures
        forall|k: int| 0 <= k < word_len(s) ==> !is_space(#[trigger] s[k]),
    decreases s.len(),
{
    lemma_word_len_bounds(s);
    if s.len() > 0 && !is_space(s[0]) {
        let rest = s.skip(1);
        lemma_word_chars(rest);
        assert forall|k: int| 0 <= k < word_len(s) implies !is_space(#[trigger] s[k]) by {
            if k > 0 {
                assert(rest[k - 1] == s[k]);
            }
        }
    }
}

/// Every class token of a text is a word.
pub proof fn lemma_tokens_are_words(s: Seq<char>)
    ensures
        forall|i: int| 0 <= i < class_tokens(s).len() ==> is_word(#[trigger] class_tokens(s)[i]),
    decreases s.len(),
{
    if s.len() == 0 {
        assert(class_tokens(s).len() == 0);
    } else if is_space(s[0]) {
        lemma_tokens_are_words(s.skip(1));
        assert(class_tokens(s) == class_tokens(s.skip(1)));
    } else {
        lemma_word_len_bounds(s);
        lemma_word_chars(s);
        let n = word_len(s) as int;
        lemma_tokens_are_words(s.skip(n));
        let rest = class_tokens(s.skip(n));
        let all = class_tokens(s);
        assert(all == seq![s.take(n)] + rest);
        assert forall|i: int| 0 <= i < all.len() implies is_word(#[trigger] all[i]) by {
            if i > 0 {
                assert(all[i] == rest[i - 1]);
            } else {
                let word = s.take(n);
                assert(all[0] == word);
                assert forall|k: int| 0 <= k < word.len() implies !is_space(#[trigger] word[k]) by {
                    assert(word[k] == s[k]);
                }
            }
        }
    }
}

/// A run of characters other than spaces, followed by a space or by nothing,
/// is the run at the start of the whole.
proof fn lemma_word_len_of_prefix(word: Seq<char>, rest: Seq<char>)
    requires
        forall|k: int| 0 <= k < word.len() ==> !is_space(#[trigger] word[k]),
        rest.len() == 0 || is_space(rest[0]),
    ensures
        word_len(word + rest) == word.len(),
    decreases word.len(),
{
    let all = word + rest;
    if word.len() == 0 {
        assert(all =~= rest);
    } else {
        assert(all[0] == word[0]);
        let tail = word.skip(1);
        assert forall|k: int| 0 <= k < tail.len() implies !is_space(#[trigger] tail[k]) by {
            assert(tail[k] == word[k + 1]);
        }
        lemma_word_len_of_prefix(tail, rest);
        assert(all.skip(1) =~= tail + rest);
    }
}

/// A word followed by a space or by nothing is the first token of the whole.
proof fn lemma_tokens_of_prefix(word: Seq<char>, rest: Seq<char>)
    requires
        is_word(word),
        rest.len() == 0 || is_space(rest[0]),
    ensures
        class_tokens(word + rest) == seq![word] + class_tokens(rest),
{
    let all = word + rest;
    lemma_word_len_of_prefix(word, rest);
    assert(all[0] == word[0]);
    assert(all.take(word.len() as int) =~= word);
    assert(all.skip(word.len() as int) =~= rest);
}

/// The joined text of two or more tokens is the first, a space, and the
/// joined text of the others.
proof fn lemma_joined_front(tokens: Seq<Seq<char>>)
    requires
        tokens.len() >= 2,
    ensures
        joined(tokens) == tokens[0] + seq![' '] + joined(tokens.skip(1)),
    decreases tokens.len(),
{
    let init = tokens.drop_last();
    let tail = tokens.skip(1);
    if tokens.len() == 2 {
        assert(init.len() == 1 && tail.len() == 1);
        assert(joined(init) == tokens[0]);
        assert(joined(tail) == tokens[1]);
    } else {
        lemma_joined_front(init);
        assert(init.skip(1) =~= tail.drop_last());
        assert(init[0] == tokens[0]);
        assert(tail.last() == tokens.last());
        assert(joined(tail) == joined(tail.drop_last()) + seq![' '] + tail.last());
        assert(joined(tokens) =~= tokens[0] + seq![' '] + joined(tail));
    }
}

/// The class tokens of the joined text of words are those words.
pub proof fn lemma_tokens_of_joined(tokens: Seq<Seq<char>>)
    requires
        forall|i: int| 0 <= i < tokens.len() ==> is_word(#[trigger] tokens[i]),
    ensures
        class_tokens(joined(tokens)) == tokens,
    decreases tokens.len(),
{
    if tokens.len() == 0 {
        assert(class_tokens(joined(tokens)) =~= tokens);
    } else if tokens.len() == 1 {
        let word = tokens[0];
        lemma_tokens_of_prefix(word, Seq::empty());
        assert(word + Seq::<char>::empty() =~= word);
        assert(seq![word] + class_tokens(Seq::empty()) =~= tokens);
    } else {
        let word = tokens[0];
        let tail = tokens.skip(1);
        lemma_joined_front(tokens);
        assert forall|i: int| 0 <= i < tail.len() implies is_word(#[trigger] tail[i]) by {
            assert(tail[i] == tokens[i + 1]);
        }
        lemma_tokens_of_joined(tail);
        let rest = seq![' '] + joined(tail);
        assert(rest[0] == ' ');
        assert(rest.skip(1) =~= joined(tail));
        assert(class_tokens(rest) == tail);
        lemma_tokens_of_prefix(word, rest);
        assert(joined(tokens) =~= word + rest);
        assert(seq![word] + tail =~= tokens);
    }
}

/// Tokens that the rules all permit are all kept.
proof fn lemma_kept_of_permitted(rules: Seq<RuleView>, tag: Seq<char>, tokens: Seq<Seq<char>>)
    requires
        forall|i: int| 0 <= i < tokens.len() ==> permits(rules, tag, #[trigger] tokens[i]),
    ensures
        kept_tokens(rules, tag, tokens) == tokens,
    decreases tokens.len(),
{
    if tokens.len() == 0 {
        assert(kept_tokens(rules, tag, tokens) =~= tokens);
    } else {
        let tail = tokens.skip(1);
        assert forall|i: int| 0 <= i < tail.len() implies permits(
            rules,
            tag,
            #[trigger] tail[i],
        ) by {
            assert(tail[i] == tokens[i + 1]);
        }
        lemma_kept_of_permitted(rules, tag, tail);
        assert(permits(rules, tag, tokens[0]));
        assert(seq![tokens[0]] + tail =~= tokens);
    }
}

/// Filtering a class attribute a second time changes nothing: what survived
/// once survives again, as it is.
pub proof fn lemma_surviving_classes_survive(rules: Seq<RuleView>, tag: Seq<char>, value: Seq<char>)
    ensures
        match surviving_classes(rules, tag, value) {
            Some(classes) => surviving_classes(rules, tag, classes) == Some(classes),
            None => true,
        },
{
    let tokens = class_tokens(value);
    let kept = kept_tokens(rules, tag, tokens);
    if kept.len() > 0 {
        lemma_tokens_are_words(value);
        assert forall|i: int| 0 <= i < kept.len() implies is_word(#[trigger] kept[i]) && permits(
            rules,
            tag,
            kept[i],
        ) by {
            assert(kept.contains(kept[i]));
            lemma_kept_tokens_are_the_permitted(rules, tag, tokens, kept[i]);
            let j = choose|j: int| 0 <= j < tokens.len() && tokens[j] == kept[i];
            assert(is_word(tokens[j]));
        }
        lemma_tokens_of_joined(kept);
        lemma_kept_of_permitted(rules, tag, kept);
    }
}

/// The filter touches the class attribute only: an attribute of another
/// name keeps its value, whatever the tag and whatever the rules.
pub proof fn lemma_other_attributes_are_kept(
    rules: Seq<RuleView>,
    tag: Seq<char>,
    attribute: Seq<char>,
    value: Seq<char>,
)
    requires
        attribute != "class"@,
    ensures
        filtered_attribute(rules, tag, attribute, value) == Some(value),
{
}

} // verus!
