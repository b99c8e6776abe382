//! The allowlist policy: which tags, attributes and classes survive, what is
//! forced onto links, and what becomes of relative URLs.

use std::borrow::Cow;
use vstd::prelude::*;
use vstd::string::*;
use crate::resolver::RelativeUrlResolver;
use crate::text::same_text;
use crate::trust::{base_is_trusted, is_trusted_base, optional_text};

verus! {

/// A tag name together with the names permitted on that tag.
pub type RuleView = (Seq<char>, Seq<Seq<char>>);

/// The tags that survive cleaning.
pub open spec fn allowed_tag_names() -> Seq<Seq<char>> {
    seq![
        "a"@, "b"@, "blockquote"@, "br"@, "code"@, "dd"@, "del"@, "dl"@, "dt"@, "em"@, "h1"@,
        "h2"@, "h3"@, "hr"@, "i"@, "img"@, "input"@, "kbd"@, "li"@, "ol"@, "p"@, "pre"@, "s"@,
        "strike"@, "strong"@, "sub"@, "sup"@, "table"@, "tbody"@, "td"@, "th"@, "thead"@, "tr"@,
        "ul"@, "span"@,
    ]
}

/// The attributes that survive, tag by tag.
pub open spec fn allowed_attribute_names() -> Seq<RuleView> {
    seq![
        ("a"@, seq!["href"@, "target"@]),
        ("img"@, seq!["width"@, "height"@, "src"@, "alt"@, "align"@]),
        ("input"@, seq!["checked"@, "disabled"@, "type"@]),
    ]
}

/// The class tokens that survive, tag by tag.
pub open spec fn allowed_class_names() -> Seq<RuleView> {
    seq![
        (
            "code"@,
            seq![
                "language-bash"@, "language-clike"@, "language-glsl"@, "language-go"@,
                "language-ini"@, "language-javascript"@, "language-json"@, "language-markup"@,
                "language-protobuf"@, "language-ruby"@, "language-rust"@, "language-scss"@,
                "language-sql"@, "yaml"@,
            ],
        ),
    ]
}

/// The relation forced onto every link.
pub open spec fn link_relation() -> Seq<char> {
    "nofollow noopener noreferrer"@
}

/// Whether `rules` permit `name` on `tag`.
pub open spec fn permits(rules: Seq<RuleView>, tag: Seq<char>, name: Seq<char>) -> bool {
    exists|i: int| 0 <= i < rules.len() && #[trigger] rules[i].0 == tag && rules[i].1.contains(name)
}

/// Whether `rules` say anything of `tag`.
pub open spec fn mentions(rules: Seq<RuleView>, tag: Seq<char>) -> bool {
    exists|i: int| 0 <= i < rules.len() && #[trigger] rules[i].0 == tag
}

/// Whether no tag has two entries in `rules`, and no entry names anything twice.
pub open spec fn is_mapping(rules: Seq<RuleView>) -> bool {
    &&& forall|i: int, j: int|
        0 <= i < j < rules.len() ==> #[trigger] rules[i].0 != #[trigger] rules[j].0
    &&& forall|i: int| 0 <= i < rules.len() ==> (#[trigger] rules[i]).1.no_duplicates()
}

/// What a policy says, as plain mathematical values.
pub ghost struct PolicyView {
    /// The tags that survive. The markers of any other tag are dropped.
    pub tags: Seq<Seq<char>>,
    /// The attributes that survive, tag by tag.
    pub attributes: Seq<RuleView>,
    /// The class tokens that survive, tag by tag.
    pub classes: Seq<RuleView>,
    /// The relation forced onto every link.
    pub link_rel: Seq<char>,
    /// The base below which relative URLs are anchored; `None` where
    /// attributes that hold a relative URL are removed.
    pub anchor: Option<Seq<char>>,
}

impl PolicyView {
    /// Whether the tables are mappings and can be handed to the cleaner
    /// together: a tag whose content the cleaner drops is not also allowed,
    /// the forced relation cannot be set by the input, and a tag with class
    /// rules does not also admit every class.
    pub open spec fn wf(self) -> bool {
        &&& self.tags.no_duplicates()
        &&& is_mapping(self.attributes)
        &&& is_mapping(self.classes)
        &&& !self.tags.contains("script"@)
        &&& !self.tags.contains("style"@)
        &&& !mentions(self.attributes, "script"@)
        &&& !mentions(self.attributes, "style"@)
        &&& !permits(self.attributes, "a"@, "rel"@)
        &&& forall|i: int|
            0 <= i < self.classes.len() ==> !permits(
                self.attributes,
                (#[trigger] self.classes[i]).0,
                "class"@,
            )
    }

    /// Whether `tag` survives.
    pub open spec fn allows_tag(self, tag: Seq<char>) -> bool {
        self.tags.contains(tag)
    }

    /// Whether `attribute` survives on `tag`.
    pub open spec fn allows_attribute(self, tag: Seq<char>, attribute: Seq<char>) -> bool {
        permits(self.attributes, tag, attribute)
    }

    /// Whether the class token `class` survives on `tag`.
    pub open spec fn allows_class(self, tag: Seq<char>, class: Seq<char>) -> bool {
        permits(self.classes, tag, class)
    }
}

/// The policy for documentation pages, with relative URLs anchored at `base`
/// where that base is trusted, and denied otherwise.
pub open spec fn documentation_policy(base: Option<Seq<char>>) -> PolicyView {
    PolicyView {
        tags: allowed_tag_names(),
        attributes: allowed_attribute_names(),
        classes: allowed_class_names(),
        link_rel: link_relation(),
        anchor: if base_is_trusted(base) {
            base
        } else {
            None
        },
    }
}

/// No tag is allowed twice, and neither of the tags whose content the cleaner
/// drops is allowed.
pub proof fn lemma_tag_names()
    ensures
        allowed_tag_names().no_duplicates(),
        !allowed_tag_names().contains("script"@),
        !allowed_tag_names().contains("style"@),
{
    reveal_strlit("a");
    reveal_strlit("b");
    reveal_strlit("blockquote");
    reveal_strlit("br");
    reveal_strlit("code");
    reveal_strlit("dd");
    reveal_strlit("del");
    reveal_strlit("dl");
    reveal_strlit("dt");
    reveal_strlit("em");
    reveal_strlit("h1");
    reveal_strlit("h2");
    reveal_strlit("h3");
    reveal_strlit("hr");
    reveal_strlit("i");
    reveal_strlit("img");
    reveal_strlit("input");
    reveal_strlit("kbd");
    reveal_strlit("li");
    reveal_strlit("ol");
    reveal_strlit("p");
    reveal_strlit("pre");
    reveal_strlit("s");
    reveal_strlit("strike");
    reveal_strlit("strong");
    reveal_strlit("sub");
    reveal_strlit("sup");
    reveal_strlit("table");
    reveal_strlit("tbody");
    reveal_strlit("td");
    reveal_strlit("th");
    reveal_strlit("thead");
    reveal_strlit("tr");
    reveal_strlit("ul");
    reveal_strlit("span");
    reveal_strlit("script");
    reveal_strlit("style");
    let t = allowed_tag_names();
    assert(t.len() == 35);
    assert forall|i: int, j: int| 0 <= i < t.len() && 0 <= j < t.len() && i != j implies t[i]
        != t[j] by {
        if t[i] == t[j] {
            assert(t[i].len() == t[j].len());
            assert(t[i][0] == t[j][0]);
            assert(t[i][t[i].len() - 1] == t[j][t[j].len() - 1]);
            assert(t[i].len() >= 3 ==> t[i][1] == t[j][1] && t[i][2] == t[j][2]);
        }
    }
    assert forall|i: int| 0 <= i < t.len() implies t[i] != "script"@ && t[i] != "style"@ by {
        if t[i] == "script"@ {
            assert(t[i].len() == 6 && t[i][1] == 'c');
        }
        if t[i] == "style"@ {
            assert(t[i].len() == 5 && t[i][1] == 't' && t[i][2] == 'y');
        }
    }
}

/// The attribute table is a mapping that says nothing of the tags whose
/// content the cleaner drops, and it admits neither the link relation nor
/// the class attribute.
pub proof fn lemma_attribute_names()
    ensures
        is_mapping(allowed_attribute_names()),
        !mentions(allowed_attribute_names(), "script"@),
        !mentions(allowed_attribute_names(), "style"@),
        forall|tag: Seq<char>| !permits(allowed_attribute_names(), tag, "rel"@),
        forall|tag: Seq<char>| !permits(allowed_attribute_names(), tag, "class"@),
{
    reveal_strlit("a");
    reveal_strlit("img");
    reveal_strlit("input");
    reveal_strlit("script");
    reveal_strlit("style");
    reveal_strlit("rel");
    reveal_strlit("class");
    reveal_strlit("href");
    reveal_strlit("target");
    reveal_strlit("width");
    reveal_strlit("height");
    reveal_strlit("src");
    reveal_strlit("alt");
    reveal_strlit("align");
    reveal_strlit("checked");
    reveal_strlit("disabled");
    reveal_strlit("type");
    let r = allowed_attribute_names();
    assert(r.len() == 3);
    assert forall|i: int| 0 <= i < r.len() implies (#[trigger] r[i]).1.no_duplicates()
        && !r[i].1.contains("rel"@) && !r[i].1.contains("class"@) by {
        let names = r[i].1;
        assert forall|k: int, l: int|
            0 <= k < names.len() && 0 <= l < names.len() && k != l implies names[k]
            != names[l] by {
            if names[k] == names[l] {
                assert(names[k].len() == names[l].len());
                assert(names[k][0] == names[l][0]);
            }
        }
        assert forall|k: int| 0 <= k < names.len() implies names[k] != "rel"@ && names[k]
            != "class"@ by {
            if names[k] == "rel"@ {
                assert(names[k].len() == 3 && names[k][0] == 'r');
            }
            if names[k] == "class"@ {
                assert(names[k].len() == 5 && names[k][0] == 'c');
            }
        }
    }
    assert forall|i: int, j: int| 0 <= i < j < r.len() implies #[trigger] r[i].0
        != #[trigger] r[j].0 by {
        if r[i].0 == r[j].0 {
            assert(r[i].0.len() == r[j].0.len());
        }
    }
    assert forall|i: int| 0 <= i < r.len() implies #[trigger] r[i].0 != "script"@ && r[i].0
        != "style"@ by {
        if r[i].0 == "script"@ {
            assert(r[i].0.len() == 6);
        }
        if r[i].0 == "style"@ {
            assert(r[i].0.len() == 5 && r[i].0[0] == 's');
        }
    }
}

/// The class table is a mapping.
pub proof fn lemma_class_names()
    ensures
        is_mapping(allowed_class_names()),
{
    reveal_strlit("language-bash");
    reveal_strlit("language-clike");
    reveal_strlit("language-glsl");
    reveal_strlit("language-go");
    reveal_strlit("language-ini");
    reveal_strlit("language-javascript");
    reveal_strlit("language-json");
    reveal_strlit("language-markup");
    reveal_strlit("language-protobuf");
    reveal_strlit("language-ruby");
    reveal_strlit("language-rust");
    reveal_strlit("language-scss");
    reveal_strlit("language-sql");
    reveal_strlit("yaml");
    let r = allowed_class_names();
    assert(r.len() == 1);
    let names = r[0].1;
    assert(names.len() == 14);
    assert forall|k: int, l: int|
        0 <= k < names.len() && 0 <= l < names.len() && k != l implies names[k] != names[l] by {
        if names[k] == names[l] {
            assert(names[k].len() == names[l].len());
            assert(names[k][0] == names[l][0]);
            assert(names[k].len() >= 12 ==> names[k][9] == names[l][9] && names[k][10]
                == names[l][10] && names[k][11] == names[l][11]);
        }
    }
}

/// The policy for documentation pages is well formed, whatever the base.
pub proof fn lemma_documentation_policy_wf(base: Option<Seq<char>>)
    ensures
        documentation_policy(base).wf(),
{
    lemma_tag_names();
    lemma_attribute_names();
    lemma_class_names();
}

/// The characters of each name in a list of names.
pub open spec fn names_of(names: Seq<&'static str>) -> Seq<Seq<char>> {
    Seq::new(names.len(), |i: int| names[i]@)
}

/// The names permitted on one tag.
#[derive(Clone)]
pub struct TagRule {
    pub tag: &'static str,
    pub names: Vec<&'static str>,
}

impl View for TagRule {
    type V = RuleView;

    open spec fn view(&self) -> RuleView {
        (self.tag@, names_of(self.names@))
    }
}

/// What each rule in a list of rules says.
pub open spec fn rules_of(rules: Seq<TagRule>) -> Seq<RuleView> {
    Seq::new(rules.len(), |i: int| rules[i]@)
}

/// What becomes of an attribute that holds a relative URL.
pub enum UrlPolicy {
    /// The attribute is removed.
    Deny,
    /// The URL is replaced by the one that the resolver gives.
    RewriteWithBase(RelativeUrlResolver),
}

impl View for UrlPolicy {
    type V = Option<Seq<char>>;

    open spec fn view(&self) -> Option<Seq<char>> {
        match self {
            UrlPolicy::Deny => None,
            UrlPolicy::RewriteWithBase(resolver) => Some(resolver@),
        }
    }
}

/// What `policy` makes of the relative URL `relative`: `None` where the
/// attribute is removed, else the URL that replaces it.
pub open spec fn rewritten(policy: Option<Seq<char>>, relative: Seq<char>) -> Option<Seq<char>> {
    match policy {
        Some(base) => Some(crate::resolver::resolved(base, relative)),
        None => None,
    }
}

impl UrlPolicy {
    /// The policy for the base location `base_url`: relative URLs are rewritten
    /// below a trusted base, and denied where the base is absent, is no
    /// absolute URL, or names a host that is not trusted.
    pub fn for_base(base_url: Option<&str>) -> (policy: UrlPolicy)
        ensures
            policy@ == documentation_policy(optional_text(base_url)).anchor,
    {
        match base_url {
            Some(base) => {
                if is_trusted_base(base_url) {
                    UrlPolicy::RewriteWithBase(RelativeUrlResolver::new(base))
                } else {
                    UrlPolicy::Deny
                }
            },
            None => UrlPolicy::Deny,
        }
    }

    /// Applies the policy to one relative URL: `None` where the attribute
    /// that holds it is to be removed, else the URL that replaces it.
    pub fn rewrite<'u>(&self, relative: &'u str) -> (url: Option<Cow<'u, str>>)
        ensures
            match url {
                Some(u) => rewritten(self@, relative@) == Some(u@),
                None => rewritten(self@, relative@).is_none(),
            },
    {
        match self {
            UrlPolicy::Deny => None,
            UrlPolicy::RewriteWithBase(resolver) => Some(Cow::Owned(resolver.resolve(relative))),
        }
    }
}

/// Tests whether `names` holds `name`.
fn holds(names: &Vec<&'static str>, name: &str) -> (found: bool)
    ensures
        found == names_of(names@).contains(name@),
{
    let mut i: usize = 0;
    while i < names.len()
        invariant
            i <= names.len(),
            forall|k: int| 0 <= k < i ==> names_of(names@)[k] != name@,
        decreases names.len() - i,
    {
        if same_text(names[i], name) {
            proof {
                assert(names_of(names@)[i as int] == name@);
            }
            return true;
        }
        i = i + 1;
    }
    false
}

/// Tests whether `rules` permit `name` on `tag`.
fn rules_permit(rules: &Vec<TagRule>, tag: &str, name: &str) -> (found: bool)
    ensures
        found == permits(rules_of(rules@), tag@, name@),
{
    let mut i: usize = 0;
    while i < rules.len()
        invariant
            i <= rules.len(),
            forall|k: int|
                0 <= k < i ==> !(#[trigger] rules_of(rules@)[k].0 == tag@ && rules_of(
                    rules@,
                )[k].1.contains(name@)),
        decreases rules.len() - i,
    {
        if same_text(rules[i].tag, tag) && holds(&rules[i].names, name) {
            proof {
                let k = i as int;
                assert(rules_of(rules@)[k].0 == tag@ && rules_of(rules@)[k].1.contains(name@));
            }
            return true;
        }
        i = i + 1;
    }
    false
}

/// The tags that survive cleaning.
pub fn allowed_tags() -> (tags: Vec<&'static str>)
    ensures
        names_of(tags@) == allowed_tag_names(),
{
    let tags = vec![
        "a", "b", "blockquote", "br", "code", "dd", "del", "dl", "dt", "em", "h1", "h2", "h3",
        "hr", "i", "img", "input", "kbd", "li", "ol", "p", "pre", "s", "strike", "strong", "sub",
        "sup", "table", "tbody", "td", "th", "thead", "tr", "ul", "span",
    ];
    proof {
        assert(names_of(tags@) =~= allowed_tag_names());
    }
    tags
}

/// The attributes that survive, tag by tag.
pub fn allowed_attributes() -> (rules: Vec<TagRule>)
    ensures
        rules_of(rules@) == allowed_attribute_names(),
{
    let link = TagRule { tag: "a", names: vec!["href", "target"] };
    let image = TagRule { tag: "img", names: vec!["width", "height", "src", "alt", "align"] };
    let input = TagRule { tag: "input", names: vec!["checked", "disabled", "type"] };
    proof {
        assert(link@.1 =~= allowed_attribute_names()[0].1);
        assert(image@.1 =~= allowed_attribute_names()[1].1);
        assert(input@.1 =~= allowed_attribute_names()[2].1);
    }
    let rules = vec![link, image, input];
    proof {
        assert(rules_of(rules@) =~= allowed_attribute_names());
    }
    rules
}

/// The class tokens that survive, tag by tag.
pub fn allowed_classes() -> (rules: Vec<TagRule>)
    ensures
        rules_of(rules@) == allowed_class_names(),
{
    let code = TagRule {
        tag: "code",
        names: vec![
            "language-bash", "language-clike", "language-glsl", "language-go", "language-ini",
            "language-javascript", "language-json", "language-markup", "language-protobuf",
            "language-ruby", "language-rust", "language-scss", "language-sql", "yaml",
        ],
    };
    proof {
        assert(code@.1 =~= allowed_class_names()[0].1);
    }
    let rules = vec![code];
    proof {
        assert(rules_of(rules@) =~= allowed_class_names());
    }
    rules
}

/// The fixed allowlist policy, with what it does to relative URLs. A policy
/// is built once and never changes; every policy is well formed.
pub struct AllowlistPolicy {
    pub(crate) tags: Vec<&'static str>,
    pub(crate) tag_attributes: Vec<TagRule>,
    pub(crate) allowed_classes: Vec<TagRule>,
    pub(crate) link_rel: &'static str,
    pub(crate) url_relative: UrlPolicy,
}

impl View for AllowlistPolicy {
    type V = PolicyView;

    closed spec fn view(&self) -> PolicyView {
        PolicyView {
            tags: names_of(self.tags@),
            attributes: rules_of(self.tag_attributes@),
            classes: rules_of(self.allowed_classes@),
            link_rel: self.link_rel@,
            anchor: self.url_relative@,
        }
    }
}

impl AllowlistPolicy {
    /// What holds of every policy: it is the policy for documentation pages,
    /// its tables are well formed, and its anchor, if it has one, is trusted.
    #[verifier::type_invariant]
    pub open spec fn well_formed(self) -> bool {
        &&& self@.wf()
        &&& self@ == documentation_policy(self@.anchor)
    }

    /// Builds the policy for one base location. Every base gives a policy: one
    /// that cannot be trusted gives the policy that denies relative URLs.
    pub fn new(base_url: Option<&str>) -> (policy: AllowlistPolicy)
        ensures
            policy@ == documentation_policy(optional_text(base_url)),
    {
        proof {
            lemma_documentation_policy_wf(optional_text(base_url));
        }
        AllowlistPolicy {
            tags: allowed_tags(),
            tag_attributes: allowed_attributes(),
            allowed_classes: allowed_classes(),
            link_rel: "nofollow noopener noreferrer",
            url_relative: UrlPolicy::for_base(base_url),
        }
    }

    /// The relation forced onto every link.
    pub fn link_rel(&self) -> (relation: &'static str)
        ensures
            relation@ == self@.link_rel,
    {
        self.link_rel
    }

    /// What becomes of relative URLs.
    pub fn url_relative(&self) -> (policy: &UrlPolicy)
        ensures
            policy@ == self@.anchor,
    {
        &self.url_relative
    }

    /// Tests whether `tag` survives.
    pub fn allows_tag(&self, tag: &str) -> (allowed: bool)
        ensures
            allowed == self@.allows_tag(tag@),
    {
        holds(&self.tags, tag)
    }

    /// Tests whether `attribute` survives on `tag`.
    pub fn allows_attribute(&self, tag: &str, attribute: &str) -> (allowed: bool)
        ensures
            allowed == self@.allows_attribute(tag@, attribute@),
    {
        rules_permit(&self.tag_attributes, tag, attribute)
    }

    /// Tests whether the class token `class` survives on `tag`.
    pub fn allows_class(&self, tag: &str, class: &str) -> (allowed: bool)
        ensures
            allowed == self@.allows_class(tag@, class@),
    {
        rules_permit(&self.allowed_classes, tag, class)
    }
}

/// Without a base location the policy rewrites nothing: whatever the relative
/// URL, the attribute that holds it is to be removed.
pub proof fn lemma_absent_base_denies(relative: Seq<char>)
    ensures
        rewritten(documentation_policy(None).anchor, relative).is_none(),
{
}

/// A base that is not trusted gives the policy of an absent base.
pub proof fn lemma_untrusted_base_is_absent(base: Option<Seq<char>>)
    requires
        !base_is_trusted(base),
    ensures
        documentation_policy(base) == documentation_policy(None),
{
}

/// Under a trusted base every relative URL is replaced by its resolved form.
pub proof fn lemma_trusted_base_rewrites(base: Seq<char>, relative: Seq<char>)
    requires
        base_is_trusted(Some(base)),
    ensures
        rewritten(documentation_policy(Some(base)).anchor, relative) == Some(
            crate::resolver::resolved(base, relative),
        ),
{
}

/// The base location decides the anchor of relative URLs and nothing else:
/// tags, attributes, classes and the link relation are the same for all.
pub proof fn lemma_tables_are_fixed(first: Option<Seq<char>>, second: Option<Seq<char>>)
    ensures
        documentation_policy(first).tags == documentation_policy(second).tags,
        documentation_policy(first).attributes == documentation_policy(second).attributes,
        documentation_policy(first).classes == documentation_policy(second).classes,
        documentation_policy(first).link_rel == documentation_policy(second).link_rel,
{
}

/// The relation forced onto links is the fixed one under every base, and the
/// attribute table lets no tag carry a relation of its own.
pub proof fn lemma_link_relation_is_forced(base: Option<Seq<char>>, tag: Seq<char>)
    ensures
        documentation_policy(base).link_rel == link_relation(),
        !documentation_policy(base).allows_attribute(tag, "rel"@),
{
    lemma_attribute_names();
}

/// Classes survive by the class table alone, and only on code: the attribute
/// table admits the class attribute on no tag, and a class token that survives
/// on a tag is one of the listed tokens on the code tag.
pub proof fn lemma_classes_only_on_code(
    base: Option<Seq<char>>,
    tag: Seq<char>,
    class: Seq<char>,
)
    ensures
        !documentation_policy(base).allows_attribute(tag, "class"@),
        documentation_policy(base).allows_class(tag, class) <==> tag == "code"@
            && allowed_class_names()[0].1.contains(class),
{
    lemma_attribute_names();
    let rules = allowed_class_names();
    assert(rules.len() == 1);
    if tag == "code"@ && rules[0].1.contains(class) {
        assert(rules[0].0 == tag && rules[0].1.contains(class));
    }
}

} // verus!
