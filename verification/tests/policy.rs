use render::policy::{allowed_attributes, allowed_classes, allowed_tags, AllowlistPolicy, UrlPolicy};

#[test]
fn tag_table_lists_each_tag_once() {
    let tags = allowed_tags();
    assert_eq!(
        tags,
        vec![
            "a", "b", "blockquote", "br", "code", "dd", "del", "dl", "dt", "em", "h1", "h2", "h3",
            "hr", "i", "img", "input", "kbd", "li", "ol", "p", "pre", "s", "strike", "strong",
            "sub", "sup", "table", "tbody", "td", "th", "thead", "tr", "ul", "span",
        ]
    );
    for (i, tag) in tags.iter().enumerate() {
        assert!(!tags[..i].contains(tag));
    }
}

#[test]
fn attribute_table_has_three_tags() {
    let rules = allowed_attributes();
    assert_eq!(rules.len(), 3);
    assert_eq!(rules[0].tag, "a");
    assert_eq!(rules[0].names, vec!["href", "target"]);
    assert_eq!(rules[1].tag, "img");
    assert_eq!(rules[1].names, vec!["width", "height", "src", "alt", "align"]);
    assert_eq!(rules[2].tag, "input");
    assert_eq!(rules[2].names, vec!["checked", "disabled", "type"]);
}

#[test]
fn class_table_has_code_only() {
    let rules = allowed_classes();
    assert_eq!(rules.len(), 1);
    assert_eq!(rules[0].tag, "code");
    assert_eq!(
        rules[0].names,
        vec![
            "language-bash", "language-clike", "language-glsl", "language-go", "language-ini",
            "language-javascript", "language-json", "language-markup", "language-protobuf",
            "language-ruby", "language-rust", "language-scss", "language-sql", "yaml",
        ]
    );
}

#[test]
fn policy_allows_listed_tags_only() {
    let policy = AllowlistPolicy::new(None);
    for tag in allowed_tags() {
        assert!(policy.allows_tag(tag));
    }
    for tag in ["script", "style", "iframe", "div", "unknown", "h4", "A", ""] {
        assert!(!policy.allows_tag(tag));
    }
}

#[test]
fn policy_allows_listed_attributes_only() {
    let policy = AllowlistPolicy::new(None);
    assert!(policy.allows_attribute("a", "href"));
    assert!(policy.allows_attribute("a", "target"));
    assert!(policy.allows_attribute("img", "src"));
    assert!(policy.allows_attribute("img", "align"));
    assert!(policy.allows_attribute("input", "checked"));
    assert!(policy.allows_attribute("input", "type"));
    assert!(!policy.allows_attribute("a", "rel"));
    assert!(!policy.allows_attribute("a", "onclick"));
    assert!(!policy.allows_attribute("a", "src"));
    assert!(!policy.allows_attribute("img", "href"));
    assert!(!policy.allows_attribute("img", "onerror"));
    assert!(!policy.allows_attribute("p", "href"));
    assert!(!policy.allows_attribute("script", "src"));
    for tag in allowed_tags() {
        assert!(!policy.allows_attribute(tag, "class"));
        assert!(!policy.allows_attribute(tag, "rel"));
        assert!(!policy.allows_attribute(tag, "style"));
    }
}

#[test]
fn policy_allows_listed_classes_only() {
    let policy = AllowlistPolicy::new(None);
    assert!(policy.allows_class("code", "language-rust"));
    assert!(policy.allows_class("code", "language-bash"));
    assert!(policy.allows_class("code", "yaml"));
    assert!(!policy.allows_class("code", "language-yaml"));
    assert!(!policy.allows_class("code", "bad-class"));
    assert!(!policy.allows_class("code", ""));
    assert!(!policy.allows_class("p", "language-rust"));
    assert!(!policy.allows_class("pre", "yaml"));
    assert!(!policy.allows_class("unknown", "language-rust"));
}

#[test]
fn policy_forces_the_same_relation_for_every_base() {
    for base in [None, Some("https://github.com/a/b"), Some("https://example.com/"), Some("::")] {
        assert_eq!(AllowlistPolicy::new(base).link_rel(), "nofollow noopener noreferrer");
    }
}

#[test]
fn policy_without_base_denies_relative_urls() {
    let policy = AllowlistPolicy::new(None);
    assert!(matches!(policy.url_relative(), UrlPolicy::Deny));
    for relative in ["hi", "/hi", "", "../x", "//example.com/x", "?q", "#top"] {
        assert_eq!(policy.url_relative().rewrite(relative), None);
    }
}

#[test]
fn policy_with_untrusted_base_denies_relative_urls() {
    for base in ["https://google.com/", "https://example.com/org/repo", "github.com/a/b", "", "no url"] {
        let policy = UrlPolicy::for_base(Some(base));
        assert!(matches!(policy, UrlPolicy::Deny));
        assert_eq!(policy.rewrite("hi"), None);
    }
}

#[test]
fn policy_with_trusted_base_rewrites_relative_urls() {
    let policy = UrlPolicy::for_base(Some("https://github.com/org/repo"));
    match &policy {
        UrlPolicy::RewriteWithBase(resolver) => {
            assert_eq!(resolver.base, "https://github.com/org/repo")
        }
        UrlPolicy::Deny => panic!("a trusted base was denied"),
    }
    assert_eq!(
        policy.rewrite("/hi").as_deref(),
        Some("https://github.com/org/repo/blob/master/hi")
    );
    assert_eq!(
        policy.rewrite("docs/index.md").as_deref(),
        Some("https://github.com/org/repo/blob/master/docs/index.md")
    );
}

#[test]
fn policy_keeps_the_base_as_it_was_given() {
    // The host is judged as the parser reads it; the base is used as written.
    let policy = UrlPolicy::for_base(Some("https://GitLab.com/Org/Repo/"));
    assert_eq!(
        policy.rewrite("x").as_deref(),
        Some("https://GitLab.com/Org/Repo/blob/master/x")
    );
}
