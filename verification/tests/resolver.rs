use render::resolver::RelativeUrlResolver;

#[test]
fn resolve_treats_base_as_directory() {
    let plain = RelativeUrlResolver::new("https://github.com/org/repo");
    let slashed = RelativeUrlResolver::new("https://github.com/org/repo/");
    assert_eq!(plain.resolve("hi"), "https://github.com/org/repo/blob/master/hi");
    assert_eq!(slashed.resolve("hi"), "https://github.com/org/repo/blob/master/hi");
    assert_eq!(plain.resolve("/hi"), "https://github.com/org/repo/blob/master/hi");
    assert_eq!(slashed.resolve("/hi"), "https://github.com/org/repo/blob/master/hi");
}

#[test]
fn resolve_of_empty_link_names_the_browse_directory() {
    let resolver = RelativeUrlResolver::new("https://gitlab.com/a/b");
    assert_eq!(resolver.resolve(""), "https://gitlab.com/a/b/blob/master/");
    assert_eq!(resolver.resolve("/"), "https://gitlab.com/a/b/blob/master/");
}

#[test]
fn resolve_of_empty_base_starts_at_the_root() {
    let resolver = RelativeUrlResolver::new("");
    assert_eq!(resolver.resolve("x"), "/blob/master/x");
}

#[test]
fn resolve_joins_text_without_normalising() {
    let resolver = RelativeUrlResolver::new("https://bitbucket.org/a/b//");
    assert_eq!(
        resolver.resolve("../c/./d%20e?q=1#frag"),
        "https://bitbucket.org/a/b//blob/master/../c/./d%20e?q=1#frag"
    );
    assert_eq!(
        resolver.resolve("//other.example/x"),
        "https://bitbucket.org/a/b//blob/master//other.example/x"
    );
}

#[test]
fn resolve_keeps_characters_outside_ascii() {
    let resolver = RelativeUrlResolver::new("https://github.com/é/ü");
    assert_eq!(resolver.resolve("docs/日本語.md"), "https://github.com/é/ü/blob/master/docs/日本語.md");
}

#[test]
fn resolve_twice_nests_the_browse_path() {
    let resolver = RelativeUrlResolver::new("https://github.com/org/repo");
    let once = resolver.resolve("hi");
    let twice = resolver.resolve(&once);
    assert_eq!(
        twice,
        "https://github.com/org/repo/blob/master/https://github.com/org/repo/blob/master/hi"
    );
}

#[test]
fn resolver_keeps_its_base() {
    let resolver = RelativeUrlResolver::new("https://github.com/org/repo");
    assert_eq!(resolver.base, "https://github.com/org/repo");
}
