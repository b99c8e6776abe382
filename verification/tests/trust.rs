use render::trust::{is_trusted_base, is_trusted_host};

#[test]
fn the_three_hosts_are_trusted() {
    assert!(is_trusted_host(Some("github.com")));
    assert!(is_trusted_host(Some("gitlab.com")));
    assert!(is_trusted_host(Some("bitbucket.org")));
}

#[test]
fn other_hosts_are_not_trusted() {
    assert!(!is_trusted_host(None));
    assert!(!is_trusted_host(Some("")));
    assert!(!is_trusted_host(Some("google.com")));
    assert!(!is_trusted_host(Some("example.com")));
    assert!(!is_trusted_host(Some("www.github.com")));
    assert!(!is_trusted_host(Some("github.com.evil.example")));
    assert!(!is_trusted_host(Some("github.com.")));
    assert!(!is_trusted_host(Some("GitHub.com")));
    assert!(!is_trusted_host(Some("bitbucket.com")));
}

#[test]
fn base_with_trusted_host_is_trusted() {
    assert!(is_trusted_base(Some("https://github.com/rust-lang/test")));
    assert!(is_trusted_base(Some("https://gitlab.com/rust-lang/test/")));
    assert!(is_trusted_base(Some("http://bitbucket.org")));
    assert!(is_trusted_base(Some("https://user@github.com:8443/a/b?c#d")));
}

#[test]
fn base_host_is_read_by_the_url_parser() {
    // The parser lowers the case of a host and leaves the rest of the URL out.
    assert!(is_trusted_base(Some("https://GitHub.COM/rust-lang/test")));
    assert!(!is_trusted_base(Some("https://example.com/github.com")));
    assert!(!is_trusted_base(Some("https://github.com.example.com/")));
    assert!(!is_trusted_base(Some("https://example.com/?host=gitlab.com")));
}

#[test]
fn base_that_cannot_be_trusted() {
    assert!(!is_trusted_base(None));
    assert!(!is_trusted_base(Some("")));
    assert!(!is_trusted_base(Some("github.com")));
    assert!(!is_trusted_base(Some("github.com/rust-lang/test")));
    assert!(!is_trusted_base(Some("/rust-lang/test")));
    assert!(!is_trusted_base(Some("https://google.com/")));
    assert!(!is_trusted_base(Some("mailto:someone@github.com")));
    assert!(!is_trusted_base(Some("data:text/plain,github.com")));
    assert!(!is_trusted_base(Some("https://")));
}
