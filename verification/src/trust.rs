//! Which base locations may anchor relative links.

use vstd::prelude::*;
use crate::text::same_text;

verus! {

/// The host that the URL parser finds in `input`: `None` where `input` is no
/// absolute URL, or is one without a host.
pub uninterp spec fn parsed_host(input: Seq<char>) -> Option<Seq<char>>;

/// The characters of an optional string slice.
pub open spec fn optional_text(s: Option<&str>) -> Option<Seq<char>> {
    match s {
        Some(t) => Some(t@),
        None => None,
    }
}

/// The hosts below which a repository's files can be browsed.
pub open spec fn trusted_hosts() -> Seq<Seq<char>> {
    seq!["github.com"@, "gitlab.com"@, "bitbucket.org"@]
}

/// Whether `host` names one of the trusted hosts. An absent host is not trusted.
pub open spec fn host_is_trusted(host: Option<Seq<char>>) -> bool {
    match host {
        Some(h) => trusted_hosts().contains(h),
        None => false,
    }
}

/// Whether relative links may be anchored at `base`: it must be an absolute
/// URL whose host is trusted. An absent base is not trusted.
pub open spec fn base_is_trusted(base: Option<Seq<char>>) -> bool {
    match base {
        Some(b) => host_is_trusted(parsed_host(b)),
        None => false,
    }
}

/// Calls `url::Url::parse` on `input` and, where it succeeds, `Url::host_str`
/// on the parsed URL. The contract only gives the outcome its name: the host
/// is whatever the parser finds, and a parse error counts as no host.
#[verifier::external_body]
fn host_of(input: &str) -> (host: Option<String>)
    ensures
        match host {
            Some(h) => parsed_host(input@) == Some(h@),
            None => parsed_host(input@).is_none(),
        },
{
    url::Url::parse(input).ok().and_then(|parsed| parsed.host_str().map(|h| h.to_string()))
}

/// Decides whether a host, as the URL parser gave it, is trusted.
pub fn is_trusted_host(host: Option<&str>) -> (trusted: bool)
    ensures
        trusted == host_is_trusted(optional_text(host)),
{
    match host {
        Some(h) => {
            let trusted = same_text(h, "github.com") || same_text(h, "gitlab.com") || same_text(
                h,
                "bitbucket.org",
            );
            proof {
                let hosts = trusted_hosts();
                assert(hosts[0] == "github.com"@ && hosts[1] == "gitlab.com"@ && hosts[2]
                    == "bitbucket.org"@);
            }
            trusted
        },
        None => false,
    }
}

/// Decides whether relative links may be anchored at `base_url`.
pub fn is_trusted_base(base_url: Option<&str>) -> (trusted: bool)
    ensures
        trusted == base_is_trusted(optional_text(base_url)),
{
    match base_url {
        Some(base) => {
            match host_of(base) {
                Some(host) => is_trusted_host(Some(host.as_str())),
                None => false,
            }
        },
        None => false,
    }
}

} // verus!
