//! Network-destination guard.
//!
//! [`validate_url`] approves a candidate URL only when it parses as an
//! absolute URL, its scheme is `http` or `https`, and its lower-cased host
//! does not start with one of a fixed list of loopback / private-network
//! literals. The host check is a literal text-prefix match, not a
//! CIDR-range test: `10.0.0.0.evil.example` is blocked while `10.1.2.3` is
//! not. That coarseness is deliberate and kept for compatibility. For the
//! same reason the `::1` literal never fires on a parsed URL: an IPv6 host
//! comes back in brackets (`[::1]`), which no blocked literal prefixes, so
//! `http://[::1]/` passes the guard.

use vstd::prelude::*;
use vstd::string::*;

use crate::text::has_prefix;

verus! {

broadcast use vstd::seq::group_seq_axioms;

/// Whether `s` parses as an absolute URL. Stands for the outcome of
/// `url::Url::parse`, a function of the input string alone.
pub uninterp spec fn url_parses(s: Seq<char>) -> bool;

/// The scheme of a URL that parses. Stands for `url::Url::scheme`, which
/// returns the scheme lower-cased and without the `:` delimiter.
pub uninterp spec fn url_scheme(s: Seq<char>) -> Seq<char>;

/// The host component of a URL that parses, or the empty string when the
/// URL has none. Stands for `url::Url::host_str`.
pub uninterp spec fn url_host(s: Seq<char>) -> Seq<char>;

/// The lower-casing of a string. Stands for `str::to_lowercase`, a
/// function of the input characters alone.
pub uninterp spec fn lower_of(s: Seq<char>) -> Seq<char>;

/// Relies on `url::Url::parse` for absolute-URL parsing, and on
/// `Url::scheme` and `Url::host_str` to read the two components the guard
/// inspects. All three are functions of the input string alone. A URL
/// without a host component is handed on as an empty host string.
#[verifier::external_body]
fn parse_url(s: &str) -> (r: Option<(String, String)>)
    ensures
        r is Some <==> url_parses(s@),
        r matches Some(p) ==> p.0@ == url_scheme(s@) && p.1@ == url_host(s@),
{
    match url::Url::parse(s) {
        Ok(u) => {
            let scheme = u.scheme().to_string();
            let host = match u.host_str() {
                Some(h) => h.to_string(),
                None => String::new(),
            };
            Some((scheme, host))
        }
        Err(_) => None,
    }
}

/// Relies on `str::to_lowercase`; the result depends on the input
/// characters alone.
#[verifier::external_body]
fn to_lowercase(s: &str) -> (r: String)
    ensures
        r@ == lower_of(s@),
{
    s.to_lowercase()
}

/// The schemes the guard lets through.
pub open spec fn scheme_allowed(sch: Seq<char>) -> bool {
    sch == "http"@ || sch == "https"@
}

/// Whether a (lower-cased) host string starts with one of the blocked
/// loopback / private-network literals. Plain equality to a literal is a
/// special case of the prefix match.
pub open spec fn blocked_host(h: Seq<char>) -> bool {
    ||| "localhost"@.is_prefix_of(h)
    ||| "127.0.0.1"@.is_prefix_of(h)
    ||| "0.0.0.0"@.is_prefix_of(h)
    ||| "::1"@.is_prefix_of(h)
    ||| "10.0.0.0"@.is_prefix_of(h)
    ||| "172.16.0.0"@.is_prefix_of(h)
    ||| "192.168.0.0"@.is_prefix_of(h)
    ||| "169.254.0.0"@.is_prefix_of(h)
}

/// A URL the guard approves: it parses, its scheme is allowed, and its
/// lower-cased host is not blocked.
pub open spec fn url_allowed(s: Seq<char>) -> bool {
    &&& url_parses(s)
    &&& scheme_allowed(url_scheme(s))
    &&& !blocked_host(lower_of(url_host(s)))
}

/// The error message the guard reports for a URL it rejects, by the first
/// failing check.
pub open spec fn guard_error(s: Seq<char>) -> Seq<char>
    recommends
        !url_allowed(s),
{
    if !url_parses(s) {
        "Invalid URL format"@
    } else if !scheme_allowed(url_scheme(s)) {
        "Only HTTP and HTTPS protocols are allowed"@
    } else {
        "Access to localhost and internal networks is not allowed"@
    }
}

/// Whether the lower-cased host starts with one of the blocked literals.
fn is_blocked_host(h: &str) -> (r: bool)
    ensures
        r == blocked_host(h@),
{
    has_prefix(h, "localhost") || has_prefix(h, "127.0.0.1") || has_prefix(h, "0.0.0.0")
        || has_prefix(h, "::1") || has_prefix(h, "10.0.0.0") || has_prefix(h, "172.16.0.0")
        || has_prefix(h, "192.168.0.0") || has_prefix(h, "169.254.0.0")
}

/// Approves or rejects a candidate URL.
///
/// Succeeds, returning `true`, exactly on the URLs that [`url_allowed`]
/// describes. A rejected URL gets the message of the first failing check:
/// `Invalid URL format` when it does not parse as an absolute URL, the
/// scheme message when it parses with a scheme other than `http`/`https`,
/// and the internal-networks message when its lower-cased host starts with
/// a blocked literal.
pub fn validate_url(url: &str) -> (r: Result<bool, String>)
    ensures
        r is Ok <==> url_allowed(url@),
        r matches Ok(b) ==> b,
        r matches Err(e) ==> e@ == guard_error(url@),
{
    match parse_url(url) {
        None => Err(String::from_str("Invalid URL format")),
        Some(parts) => {
            let (scheme, host) = parts;
            let http = String::from_str("http");
            let https = String::from_str("https");
            if !(scheme == http || scheme == https) {
                return Err(String::from_str("Only HTTP and HTTPS protocols are allowed"));
            }
            let host_lower = to_lowercase(host.as_str());
            if is_blocked_host(host_lower.as_str()) {
                return Err(
                    String::from_str("Access to localhost and internal networks is not allowed"),
                );
            }
            Ok(true)
        },
    }
}

} // verus!
