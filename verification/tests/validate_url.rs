//! The network-destination guard, exercised through the real URL parser.

use crawler_host::guard::validate_url;

#[test]
fn plain_https_url_is_approved() {
    assert_eq!(validate_url("https://example.com/file"), Ok(true));
}

#[test]
fn plain_http_url_is_approved() {
    assert_eq!(validate_url("http://example.com/"), Ok(true));
}

#[test]
fn uppercase_scheme_is_approved_after_normalization() {
    // Url::scheme reports the scheme lower-cased, so the guard sees "https".
    assert_eq!(validate_url("HTTPS://example.com/file"), Ok(true));
}

#[test]
fn ftp_scheme_is_rejected() {
    assert_eq!(
        validate_url("ftp://example.com"),
        Err(String::from("Only HTTP and HTTPS protocols are allowed"))
    );
}

#[test]
fn file_scheme_is_rejected() {
    assert_eq!(
        validate_url("file:///etc/passwd"),
        Err(String::from("Only HTTP and HTTPS protocols are allowed"))
    );
}

#[test]
fn unparseable_string_is_rejected() {
    assert_eq!(validate_url("not a url"), Err(String::from("Invalid URL format")));
}

#[test]
fn relative_reference_is_rejected() {
    assert_eq!(validate_url("/just/a/path"), Err(String::from("Invalid URL format")));
}

#[test]
fn localhost_is_blocked() {
    assert_eq!(
        validate_url("http://localhost/"),
        Err(String::from("Access to localhost and internal networks is not allowed"))
    );
}

#[test]
fn uppercase_localhost_is_blocked() {
    assert_eq!(
        validate_url("http://LOCALHOST/"),
        Err(String::from("Access to localhost and internal networks is not allowed"))
    );
}

#[test]
fn host_with_localhost_prefix_is_blocked() {
    assert_eq!(
        validate_url("https://localhost.example.com/page"),
        Err(String::from("Access to localhost and internal networks is not allowed"))
    );
}

#[test]
fn loopback_address_is_blocked() {
    assert_eq!(
        validate_url("http://127.0.0.1:8080/api"),
        Err(String::from("Access to localhost and internal networks is not allowed"))
    );
}

#[test]
fn unspecified_address_is_blocked() {
    assert_eq!(
        validate_url("http://0.0.0.0/"),
        Err(String::from("Access to localhost and internal networks is not allowed"))
    );
}

#[test]
fn private_network_literal_is_blocked() {
    assert_eq!(
        validate_url("https://192.168.0.0/"),
        Err(String::from("Access to localhost and internal networks is not allowed"))
    );
}

#[test]
fn host_extending_private_literal_is_blocked() {
    assert_eq!(
        validate_url("https://192.168.0.0.example.com/x"),
        Err(String::from("Access to localhost and internal networks is not allowed"))
    );
}

#[test]
fn nearby_private_address_without_the_literal_prefix_is_approved() {
    // The block list matches text prefixes only: 192.168.0.55 does not
    // begin with the literal "192.168.0.0", so it passes, private though
    // the address is.
    assert_eq!(validate_url("https://192.168.0.55/x"), Ok(true));
}

#[test]
fn link_local_literal_is_blocked() {
    assert_eq!(
        validate_url("http://169.254.0.0/"),
        Err(String::from("Access to localhost and internal networks is not allowed"))
    );
}

#[test]
fn deceptive_host_starting_with_blocked_literal_is_blocked() {
    assert_eq!(
        validate_url("https://10.0.0.0.evil.example/"),
        Err(String::from("Access to localhost and internal networks is not allowed"))
    );
}

#[test]
fn bracketed_ipv6_loopback_slips_past_the_literal() {
    // An IPv6 host parses to its bracketed form "[::1]", which no blocked
    // literal prefixes, so the "::1" entry never fires on a parsed URL.
    assert_eq!(validate_url("http://[::1]/"), Ok(true));
}

#[test]
fn private_address_outside_the_literals_is_approved() {
    // The guard matches text prefixes, not CIDR ranges: 10.1.2.3 is a
    // private address but matches no blocked literal, so it passes.
    assert_eq!(validate_url("http://10.1.2.3/"), Ok(true));
}
