use website::{verify_password, verify_shortstring, verify_username};
use website::validate::{verify_link, verify_short_request};

#[test]
fn usernames_accept_ascii_alnum_and_underscore() {
    assert!(verify_username("alice"));
    assert!(verify_username("a"));
    assert!(verify_username("Bob_42"));
    assert!(verify_username(&"x".repeat(64)));
}

#[test]
fn usernames_reject_bad_length_or_charset() {
    assert!(!verify_username(""));
    assert!(!verify_username(&"x".repeat(65)));
    assert!(!verify_username("with space"));
    assert!(!verify_username("dash-ed"));
    assert!(!verify_username("ümlaut"));
    assert!(!verify_username("semi;colon"));
}

#[test]
fn passwords_are_checked_by_byte_length_only() {
    assert!(!verify_password("1234567"));
    assert!(verify_password("12345678"));
    assert!(verify_password(&"p".repeat(64)));
    assert!(!verify_password(&"p".repeat(65)));
    // charset is unrestricted; length counts bytes, not characters
    assert!(verify_password("pässwörter"));
    assert!(!verify_password("ééé"));
}

#[test]
fn shortstrings_allow_alnum_underscore_hyphen_within_bounds() {
    assert!(verify_shortstring("ab"));
    assert!(verify_shortstring("my-link_1"));
    assert!(verify_shortstring(&"s".repeat(30)));
    assert!(!verify_shortstring("a"));
    assert!(!verify_shortstring(&"s".repeat(31)));
    assert!(!verify_shortstring("no/slash"));
    assert!(!verify_shortstring("no space"));
}

#[test]
fn links_must_be_http_or_https_urls() {
    assert!(verify_link("https://example.org/path?q=1"));
    assert!(verify_link("http://example.org"));
    assert!(!verify_link("ftp://example.org"));
    assert!(!verify_link("example.org/no-scheme"));
    assert!(!verify_link("not a url"));
}

#[test]
fn short_request_combines_link_and_code_checks() {
    assert!(verify_short_request("https://example.org", None));
    assert!(verify_short_request("https://example.org", Some("code-1")));
    assert!(!verify_short_request("https://example.org", Some("x")));
    assert!(!verify_short_request("ftp://example.org", None));
    assert!(!verify_short_request("nonsense", Some("code-1")));
}
