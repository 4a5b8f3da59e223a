//! Input validation that runs before any store call: username, password and
//! user-chosen short-code checks, exactly as the route handlers apply them.

use vstd::prelude::*;
use vstd::string::StrSliceExecFns;

verus! {

/// Names the scheme of a string that parses as an absolute URL (`None` when
/// the string does not parse): a function of the input alone.
pub uninterp spec fn url_scheme_of(s: Seq<char>) -> Option<Seq<char>>;

/// Relies on url's `Url::parse` and `Url::scheme`: parsing is deterministic
/// in the input string, and a string that fails to parse has no scheme.
#[verifier::external_body]
fn url_scheme(s: &str) -> (r: Option<String>)
    ensures
        match r {
            Some(scheme) => url_scheme_of(s@) == Some(scheme@),
            None => url_scheme_of(s@) is None,
        },
{
    match url::Url::parse(s) {
        Ok(u) => Some(u.scheme().to_owned()),
        Err(_) => None,
    }
}

/// String equality, stated over the character sequences.
pub fn str_eq(a: &str, b: &str) -> (r: bool)
    ensures
        r == (a@ == b@),
{
    let x: String = a.to_owned();
    let y: String = b.to_owned();
    x == y
}

/// An ASCII alphanumeric character.
pub open spec fn is_alnum_char(c: char) -> bool {
    ('a' <= c && c <= 'z') || ('A' <= c && c <= 'Z') || ('0' <= c && c <= '9')
}

/// A character allowed in a username: ASCII alphanumeric or underscore.
pub open spec fn is_name_char(c: char) -> bool {
    is_alnum_char(c) || c == '_'
}

/// A character allowed in a user-chosen short code: username characters plus '-'.
pub open spec fn is_short_char(c: char) -> bool {
    is_name_char(c) || c == '-'
}

/// A valid username: 1 to 64 characters, all ASCII alphanumeric or underscore.
/// (For such strings the byte length and the character length coincide.)
pub open spec fn username_ok(s: Seq<char>) -> bool {
    1 <= s.len() <= 64 && (forall|i: int| 0 <= i < s.len() ==> is_name_char(#[trigger] s[i]))
}

/// A valid password: 8 to 64 bytes, character set unrestricted.
pub open spec fn password_ok(s: Seq<char>) -> bool {
    8 <= vstd::utf8::encode_utf8(s).len() <= 64
}

/// A valid user-chosen short code: 2 to 30 characters, ASCII alphanumeric,
/// underscore or hyphen.
pub open spec fn shortstring_ok(s: Seq<char>) -> bool {
    2 <= s.len() <= 30 && (forall|i: int| 0 <= i < s.len() ==> is_short_char(#[trigger] s[i]))
}

/// Whether a byte is ASCII alphanumeric or underscore.
fn name_byte(b: u8) -> (r: bool)
    ensures
        r == (b == 95 || 97 <= b <= 122 || 65 <= b <= 90 || 48 <= b <= 57),
{
    b == 95 || (97 <= b && b <= 122) || (65 <= b && b <= 90) || (48 <= b && b <= 57)
}

/// A non-ASCII string contains a character no predicate over ASCII characters
/// accepts, so none of the validators can accept it.
proof fn lemma_non_ascii_has_bad_char(s: Seq<char>)
    requires
        !vstd::utf8::is_ascii_chars(s),
    ensures
        exists|i: int| 0 <= i < s.len() && !is_name_char(#[trigger] s[i]) && !is_short_char(s[i]),
{
    let i = choose|i: int| !(0 <= i < s.len() ==> '\0' <= #[trigger] s[i] <= '\u{7f}');
    assert(0 <= i < s.len() && !is_name_char(s[i]) && !is_short_char(s[i]));
}

/// Checks that a username is 1 to 64 bytes, each ASCII alphanumeric or '_'.
pub fn verify_username(username: &str) -> (r: bool)
    ensures
        r == username_ok(username@),
{
    if !username.is_ascii() {
        proof {
            lemma_non_ascii_has_bad_char(username@);
        }
        return false;
    }
    let n = username.unicode_len();
    if n < 1 || n > 64 {
        return false;
    }
    let mut i: usize = 0;
    while i < n
        invariant
            username.is_ascii(),
            n == username@.len(),
            1 <= n <= 64,
            i <= n,
            forall|j: int| 0 <= j < i ==> is_name_char(#[trigger] username@[j]),
        decreases n - i,
    {
        let b = username.get_ascii(i);
        if !name_byte(b) {
            assert(!is_name_char(username@[i as int]));
            return false;
        }
        assert(is_name_char(username@[i as int]));
        i += 1;
    }
    true
}

/// Checks that a password is 8 to 64 bytes long.
pub fn verify_password(password: &str) -> (r: bool)
    ensures
        r == password_ok(password@),
{
    let n = password.as_bytes().len();
    8 <= n && n <= 64
}

/// Checks that a user-chosen short code is 2 to 30 bytes, each ASCII
/// alphanumeric, '_' or '-'.
pub fn verify_shortstring(short: &str) -> (r: bool)
    ensures
        r == shortstring_ok(short@),
{
    if !short.is_ascii() {
        proof {
            lemma_non_ascii_has_bad_char(short@);
        }
        return false;
    }
    let n = short.unicode_len();
    if n < 2 || n > 30 {
        return false;
    }
    let mut i: usize = 0;
    while i < n
        invariant
            short.is_ascii(),
            n == short@.len(),
            2 <= n <= 30,
            i <= n,
            forall|j: int| 0 <= j < i ==> is_short_char(#[trigger] short@[j]),
        decreases n - i,
    {
        let b = short.get_ascii(i);
        if !(name_byte(b) || b == 45) {
            assert(!is_short_char(short@[i as int]));
            return false;
        }
        assert(is_short_char(short@[i as int]));
        i += 1;
    }
    true
}

/// A link is accepted when it parses as a URL whose scheme is `http` or
/// `https`.
pub open spec fn link_ok(s: Seq<char>) -> bool {
    url_scheme_of(s) == Some("http"@) || url_scheme_of(s) == Some("https"@)
}

/// Checks that a link parses as a URL with scheme `http` or `https`.
pub fn verify_link(link: &str) -> (r: bool)
    ensures
        r == link_ok(link@),
{
    match url_scheme(link) {
        Some(scheme) => {
            let http = str_eq(scheme.as_str(), "http");
            let https = str_eq(scheme.as_str(), "https");
            http || https
        },
        None => false,
    }
}

/// A short-link creation form is accepted when the link is a valid http(s)
/// URL and the short code, if the user chose one, passes
/// `verify_shortstring`.
pub open spec fn short_request_ok(link: Seq<char>, short: Option<Seq<char>>) -> bool {
    link_ok(link) && match short {
        Some(s) => shortstring_ok(s),
        None => true,
    }
}

/// Checks a short-link creation form: URL scheme and, when present, the
/// user-chosen code.
pub fn verify_short_request(link: &str, short: Option<&str>) -> (r: bool)
    ensures
        r == short_request_ok(link@, match short {
            Some(s) => Some(s@),
            None => None::<Seq<char>>,
        }),
{
    let link_good = verify_link(link);
    let short_good = match short {
        Some(s) => verify_shortstring(s),
        None => true,
    };
    link_good && short_good
}

} // verus!
