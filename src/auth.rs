//! Values of the `authorization` header.
use vstd::prelude::*;
use vstd::string::StringExecFns;

verus! {

/// The standard, padded base64 text of the UTF-8 bytes of `s`.
pub uninterp spec fn base64_of(s: Seq<char>) -> Seq<char>;

/// A character of the standard base64 alphabet, or the padding `=`.
pub open spec fn is_base64_char(c: char) -> bool {
    ('A' <= c && c <= 'Z') || ('a' <= c && c <= 'z') || ('0' <= c && c <= '9') || c == '+' || c
        == '/' || c == '='
}

/// Relies on `base64::encode` (standard alphabet, with padding): its text is a
/// function of the input's bytes alone and is written in that alphabet. A
/// `str` never holds more than `isize::MAX` bytes, so the size computation
/// inside cannot overflow.
#[verifier::external_body]
fn base64_encode(s: &str) -> (r: String)
    ensures
        r@ == base64_of(s@),
        forall|i: int| 0 <= i < r@.len() ==> is_base64_char(#[trigger] r@[i]),
{
    base64::encode(s)
}

/// `username:password`, or `username:` when there is no password.
pub open spec fn credentials_text(username: Seq<char>, password: Option<Seq<char>>) -> Seq<char> {
    match password {
        Some(p) => username + ":"@ + p,
        None => username + ":"@,
    }
}

pub open spec fn opt_view(s: Option<&str>) -> Option<Seq<char>> {
    match s {
        Some(t) => Some(t@),
        None => None,
    }
}

/// The text that basic authentication encodes.
pub fn basic_credentials(username: &str, password: Option<&str>) -> (r: String)
    ensures
        r@ == credentials_text(username@, opt_view(password)),
{
    let mut text = String::from_str(username);
    text.append(":");
    match password {
        Some(p) => text.append(p),
        None => {},
    }
    text
}

/// The basic-authentication header value for already encoded credentials.
pub fn basic_auth_header(encoded: &str) -> (r: String)
    ensures
        r@ == "Basic "@ + encoded@,
{
    String::from_str("Basic ").concat(encoded)
}

/// `Basic ` followed by the base64 text of `username:password`.
pub fn basic_auth_value(username: &str, password: Option<&str>) -> (r: String)
    ensures
        r@ == "Basic "@ + base64_of(credentials_text(username@, opt_view(password))),
        forall|i: int| "Basic "@.len() <= i < r@.len() ==> is_base64_char(#[trigger] r@[i]),
{
    let credentials = basic_credentials(username, password);
    let encoded = base64_encode(credentials.as_str());
    let r = basic_auth_header(encoded.as_str());
    assert forall|i: int| "Basic "@.len() <= i < r@.len() implies is_base64_char(#[trigger] r@[i]) by {
        assert(r@[i] == encoded@[i - "Basic "@.len()]);
    }
    r
}

/// `Bearer ` followed by the token.
pub fn bearer_auth_value(token: &str) -> (r: String)
    ensures
        r@ == "Bearer "@ + token@,
{
    String::from_str("Bearer ").concat(token)
}

} // verus!
