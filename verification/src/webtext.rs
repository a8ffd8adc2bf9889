//! Boundaries to small text utilities of outside crates: percent-decoding
//! of URL paths, the SHA-256 hex digest, and URL host extraction. Each is
//! a pure function of its input, named and taken on trust; all use of the
//! results is verified.

use vstd::prelude::*;

verus! {

/// The UTF-8 string a percent-encoded path decodes to, if its decoded
/// bytes are valid UTF-8.
pub uninterp spec fn percent_decoded_of(s: Seq<char>) -> Option<Seq<char>>;

/// Relies on percent_encoding::percent_decode_str and its decode_utf8:
/// the decoded text depends on the input alone.
#[verifier::external_body]
pub fn percent_path_decode(s: &str) -> (r: Option<String>)
    ensures
        match r {
            Some(t) => percent_decoded_of(s@) == Some(t@),
            None => percent_decoded_of(s@) is None,
        },
{
    percent_encoding::percent_decode_str(s).decode_utf8().ok().map(|c| c.into_owned())
}

/// The lowercase hex SHA-256 digest of a string's bytes.
pub uninterp spec fn sha256_hex_of(s: Seq<char>) -> Seq<char>;

/// Relies on sha256::digest: the hex digest depends on the input alone.
#[verifier::external_body]
pub fn sha256_hex(s: &str) -> (r: String)
    ensures
        r@ == sha256_hex_of(s@),
{
    sha256::digest(s)
}

/// The host of a string parsed as a URL, if it parses and has one.
pub uninterp spec fn host_of(s: Seq<char>) -> Option<Seq<char>>;

/// Relies on url::Url::parse and Url::host_str: the parsed host depends
/// on the input alone.
#[verifier::external_body]
pub fn url_host(s: &str) -> (r: Option<String>)
    ensures
        match r {
            Some(h) => host_of(s@) == Some(h@),
            None => host_of(s@) is None,
        },
{
    match url::Url::parse(s) {
        Ok(u) => u.host_str().map(|h| h.to_string()),
        Err(_) => None,
    }
}

} // verus!
