//! Calls into std and outside crates whose behaviour the rest of the library
//! takes on trust, each with the contract its documentation gives.
use base64::Engine;
use vstd::prelude::*;

verus! {

/// `String::push`: appends one character to the end of the string.
#[verifier::external_body]
pub fn push_char(s: &mut String, c: char)
    ensures
        final(s)@ == old(s)@.push(c),
{
    s.push(c);
}

} // verus!

verus! {

/// The serialization of the URL that the `url` crate parses out of `input`,
/// or `None` where `Url::parse` refuses it.
pub uninterp spec fn url_parse(input: Seq<char>) -> Option<Seq<char>>;

/// `url::Url::parse`: parses `input` as an absolute URL and gives its
/// serialization (`Url::as_str`); `None` where the parser refuses it.
/// What the parser accepts and how it normalizes is left to the name
/// `url_parse`.
#[verifier::external_body]
pub fn parse_url(input: &str) -> (r: Option<String>)
    ensures
        match r {
            Some(s) => url_parse(input@) == Some(s@),
            None => url_parse(input@) is None,
        },
{
    match url::Url::parse(input) {
        Ok(url) => Some(url.as_str().to_string()),
        Err(_) => None,
    }
}

/// The bytes that the standard base64 alphabet (with padding) decodes
/// `input` into, or `None` where it is not valid base64.
pub uninterp spec fn base64_standard_decode(input: Seq<char>) -> Option<Seq<u8>>;

/// `base64::engine::general_purpose::STANDARD.decode`: decodes `input`
/// with the standard alphabet; `None` where the decoder reports an error.
/// Which inputs are valid, and what they decode to, is left to the name
/// `base64_standard_decode`.
#[verifier::external_body]
pub fn decode_base64_standard(input: &str) -> (r: Option<Vec<u8>>)
    ensures
        match r {
            Some(v) => base64_standard_decode(input@) == Some(v@),
            None => base64_standard_decode(input@) is None,
        },
{
    match base64::engine::general_purpose::STANDARD.decode(input) {
        Ok(bytes) => Some(bytes),
        Err(_) => None,
    }
}

} // verus!
