//! The library's trusted boundary: every call into an outside crate (and
//! into the few std functions vstd gives no specification) stands here,
//! behind a contract that states only what the callee's source or
//! documentation shows.

use vstd::prelude::*;

verus! {

/// Whether `s` parses as a well-formed absolute URL.
pub uninterp spec fn url_ok(s: Seq<char>) -> bool;

/// Relies on `reqwest::Url::parse` (the `url` crate's parser): whether a
/// string is accepted is a function of the string alone.
#[verifier::external_body]
pub fn parse_url_ok(s: &str) -> (r: bool)
    ensures
        r == url_ok(s@),
{
    reqwest::Url::parse(s).is_ok()
}

/// The percent-decoding of `s`, or `None` where the decoded bytes are not
/// valid UTF-8.
pub uninterp spec fn pct_decoded(s: Seq<char>) -> Option<Seq<char>>;

/// Relies on `percent_encoding::percent_decode_str` followed by
/// `decode_utf8`: the result depends on the input string alone, and bytes
/// that are not part of a percent sequence pass through unchanged, so a
/// string without `%` decodes to itself.
#[verifier::external_body]
pub fn percent_decode(s: &str) -> (r: Option<String>)
    ensures
        r.deep_view() == pct_decoded(s@),
        !s@.contains('%') ==> r.deep_view() == Some(s@),
{
    match percent_encoding::percent_decode_str(s).decode_utf8() {
        Ok(c) => Some(c.into_owned()),
        Err(_) => None,
    }
}

/// The Unicode lowercasing of `s`, a function of its characters alone.
pub uninterp spec fn lower_of(s: Seq<char>) -> Seq<char>;

/// Relies on `str::to_lowercase`: the result depends on the characters
/// alone, and an empty string stays empty.
#[verifier::external_body]
pub fn lowercase(s: &str) -> (r: String)
    ensures
        r@ == lower_of(s@),
        s@.len() == 0 ==> r@.len() == 0,
{
    s.to_lowercase()
}

/// Relies on `String` implementing `FromIterator<char>`: collecting the
/// characters of the vector yields the string of exactly those characters.
#[verifier::external_body]
pub fn chars_to_string(v: &Vec<char>) -> (r: String)
    ensures
        r@ == v@,
{
    v.iter().collect()
}

/// Relies on `rand`'s `Alphanumeric` distribution through
/// `SampleString::sample_string`, which generates a string of exactly
/// `length` random alphanumeric characters. Nothing else can be promised
/// of a random value.
#[verifier::external_body]
pub fn generate_random_string(length: usize) -> (r: String)
    ensures
        r@.len() == length as nat,
{
    rand::distr::SampleString::sample_string(
        &rand::distr::Alphanumeric,
        &mut rand::rng(),
        length,
    )
}

} // verus!
