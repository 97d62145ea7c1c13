use vstd::prelude::*;

use fake::Fake;
use std::fmt::Write;

verus! {

// Names for what outside calls return, where the result depends on the
// arguments alone but stating it exactly would take pages.

/// The lower-case form `str::to_lowercase` gives a string.
pub uninterp spec fn lower_of(s: Seq<char>) -> Seq<char>;

/// The upper-case form `str::to_uppercase` gives a string.
pub uninterp spec fn upper_of(s: Seq<char>) -> Seq<char>;

/// Whether `regex::Regex::new` accepts a pattern.
pub uninterp spec fn regex_valid(pattern: Seq<char>) -> bool;

/// Whether `regex::Regex::is_match` finds a pattern in a text.
pub uninterp spec fn regex_match(pattern: Seq<char>, text: Seq<char>) -> bool;

/// Relies on String::push: appends exactly the one character.
#[verifier::external_body]
pub fn push_char(s: &mut String, c: char)
    ensures
        final(s)@ == old(s)@.push(c),
{
    s.push(c);
}

/// Relies on str::to_lowercase: the result depends on the characters alone.
#[verifier::external_body]
pub fn to_lowercase(s: &str) -> (r: String)
    ensures
        r@ == lower_of(s@),
{
    s.to_lowercase()
}

/// Relies on str::to_uppercase: the result depends on the characters alone.
#[verifier::external_body]
pub fn to_uppercase(s: &str) -> (r: String)
    ensures
        r@ == upper_of(s@),
{
    s.to_uppercase()
}

/// Relies on regex::Regex::new and regex::Regex::is_match: whether a pattern
/// compiles, and whether a compiled pattern matches a text, depend on the two
/// strings alone. Yields nothing exactly when the pattern does not compile.
#[verifier::external_body]
pub fn regex_is_match(pattern: &str, text: &str) -> (r: Option<bool>)
    ensures
        r is Some <==> regex_valid(pattern@),
        r matches Some(m) ==> m == regex_match(pattern@, text@),
{
    match regex::Regex::new(pattern) {
        Ok(re) => Some(re.is_match(text)),
        Err(_) => None,
    }
}

/// Relies on rand::random_range: the result lies within the given range;
/// an empty range would make it panic.
#[verifier::external_body]
pub fn rand_i64_between(lo: i64, hi: i64) -> (r: i64)
    requires
        lo <= hi,
    ensures
        lo <= r <= hi,
{
    rand::random_range(lo..=hi)
}

/// Relies on rand::random_range: the result lies within the given range;
/// an empty range would make it panic.
#[verifier::external_body]
pub fn rand_u64_between(lo: u64, hi: u64) -> (r: u64)
    requires
        lo <= hi,
    ensures
        lo <= r <= hi,
{
    rand::random_range(lo..=hi)
}

/// Relies on rand::random_range: the result lies within the given range;
/// an empty range would make it panic.
#[verifier::external_body]
pub fn rand_usize_between(lo: usize, hi: usize) -> (r: usize)
    requires
        lo <= hi,
    ensures
        lo <= r <= hi,
{
    rand::random_range(lo..=hi)
}

/// Relies on rand::random: a coin flip; nothing holds of which side came up.
#[verifier::external_body]
pub fn rand_bool() -> bool {
    rand::random()
}

/// Relies on chrono::Utc::now and DateTime::to_rfc3339: the current moment's
/// timestamp; nothing holds of the text, since it depends on the clock.
#[verifier::external_body]
pub fn now_rfc3339() -> String {
    chrono::Utc::now().to_rfc3339()
}

/// Relies on chrono::Utc::now and DateTime::format: the current moment
/// rendered with the given strftime format, or nothing when the format
/// string is not well formed.
#[verifier::external_body]
pub fn now_formatted(fmt: &str) -> Option<String> {
    let mut out = String::new();
    match write!(out, "{}", chrono::Utc::now().format(fmt)) {
        Ok(()) => Some(out),
        Err(_) => None,
    }
}

/// Relies on uuid::Uuid::new_v4 and its Display form: a fresh random UUID in
/// the hyphenated form, which is 36 characters long.
#[verifier::external_body]
pub fn new_uuid_string() -> (r: String)
    ensures
        r@.len() == 36,
{
    uuid::Uuid::new_v4().to_string()
}

/// Relies on fake's lorem Sentence faker: a random sentence of a few words.
#[verifier::external_body]
pub fn fake_sentence() -> String {
    fake::faker::lorem::en::Sentence(3..10).fake()
}

/// Relies on fake's internet FreeEmail faker: a random plausible email.
#[verifier::external_body]
pub fn fake_email() -> String {
    fake::faker::internet::en::FreeEmail().fake()
}

/// Relies on fake's name Name faker: a random plausible person name.
#[verifier::external_body]
pub fn fake_name() -> String {
    fake::faker::name::en::Name().fake()
}

/// Relies on fake's internet Username faker: a random plausible username.
#[verifier::external_body]
pub fn fake_username() -> String {
    fake::faker::internet::en::Username().fake()
}

/// Relies on fake's company CompanyName faker: a random plausible company.
#[verifier::external_body]
pub fn fake_company() -> String {
    fake::faker::company::en::CompanyName().fake()
}

} // verus!
