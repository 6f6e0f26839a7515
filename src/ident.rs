use vstd::prelude::*;
use vstd::arithmetic::power::pow;
use argon2::password_hash::rand_core::{OsRng, RngCore};
use uuid::{Builder, Uuid};

verus! {

/// What `uuid::Uuid::parse_str` makes of a text: the identifier as a 128-bit
/// integer, or `None` where the text is no identifier.
pub uninterp spec fn uuid_parse(text: Seq<char>) -> Option<u128>;

/// The lower-case hexadecimal digit of `n`, for `0 <= n < 16`.
pub open spec fn hex_digit(n: int) -> char {
    seq!['0', '1', '2', '3', '4', '5', '6', '7', '8', '9', 'a', 'b', 'c', 'd', 'e', 'f'][n]
}

/// The `k`-th of the 32 hexadecimal digits of `id`, most significant first.
pub open spec fn nibble(id: u128, k: int) -> int {
    (id as int / pow(16, (31 - k) as nat)) % 16
}

/// Which of the 32 digits stands at position `p` of the hyphenated text.
pub open spec fn digit_at(p: int) -> int {
    if p < 8 {
        p
    } else if p < 13 {
        p - 1
    } else if p < 18 {
        p - 2
    } else if p < 23 {
        p - 3
    } else {
        p - 4
    }
}

/// The hyphenated lower-case text of an identifier: its 32 hexadecimal
/// digits, most significant first, with hyphens after the 8th, 12th, 16th
/// and 20th digit.
pub open spec fn uuid_text(id: u128) -> Seq<char> {
    Seq::new(
        36,
        |p: int|
            if p == 8 || p == 13 || p == 18 || p == 23 {
                '-'
            } else {
                hex_digit(nibble(id, digit_at(p)))
            },
    )
}

/// Relies on `uuid::Uuid::parse_str`, read as an integer with `as_u128`.
#[verifier::external_body]
pub(crate) fn parse_uuid(text: &str) -> (r: Option<u128>)
    ensures
        r == uuid_parse(text@),
{
    Uuid::parse_str(text).ok().map(|u| u.as_u128())
}

/// Relies on `Display` of `uuid::Uuid` (built with `Uuid::from_u128`), whose
/// hyphenated text `Uuid::parse_str` reads back as the same identifier.
#[verifier::external_body]
pub(crate) fn format_uuid(id: u128) -> (r: String)
    ensures
        r@ == uuid_text(id),
        uuid_parse(r@) == Some(id),
{
    Uuid::from_u128(id).to_string()
}

/// Relies on `OsRng::try_fill_bytes` and `uuid::Builder::from_random_bytes`:
/// a random version-4 identifier, of which nothing more is known; `None`
/// where the random source fails.
#[verifier::external_body]
pub(crate) fn random_uuid() -> (r: Option<u128>) {
    let mut bytes = [0u8; 16];
    match OsRng.try_fill_bytes(&mut bytes) {
        Ok(()) => Some(Builder::from_random_bytes(bytes).into_uuid().as_u128()),
        Err(_) => None,
    }
}

/// Relies on `SystemTime::now`, `chrono::DateTime::from_timestamp` and
/// `DateTime::timestamp_millis`: the current time in milliseconds since the
/// Unix epoch, of which nothing more is known; `None` where the clock reads
/// before the epoch or beyond what chrono represents.
#[verifier::external_body]
pub(crate) fn now_millis() -> (r: Option<i64>) {
    let now = std::time::SystemTime::now().duration_since(std::time::UNIX_EPOCH).ok()?;
    chrono::DateTime::from_timestamp(now.as_secs() as i64, now.subsec_nanos()).map(|t| t.timestamp_millis())
}

} // verus!
