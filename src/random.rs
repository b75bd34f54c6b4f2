//! Random draws, all made through the fake crate.
use fake::Fake;
use vstd::prelude::*;

use crate::clock::LATEST_SECOND;
use crate::text::{all_digits, is_digit};

verus! {

/// Relies on fake's `Boolean` faker, true when a draw from `0..100` falls
/// below `percent`.
#[verifier::external_body]
pub(crate) fn chance(percent: u8) -> (r: bool)
    ensures
        percent == 0 ==> !r,
        percent >= 100 ==> r,
{
    fake::faker::boolean::en::Boolean(percent).fake()
}

/// Relies on fake's faker for `Range<u64>`, which draws from `lo..hi`.
#[verifier::external_body]
pub(crate) fn draw_below(lo: u64, hi: u64) -> (r: u64)
    requires
        lo < hi,
    ensures
        lo <= r < hi,
{
    (lo..hi).fake::<u64>()
}

/// Relies on fake's `DateTimeBetween` faker, which adds a draw of whole
/// minutes below the span's length to `start`.
#[verifier::external_body]
pub(crate) fn draw_time(start: i64, end: i64) -> (r: i64)
    requires
        0 <= start,
        start + 60 <= end <= LATEST_SECOND,
    ensures
        start <= r < end,
{
    let s = chrono::DateTime::from_timestamp(start, 0).unwrap();
    let e = chrono::DateTime::from_timestamp(end, 0).unwrap();
    let t: chrono::DateTime<chrono::Utc> = fake::faker::chrono::en::DateTimeBetween(s, e).fake();
    t.timestamp()
}

/// Relies on fake's `StringFaker`: `len` characters, each drawn from the
/// ASCII `charset`.
#[verifier::external_body]
pub(crate) fn draw_string(charset: &str, len: usize) -> (r: String)
    requires
        charset@.len() > 0,
        charset.is_ascii(),
        len < usize::MAX,
    ensures
        r@.len() == len,
        forall|i: int| 0 <= i < len ==> charset@.contains(#[trigger] r@[i]),
{
    let f = fake::StringFaker::with(Vec::from(charset.as_bytes()), len..len + 1);
    f.fake::<String>()
}

/// What fake's `NumberWithFormat` makes of `format`: a digit for each `#`,
/// a non-zero digit for each `^`, every other character kept.
pub open spec fn numerified(format: Seq<char>, r: Seq<char>) -> bool {
    &&& r.len() == format.len()
    &&& forall|i: int|
        0 <= i < r.len() ==> {
            &&& format[i] == '#' ==> is_digit(#[trigger] r[i])
            &&& format[i] == '^' ==> is_digit(r[i]) && r[i] != '0'
            &&& (format[i] != '#' && format[i] != '^') ==> r[i] == format[i]
        }
}

/// Relies on fake's `NumberWithFormat` faker.
#[verifier::external_body]
pub(crate) fn draw_number_text(format: &str) -> (r: String)
    ensures
        numerified(format@, r@),
{
    fake::faker::number::en::NumberWithFormat(format).fake()
}

/// Relies on fake's English `BuildingNumber` faker, whose formats are three
/// to five `#`.
#[verifier::external_body]
pub(crate) fn draw_building_number() -> (r: String)
    ensures
        all_digits(r@),
        3 <= r@.len() <= 5,
{
    fake::faker::address::en::BuildingNumber().fake()
}

/// Relies on fake's English `ZipCode` faker, whose formats are three to
/// five `#`.
#[verifier::external_body]
pub(crate) fn draw_zip_code() -> (r: String)
    ensures
        all_digits(r@),
        3 <= r@.len() <= 5,
{
    fake::faker::address::en::ZipCode().fake()
}

/// Relies on fake's English `CompanyName` faker, whose templates are never empty.
#[verifier::external_body]
pub(crate) fn draw_company_name() -> (r: String)
    ensures
        r@.len() > 0,
{
    fake::faker::company::en::CompanyName().fake()
}

/// Relies on fake's English `Name` faker, whose template is never empty.
#[verifier::external_body]
pub(crate) fn draw_person_name() -> (r: String)
    ensures
        r@.len() > 0,
{
    fake::faker::name::en::Name().fake()
}

/// Relies on fake's English `FirstName` faker, which picks a non-empty name from a list.
#[verifier::external_body]
pub(crate) fn draw_first_name() -> (r: String)
    ensures
        r@.len() > 0,
{
    fake::faker::name::en::FirstName().fake()
}

/// Relies on fake's English `FreeEmail` faker, which writes a user, `@` and a provider.
#[verifier::external_body]
pub(crate) fn draw_free_email() -> (r: String)
    ensures
        r@.len() > 0,
{
    fake::faker::internet::en::FreeEmail().fake()
}

/// Relies on fake's English `CityName` faker, whose templates are never empty.
#[verifier::external_body]
pub(crate) fn draw_city_name() -> (r: String)
    ensures
        r@.len() > 0,
{
    fake::faker::address::en::CityName().fake()
}

/// Relies on fake's English `StreetName` faker, whose template is never empty.
#[verifier::external_body]
pub(crate) fn draw_street_name() -> (r: String)
    ensures
        r@.len() > 0,
{
    fake::faker::address::en::StreetName().fake()
}

} // verus!
