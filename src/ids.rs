use vstd::arithmetic::power::pow;
use vstd::prelude::*;

verus! {

/// The 128-bit value of the UUID that `s` spells, in any of the textual forms
/// the uuid crate reads; `None` where `s` spells none.
pub uninterp spec fn uuid_of(s: Seq<char>) -> Option<u128>;

/// Relies on `uuid::Uuid::parse_str` followed by `Uuid::as_u128`: the value of
/// the UUID spelled by `s`, which depends on the text alone.
#[verifier::external_body]
pub(crate) fn parse_uuid(s: &str) -> (r: Option<u128>)
    ensures
        r == uuid_of(s@),
{
    match uuid::Uuid::parse_str(s) {
        Ok(u) => Some(u.as_u128()),
        Err(_) => None,
    }
}

/// Relies on `uuid::Uuid::new_v4` and `Uuid::as_u128`: a random version-4
/// UUID. Nothing is promised of its value.
#[verifier::external_body]
pub(crate) fn new_uuid() -> (r: u128) {
    uuid::Uuid::new_v4().as_u128()
}

/// The lower-case hexadecimal digit for `n`, which is below 16.
pub open spec fn hex_digit(n: int) -> char {
    seq!['0', '1', '2', '3', '4', '5', '6', '7', '8', '9', 'a', 'b', 'c', 'd', 'e', 'f'][n]
}

/// The `k`-th of the 32 hexadecimal digits of `v`, the most significant
/// first.
pub open spec fn nibble(v: u128, k: int) -> int {
    ((v as int) / pow(16, (31 - k) as nat)) % 16
}

/// The digits `from` up to `to` of `v`, as text.
pub open spec fn hex_run(v: u128, from: int, to: int) -> Seq<char> {
    Seq::new((to - from) as nat, |i: int| hex_digit(nibble(v, from + i)))
}

/// The hyphenated lower-case text of the UUID with the 128-bit value `v`:
/// its 32 hexadecimal digits, most significant first, in runs of 8, 4, 4, 4
/// and 12 joined by hyphens.
pub open spec fn uuid_text(v: u128) -> Seq<char> {
    hex_run(v, 0, 8) + seq!['-'] + hex_run(v, 8, 12) + seq!['-'] + hex_run(v, 12, 16) + seq![
        '-',
    ] + hex_run(v, 16, 20) + seq!['-'] + hex_run(v, 20, 32)
}

/// Relies on `uuid::Uuid::from_u128`, which reads the value big-endian, and
/// the `Display` of `Uuid`, which writes the lower-case hyphenated form.
#[verifier::external_body]
pub(crate) fn uuid_string(v: u128) -> (r: String)
    ensures
        r@ == uuid_text(v),
{
    uuid::Uuid::from_u128(v).to_string()
}

} // verus!
