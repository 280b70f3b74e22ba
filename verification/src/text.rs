//! Text and time helpers: comparing text, reading decimal amounts, and adding
//! seconds to a block time.
use vstd::prelude::*;

verus! {

/// Whether two pieces of text are the same.
pub fn same_text(a: &str, b: &str) -> (same: bool)
    ensures
        same == (a@ == b@),
{
    let x = a.to_string();
    let y = b.to_string();
    x == y
}

/// Whether every character of `s` is an ASCII digit.
pub open spec fn all_digits(s: Seq<char>) -> bool {
    forall|i: int| 0 <= i < s.len() ==> '0' <= #[trigger] s[i] <= '9'
}

/// The number that a string of decimal digits writes.
pub open spec fn decimal_value(s: Seq<char>) -> int
    decreases s.len(),
{
    if s.len() == 0 {
        0
    } else {
        decimal_value(s.drop_last()) * 10 + (s.last() as int - '0' as int)
    }
}

/// What `str::parse::<u128>` gives: an optional `+` followed by at least one decimal
/// digit and nothing else, whose value fits in 128 bits.
pub open spec fn parse_u128(s: Seq<char>) -> Option<u128> {
    let digits = if s.len() > 0 && s[0] == '+' {
        s.drop_first()
    } else {
        s
    };
    if digits.len() > 0 && all_digits(digits) && decimal_value(digits) <= u128::MAX {
        Some(decimal_value(digits) as u128)
    } else {
        None
    }
}

/// Calls `str::parse::<u128>`, whose documentation (`u128::from_str_radix` with radix
/// 10) accepts an optional `+` followed by digits only, and refuses an empty string,
/// any other character and a value past `u128::MAX`.
#[verifier::external_body]
pub(crate) fn parse_amount(s: &str) -> (res: Option<u128>)
    ensures
        res == parse_u128(s@),
{
    s.parse::<u128>().ok()
}

/// Calls `cosmwasm_std::Timestamp::plus_seconds` on the timestamp of `nanos`
/// nanoseconds: the result is `seconds` seconds later, in nanoseconds.
#[verifier::external_body]
pub(crate) fn timestamp_plus_seconds(nanos: u64, seconds: u64) -> (later: u64)
    requires
        seconds * 1_000_000_000 + nanos <= u64::MAX,
    ensures
        later == nanos + seconds * 1_000_000_000,
{
    cosmwasm_std::Timestamp::from_nanos(nanos).plus_seconds(seconds).nanos()
}

} // verus!
