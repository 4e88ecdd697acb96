//! Generation of identifiers and human-readable codes.
//!
//! Uniqueness comes from outside sources — the clock's sub-second jitter
//! and random UUIDs — so those readings sit behind trusted wrappers; the
//! formatting around them is verified.

use vstd::prelude::*;
use vstd::string::*;
use crate::text::{spec_four_digits, u16_to_four_digits};

verus! {

/// Relies on chrono's `Utc::now` and `timestamp_subsec_nanos`: the
/// nanosecond part of the current clock reading, which its source keeps
/// below two billion (the extra billion covers a leap second).
#[verifier::external_body]
fn subsec_nanos_now() -> (r: u32)
    ensures
        r < 2_000_000_000,
{
    chrono::Utc::now().timestamp_subsec_nanos()
}

/// A pseudo-random suffix below ten thousand, from the clock's
/// nanosecond jitter.
pub fn rand_suffix() -> (r: u16)
    ensures
        r < 10000,
{
    (subsec_nanos_now() % 10000) as u16
}

/// Relies on uuid's `Uuid::new_v4` and its `Display`: a fresh random
/// identifier rendered in the hyphenated form, 36 characters with hyphens
/// after the 8th, 13th, 18th and 23rd.
#[verifier::external_body]
pub fn generate_uuid() -> (r: String)
    ensures
        r@.len() == 36,
        r@[8] == '-',
        r@[13] == '-',
        r@[18] == '-',
        r@[23] == '-',
{
    uuid::Uuid::new_v4().to_string()
}

/// Relies on chrono's `Utc::now` and `format("%Y%m%d")`: today's date as
/// digits, at least eight characters (the year is zero-padded to four).
#[verifier::external_body]
fn today_yyyymmdd() -> (r: String)
    ensures
        r@.len() >= 8,
{
    chrono::Utc::now().format("%Y%m%d").to_string()
}

/// A code of the form `PREFIX-YYYYMMDD-XXXX`: the prefix, today's date and
/// a four-digit suffix.
pub fn generate_dated_code(prefix: &str) -> (r: String)
    ensures
        exists|d: Seq<char>, n: int|
            d.len() >= 8 && 0 <= n < 10000 && r@ == prefix@ + "-"@ + d + "-"@ + spec_four_digits(
                n,
            ),
        r@.len() >= prefix@.len() + 14,
{
    let date = today_yyyymmdd();
    let suffix = rand_suffix();
    let mut s = prefix.to_owned();
    s.append("-");
    s.append(date.as_str());
    s.append("-");
    s.append(u16_to_four_digits(suffix).as_str());
    proof {
        reveal_strlit("-");
        assert("-"@.len() == 1);
        assert(s@ == prefix@ + "-"@ + date@ + "-"@ + spec_four_digits(suffix as int));
    }
    s
}

/// A code of the form `PREFIX-XXXX`: the prefix and a four-digit suffix.
pub fn generate_simple_code(prefix: &str) -> (r: String)
    ensures
        exists|n: int| 0 <= n < 10000 && r@ == prefix@ + "-"@ + spec_four_digits(n),
        r@.len() == prefix@.len() + 5,
{
    let suffix = rand_suffix();
    let mut s = prefix.to_owned();
    s.append("-");
    s.append(u16_to_four_digits(suffix).as_str());
    proof {
        reveal_strlit("-");
        assert("-"@.len() == 1);
        assert(s@ == prefix@ + "-"@ + spec_four_digits(suffix as int));
    }
    s
}

} // verus!
