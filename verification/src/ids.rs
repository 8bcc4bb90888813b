//! Route and rule identifiers: random version-4 UUIDs, carried as their
//! 128-bit value and shown in their hyphenated text form.
use vstd::prelude::*;

use crate::text::digit_char;

verus! {

/// Whether a 128-bit value is a version-4 UUID of the RFC 4122 variant:
/// version nibble (bits 76–79) 4, variant bits (62–63) `10`.
pub open spec fn is_uuid_v4(id: u128) -> bool {
    &&& (id >> 76u128) & 0xfu128 == 4
    &&& (id >> 62u128) & 0x3u128 == 2
}

/// A fresh random version-4 UUID, as its 128-bit value.
/// Trusted: `uuid::Uuid::new_v4` followed by `Uuid::as_u128`. `new_v4` masks
/// a random value so that the version nibble reads 4 and the variant bits
/// read `10`; the other 122 bits are random, and nothing is stated of them.
#[verifier::external_body]
pub(crate) fn new_uuid() -> (id: u128)
    ensures
        is_uuid_v4(id),
{
    uuid::Uuid::new_v4().as_u128()
}

/// The lower-case hexadecimal digit for a value below sixteen.
pub open spec fn hex_lower(d: nat) -> char {
    if d < 10 {
        digit_char(d)
    } else {
        ((87 + d) as u32) as char
    }
}

/// The `k`-th hexadecimal digit of a 128-bit value, most significant first.
pub open spec fn uuid_nibble(id: u128, k: int) -> nat {
    ((id >> ((124 - 4 * k) as u128)) & 0xfu128) as nat
}

/// Which hexadecimal digit the `i`-th character of the hyphenated text shows
/// (hyphens stand at 8, 13, 18 and 23).
pub open spec fn uuid_digit_index(i: int) -> int {
    if i < 8 {
        i
    } else if i < 13 {
        i - 1
    } else if i < 18 {
        i - 2
    } else if i < 23 {
        i - 3
    } else {
        i - 4
    }
}

/// The hyphenated lower-case text of the UUID with this 128-bit value:
/// 32 hexadecimal digits, most significant first, in groups of 8-4-4-4-12.
pub open spec fn uuid_text(id: u128) -> Seq<char> {
    Seq::new(
        36,
        |i: int|
            if i == 8 || i == 13 || i == 18 || i == 23 {
                '-'
            } else {
                hex_lower(uuid_nibble(id, uuid_digit_index(i)))
            },
    )
}

/// The text form of a UUID.
/// Trusted: `uuid::Uuid::from_u128` then `to_string`, whose `Display` writes
/// the big-endian bytes as lower-case hyphenated hex, i.e. [`uuid_text`].
#[verifier::external_body]
pub(crate) fn uuid_string(id: u128) -> (s: String)
    ensures
        s@ == uuid_text(id),
{
    uuid::Uuid::from_u128(id).to_string()
}

} // verus!
