//! Node identifiers: the 128 bits of a UUID, created and printed by the `uuid` crate.
use vstd::prelude::*;

verus! {

/// `16^k`.
pub open spec fn pow16(k: nat) -> nat
    decreases k,
{
    if k == 0 { 1 } else { 16 * pow16((k - 1) as nat) }
}

/// The lowercase hexadecimal character of a nibble `d < 16`.
pub open spec fn hex_char(d: nat) -> char {
    if d < 10 {
        crate::text::digit_char(d)
    } else if d == 10 { 'a' } else if d == 11 { 'b' } else if d == 12 { 'c' }
    else if d == 13 { 'd' } else if d == 14 { 'e' } else { 'f' }
}

/// The "simple" text of an identifier: its 32 lowercase hexadecimal digits, most significant
/// first, without hyphens.
pub open spec fn simple_text(id: u128) -> Seq<char> {
    Seq::new(32, |i: int| hex_char(((id as nat) / pow16((31 - i) as nat)) % 16))
}

/// The "hyphenated" text of an identifier: its 32 lowercase hexadecimal digits in groups of
/// 8, 4, 4, 4 and 12 separated by hyphens.
pub open spec fn hyphenated_text(id: u128) -> Seq<char> {
    let s = simple_text(id);
    s.subrange(0, 8) + "-"@ + s.subrange(8, 12) + "-"@ + s.subrange(12, 16) + "-"@
        + s.subrange(16, 20) + "-"@ + s.subrange(20, 32)
}

/// A new random (version 4) identifier (`uuid::Uuid::new_v4`).
///
/// The value is random; what holds of every outcome is that its version field (bits 76 to 79)
/// holds 4 and its variant field (bits 62 and 63) holds binary `10`, which the crate sets after
/// drawing the random bits.
#[verifier::external_body]
pub(crate) fn new_id() -> (id: u128)
    ensures
        (id >> 76u128) & 0xfu128 == 4,
        (id >> 62u128) & 0x3u128 == 2,
{
    uuid::Uuid::new_v4().as_u128()
}

/// The "simple" text of an identifier (`uuid::Uuid::from_u128(id).as_simple().to_string()`):
/// the 32 lowercase hexadecimal digits of the big-endian bytes of `id`.
#[verifier::external_body]
pub(crate) fn simple_string(id: u128) -> (s: String)
    ensures
        s@ == simple_text(id),
{
    uuid::Uuid::from_u128(id).as_simple().to_string()
}

/// The display text of an identifier (`uuid::Uuid::from_u128(id).to_string()`, which the
/// `uuid` crate formats as the hyphenated lowercase form).
#[verifier::external_body]
pub(crate) fn hyphenated_string(id: u128) -> (s: String)
    ensures
        s@ == hyphenated_text(id),
{
    uuid::Uuid::from_u128(id).to_string()
}

} // verus!
