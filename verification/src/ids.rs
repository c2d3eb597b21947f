//! Textual form of run identifiers (UUIDs held as 128-bit numbers).
use vstd::prelude::*;

verus! {

/// The lowercase hexadecimal digit of `d < 16`.
pub open spec fn hex_digit(d: nat) -> char {
    if d < 10 {
        ((d + 48) as u8) as char
    } else {
        ((d + 87) as u8) as char
    }
}

/// The `k`-th hexadecimal digit of `id`, most significant first.
pub open spec fn nibble(id: u128, k: int) -> nat {
    ((id >> ((124 - 4 * k) as u128)) & 15u128) as nat
}

/// The 32 hexadecimal digits of `id`, most significant first.
pub open spec fn hex32(id: u128) -> Seq<char> {
    Seq::new(32, |k: int| hex_digit(nibble(id, k)))
}

/// The hyphenated lowercase form of a UUID: 8-4-4-4-12 hexadecimal digits of its
/// big-endian bytes.
pub open spec fn uuid_hyphenated(id: u128) -> Seq<char> {
    let h = hex32(id);
    h.subrange(0, 8) + "-"@ + h.subrange(8, 12) + "-"@ + h.subrange(12, 16) + "-"@
        + h.subrange(16, 20) + "-"@ + h.subrange(20, 32)
}

/// Calls `uuid::Uuid::from_u128(id).to_string()`: uuid builds the UUID from the number's
/// big-endian bytes and displays it hyphenated in lowercase.
#[verifier::external_body]
pub(crate) fn uuid_text(id: u128) -> (r: String)
    ensures
        r@ == uuid_hyphenated(id),
{
    uuid::Uuid::from_u128(id).to_string()
}

} // verus!
