use vstd::prelude::*;
use vstd::arithmetic::power2::pow2;

verus! {

/// The lowercase hexadecimal digit for a value in `0..16`.
pub open spec fn hex_digit(n: int) -> char {
    if n < 10 {
        (48 + n) as char
    } else {
        (87 + n) as char
    }
}

/// Nibble `i` of `v`, counting from the most significant one (`i` in `0..32`).
pub open spec fn uuid_nibble(v: u128, i: int) -> int {
    (v as int / pow2((4 * (31 - i)) as nat) as int) % 16
}

/// How many hyphens the hyphenated form puts before position `j`.
pub open spec fn hyphens_before(j: int) -> int {
    (if j > 8 { 1int } else { 0int }) + (if j > 13 { 1int } else { 0int }) + (if j > 18 { 1int } else {
        0int
    }) + (if j > 23 { 1int } else { 0int })
}

/// The hyphenated lowercase text of the UUID whose 128-bit big-endian value is `v`:
/// 32 hexadecimal digits, most significant first, with hyphens after the
/// 8th, 12th, 16th and 20th digit (36 characters in all).
pub open spec fn uuid_text(v: u128) -> Seq<char> {
    Seq::new(
        36,
        |j: int|
            if j == 8 || j == 13 || j == 18 || j == 23 {
                '-'
            } else {
                hex_digit(uuid_nibble(v, j - hyphens_before(j)))
            },
    )
}

/// Formats the UUID with value `v` through `uuid::Uuid::from_u128(v).to_string()`.
/// The uuid crate's `Display` writes the hyphenated lowercase form (its
/// `LowerHex` of `Hyphenated`), and `from_u128` reads `v` big-endian; the
/// contract claims exactly that text.
#[verifier::external_body]
pub fn uuid_to_string(v: u128) -> (s: String)
    ensures
        s@ == uuid_text(v),
{
    uuid::Uuid::from_u128(v).to_string()
}

} // verus!
