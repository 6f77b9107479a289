//! Row identifiers: the database's UUIDs, held as 128-bit numbers.

use vstd::prelude::*;

verus! {

/// The lowercase hexadecimal digit of a number below sixteen.
pub open spec fn hex_digit(d: nat) -> char {
    if d < 10 {
        ((48 + d) as char)
    } else {
        ((87 + d) as char)
    }
}

/// The digits are `0` to `9`, then the lowercase letters `a` to `f`.
pub proof fn lemma_hex_digits()
    ensures
        hex_digit(0) == '0',
        hex_digit(9) == '9',
        hex_digit(10) == 'a',
        hex_digit(15) == 'f',
{
}

/// The lowest `width` hexadecimal digits of `v`, most significant first.
pub open spec fn hex_text(v: nat, width: nat) -> Seq<char>
    decreases width,
{
    if width == 0 {
        Seq::<char>::empty()
    } else {
        hex_text(v / 16, (width - 1) as nat).push(hex_digit(v % 16))
    }
}

/// The hyphenated lowercase text of a UUID: 32 hexadecimal digits, most
/// significant first, in groups of 8, 4, 4, 4 and 12.
pub open spec fn uuid_text(id: u128) -> Seq<char> {
    let v: nat = id as nat;
    hex_text(v / 0x1_0000_0000_0000_0000_0000_0000, 8) + seq!['-'] + hex_text(
        v / 0x1_0000_0000_0000_0000_0000,
        4,
    ) + seq!['-'] + hex_text(v / 0x1_0000_0000_0000_0000, 4) + seq!['-'] + hex_text(
        v / 0x1_0000_0000_0000,
        4,
    ) + seq!['-'] + hex_text(v, 12)
}

/// The identifier that stands for no row (`Uuid::nil`).
pub const NIL_ID: u128 = 0;

/// Writes an identifier through `uuid::Uuid::from_u128` and `to_string`. In
/// the `uuid` 0.8 source, `Display` writes the hyphenated form with the
/// lowercase digits, the bytes taken from the number most significant first.
#[verifier::external_body]
pub(crate) fn uuid_string(id: u128) -> (r: String)
    ensures
        r@ == uuid_text(id),
{
    uuid::Uuid::from_u128(id).to_string()
}

} // verus!
