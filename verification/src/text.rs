//! Small verified helpers that turn numbers into the character sequences used
//! by the human-readable descriptions of addresses, identities and errors.

use vstd::prelude::*;

verus! {

/// The lowercase hexadecimal digit for a value below sixteen.
pub open spec fn spec_hex_digit(n: u8) -> Seq<char> {
    if n == 0 {
        "0"@
    } else if n == 1 {
        "1"@
    } else if n == 2 {
        "2"@
    } else if n == 3 {
        "3"@
    } else if n == 4 {
        "4"@
    } else if n == 5 {
        "5"@
    } else if n == 6 {
        "6"@
    } else if n == 7 {
        "7"@
    } else if n == 8 {
        "8"@
    } else if n == 9 {
        "9"@
    } else if n == 10 {
        "a"@
    } else if n == 11 {
        "b"@
    } else if n == 12 {
        "c"@
    } else if n == 13 {
        "d"@
    } else if n == 14 {
        "e"@
    } else {
        "f"@
    }
}

pub fn hex_digit(n: u8) -> (r: &'static str)
    requires
        n < 16,
    ensures
        r@ == spec_hex_digit(n),
{
    if n == 0 {
        "0"
    } else if n == 1 {
        "1"
    } else if n == 2 {
        "2"
    } else if n == 3 {
        "3"
    } else if n == 4 {
        "4"
    } else if n == 5 {
        "5"
    } else if n == 6 {
        "6"
    } else if n == 7 {
        "7"
    } else if n == 8 {
        "8"
    } else if n == 9 {
        "9"
    } else if n == 10 {
        "a"
    } else if n == 11 {
        "b"
    } else if n == 12 {
        "c"
    } else if n == 13 {
        "d"
    } else if n == 14 {
        "e"
    } else {
        "f"
    }
}

/// Two lowercase hexadecimal digits for a byte.
pub open spec fn spec_hex_byte(n: u8) -> Seq<char> {
    spec_hex_digit((n / 16) as u8) + spec_hex_digit((n % 16) as u8)
}

pub fn hex_byte(n: u8) -> (r: String)
    ensures
        r@ == spec_hex_byte(n),
{
    let hi: u8 = n / 16;
    let lo: u8 = n % 16;
    String::from_str(hex_digit(hi)).concat(hex_digit(lo))
}

/// The decimal digit for a value below ten.
pub open spec fn spec_dec_digit(n: u8) -> Seq<char> {
    spec_hex_digit(if n < 10 { n } else { 0u8 })
}

/// The decimal digits of a byte, without leading zeros.
pub open spec fn spec_dec_u8(n: u8) -> Seq<char> {
    if n < 10 {
        spec_dec_digit(n)
    } else if n < 100 {
        spec_dec_digit((n / 10) as u8) + spec_dec_digit((n % 10) as u8)
    } else {
        spec_dec_digit((n / 100) as u8) + spec_dec_digit(((n / 10) % 10) as u8) + spec_dec_digit(
            (n % 10) as u8,
        )
    }
}

pub fn dec_u8(n: u8) -> (r: String)
    ensures
        r@ == spec_dec_u8(n),
{
    if n < 10 {
        String::from_str(hex_digit(n))
    } else if n < 100 {
        String::from_str(hex_digit(n / 10)).concat(hex_digit(n % 10))
    } else {
        String::from_str(hex_digit(n / 100)).concat(hex_digit((n / 10) % 10)).concat(
            hex_digit(n % 10),
        )
    }
}

} // verus!
