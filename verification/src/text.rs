//! Rendering of bytes for the log: uppercase hexadecimal (through the
//! `hex` crate) and decimal status labels.

use vstd::prelude::*;
use vstd::string::StringExecFns;

verus! {

/// Uppercase hexadecimal digit of a nibble: `'0'`–`'9'` then `'A'`–`'F'`.
pub open spec fn hex_digit(d: u8) -> char
    recommends
        d < 16,
{
    if d < 10 {
        (48 + d) as char
    } else {
        (55 + d) as char
    }
}

/// Uppercase hexadecimal rendering of a byte sequence: two digits per
/// byte, high nibble first, in byte order.
pub open spec fn hex_upper(s: Seq<u8>) -> Seq<char>
    decreases s.len(),
{
    if s.len() == 0 {
        Seq::empty()
    } else {
        hex_upper(s.drop_last()) + seq![hex_digit(s.last() / 16), hex_digit(s.last() % 16)]
    }
}

/// Relies on hex::encode_upper: each byte becomes two uppercase
/// hexadecimal digits from `0123456789ABCDEF`, high nibble first, in byte
/// order.
#[verifier::external_body]
pub(crate) fn hex_upper_string(b: &Vec<u8>) -> (r: String)
    ensures
        r@ == hex_upper(b@),
{
    hex::encode_upper(b.as_slice())
}

/// Decimal digit character of a value below ten.
pub open spec fn dec_digit(d: u8) -> char
    recommends
        d < 10,
{
    (48 + d) as char
}

/// Decimal rendering of a byte, without leading zeros.
pub open spec fn dec_of(n: u8) -> Seq<char> {
    if n < 10 {
        seq![dec_digit(n)]
    } else if n < 100 {
        seq![dec_digit(n / 10), dec_digit(n % 10)]
    } else {
        seq![dec_digit(n / 100), dec_digit((n / 10) % 10), dec_digit(n % 10)]
    }
}

fn dec_digit_str(d: u8) -> (r: &'static str)
    requires
        d < 10,
    ensures
        r@ == seq![dec_digit(d)],
{
    proof {
        reveal_strlit("0");
        reveal_strlit("1");
        reveal_strlit("2");
        reveal_strlit("3");
        reveal_strlit("4");
        reveal_strlit("5");
        reveal_strlit("6");
        reveal_strlit("7");
        reveal_strlit("8");
        reveal_strlit("9");
    }
    match d {
        0 => "0",
        1 => "1",
        2 => "2",
        3 => "3",
        4 => "4",
        5 => "5",
        6 => "6",
        7 => "7",
        8 => "8",
        _ => "9",
    }
}

/// Decimal rendering of a byte as a string, used for the status column of
/// the log.
pub fn u8_dec_string(n: u8) -> (r: String)
    ensures
        r@ == dec_of(n),
{
    if n < 10 {
        let r = String::from_str(dec_digit_str(n));
        proof {
            assert(r@ =~= dec_of(n));
        }
        r
    } else if n < 100 {
        let r = String::from_str(dec_digit_str(n / 10)).concat(dec_digit_str(n % 10));
        proof {
            assert(r@ =~= dec_of(n));
        }
        r
    } else {
        let r = String::from_str(dec_digit_str(n / 100)).concat(dec_digit_str((n / 10) % 10))
            .concat(dec_digit_str(n % 10));
        proof {
            assert(r@ =~= dec_of(n));
        }
        r
    }
}

} // verus!
