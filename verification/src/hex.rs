use vstd::prelude::*;

verus! {

/// The byte is one of `0-9`, `a-f`, `A-F`.
pub open spec fn is_hex_digit(b: u8) -> bool {
    (0x30 <= b <= 0x39) || (0x41 <= b <= 0x46) || (0x61 <= b <= 0x66)
}

/// The byte is one of `0-9`, `a-f`.
pub open spec fn is_lower_hex_digit(b: u8) -> bool {
    (0x30 <= b <= 0x39) || (0x61 <= b <= 0x66)
}

/// The number that a hex digit stands for.
pub open spec fn hex_value(b: u8) -> int {
    if 0x30 <= b <= 0x39 {
        b - 0x30
    } else if 0x41 <= b <= 0x46 {
        b - 0x41 + 10
    } else {
        b - 0x61 + 10
    }
}

/// The lowercase hex digit for a number below sixteen.
pub open spec fn lower_hex_digit(n: int) -> u8 {
    if n < 10 {
        (0x30 + n) as u8
    } else {
        (0x61 + n - 10) as u8
    }
}

/// An ASCII capital letter turned into its small letter; any other byte as it is.
pub open spec fn ascii_lower(b: u8) -> u8 {
    if 0x41 <= b <= 0x5a {
        (b + 0x20) as u8
    } else {
        b
    }
}

/// The octet that two hex digits spell, the high one first.
pub open spec fn pair_value(hi: u8, lo: u8) -> int {
    hex_value(hi) * 16 + hex_value(lo)
}

/// Reads one hex digit of either case.
pub fn parse_hex_digit(b: u8) -> (r: Option<u8>)
    ensures
        r == if is_hex_digit(b) {
            Some(hex_value(b) as u8)
        } else {
            None
        },
{
    if 0x30 <= b && b <= 0x39 {
        Some(b - 0x30)
    } else if 0x41 <= b && b <= 0x46 {
        Some(b - 0x41 + 10)
    } else if 0x61 <= b && b <= 0x66 {
        Some(b - 0x61 + 10)
    } else {
        None
    }
}

/// Reads an octet from two hex digits of either case.
pub fn parse_hex_pair(hi: u8, lo: u8) -> (r: Option<u8>)
    ensures
        r == if is_hex_digit(hi) && is_hex_digit(lo) {
            Some(pair_value(hi, lo) as u8)
        } else {
            None
        },
{
    match (parse_hex_digit(hi), parse_hex_digit(lo)) {
        (Some(h), Some(l)) => Some(h * 16 + l),
        _ => None,
    }
}

/// The one-character text of the lowercase hex digit for `n`.
pub(crate) fn hex_digit_text(n: u8) -> (s: &'static str)
    requires
        n < 16,
    ensures
        s@ == seq![lower_hex_digit(n as int) as char],
{
    proof {
        reveal_strlit("0");
        reveal_strlit("1");
        reveal_strlit("2");
        reveal_strlit("3");
        reveal_strlit("4");
        reveal_strlit("5");
        reveal_strlit("6");
        reveal_strlit("7");
        reveal_strlit("8");
        reveal_strlit("9");
        reveal_strlit("a");
        reveal_strlit("b");
        reveal_strlit("c");
        reveal_strlit("d");
        reveal_strlit("e");
        reveal_strlit("f");
    }
    let s = match n {
        0 => "0",
        1 => "1",
        2 => "2",
        3 => "3",
        4 => "4",
        5 => "5",
        6 => "6",
        7 => "7",
        8 => "8",
        9 => "9",
        10 => "a",
        11 => "b",
        12 => "c",
        13 => "d",
        14 => "e",
        _ => "f",
    };
    assert(s@ =~= seq![lower_hex_digit(n as int) as char]);
    s
}

/// Writing an octet that was read from two hex digits gives the same two
/// digits back, in lowercase.
pub proof fn lemma_pair_round_trip(hi: u8, lo: u8)
    requires
        is_hex_digit(hi),
        is_hex_digit(lo),
    ensures
        0 <= pair_value(hi, lo) < 256,
        lower_hex_digit(pair_value(hi, lo) / 16) == ascii_lower(hi),
        lower_hex_digit(pair_value(hi, lo) % 16) == ascii_lower(lo),
        is_lower_hex_digit(ascii_lower(hi)),
        is_lower_hex_digit(ascii_lower(lo)),
{
}

/// The digit written for a number below sixteen is a lowercase hex digit
/// that reads back as that number.
pub proof fn lemma_digit_round_trip(n: int)
    requires
        0 <= n < 16,
    ensures
        is_lower_hex_digit(lower_hex_digit(n)),
        hex_value(lower_hex_digit(n)) == n,
{
}

} // verus!
