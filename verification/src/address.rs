use vstd::prelude::*;
use vstd::utf8::*;
use crate::error::Error;
use crate::hex::{
    ascii_lower, hex_digit_text, is_hex_digit, is_lower_hex_digit, lemma_digit_round_trip,
    lemma_pair_round_trip, lower_hex_digit, pair_value, parse_hex_pair,
};

verus! {

/// The colon that separates the hex pairs of an address.
pub const SEPARATOR: u8 = 0x3a;

/// The number of bytes that the six pairs of an address and their separators take.
pub const ADDRESS_TEXT_LEN: usize = 17;

/// The number of bytes that the three pairs of a vendor prefix and their separators take.
pub const PREFIX_TEXT_LEN: usize = 8;

/// The bytes that a text is stored as.
pub open spec fn utf8(text: Seq<char>) -> Seq<u8> {
    encode_utf8(text)
}

/// The text whose characters are the given ASCII bytes.
pub open spec fn ascii_text(bytes: Seq<u8>) -> Seq<char> {
    Seq::new(bytes.len(), |i: int| bytes[i] as char)
}

/// Every byte with ASCII capitals turned into small letters.
pub open spec fn lowered(bytes: Seq<u8>) -> Seq<u8> {
    Seq::new(bytes.len(), |i: int| ascii_lower(bytes[i]))
}

/// The first eight bytes spell three hex pairs, of either case, with a colon
/// after the first and after the second. What follows them is not looked at.
pub open spec fn is_vendor_prefix(entry: Seq<u8>) -> bool {
    &&& entry.len() >= 8
    &&& forall|i: int|
        0 <= i < 8 ==> if i % 3 == 2 {
            #[trigger] entry[i] == SEPARATOR
        } else {
            is_hex_digit(entry[i])
        }
}

/// The three octets that a vendor prefix spells.
pub open spec fn prefix_octets(entry: Seq<u8>) -> Seq<u8> {
    seq![
        pair_value(entry[0], entry[1]) as u8,
        pair_value(entry[3], entry[4]) as u8,
        pair_value(entry[6], entry[7]) as u8,
    ]
}

/// The text is an address in canonical form: six pairs of lowercase hex
/// digits with a colon between each two.
pub open spec fn is_canonical(text: Seq<u8>) -> bool {
    &&& text.len() == 17
    &&& forall|i: int|
        0 <= i < 17 ==> if i % 3 == 2 {
            #[trigger] text[i] == SEPARATOR
        } else {
            is_lower_hex_digit(text[i])
        }
}

/// The canonical text of six octets.
pub open spec fn address_text(octets: Seq<u8>) -> Seq<u8> {
    Seq::new(
        17,
        |i: int|
            if i % 3 == 2 {
                SEPARATOR
            } else if i % 3 == 0 {
                lower_hex_digit(octets[i / 3] as int / 16)
            } else {
                lower_hex_digit(octets[i / 3] as int % 16)
            },
    )
}

/// Reads the three octets of a vendor prefix such as `AA:BB:CC`.
///
/// The entry is accepted exactly when its first eight bytes have that shape;
/// anything else is malformed.
pub fn parse_prefix(entry: &str) -> (r: Result<[u8; 3], Error>)
    ensures
        is_vendor_prefix(utf8(entry@)) ==> (r matches Ok(octets) && octets@ == prefix_octets(
            utf8(entry@),
        )),
        !is_vendor_prefix(utf8(entry@)) ==> r == Err::<[u8; 3], Error>(Error::MalformedInput),
{
    let bytes = entry.as_bytes();
    if bytes.len() < PREFIX_TEXT_LEN {
        return Err(Error::MalformedInput);
    }
    if bytes[2] != SEPARATOR || bytes[5] != SEPARATOR {
        return Err(Error::MalformedInput);
    }
    let first = parse_hex_pair(bytes[0], bytes[1]);
    let second = parse_hex_pair(bytes[3], bytes[4]);
    let third = parse_hex_pair(bytes[6], bytes[7]);
    match (first, second, third) {
        (Some(a), Some(b), Some(c)) => {
            let octets: [u8; 3] = [a, b, c];
            assert(octets@ =~= prefix_octets(bytes@));
            Ok(octets)
        },
        _ => Err(Error::MalformedInput),
    }
}

/// Tells whether the bytes are an address in canonical form.
pub fn is_canonical_address(text: &[u8]) -> (r: bool)
    ensures
        r == is_canonical(text@),
{
    if text.len() != ADDRESS_TEXT_LEN {
        return false;
    }
    let mut i: usize = 0;
    while i < ADDRESS_TEXT_LEN
        invariant
            text@.len() == 17,
            0 <= i <= 17,
            forall|j: int|
                0 <= j < i ==> if j % 3 == 2 {
                    #[trigger] text@[j] == SEPARATOR
                } else {
                    is_lower_hex_digit(text@[j])
                },
        decreases 17 - i,
    {
        let b = text[i];
        let fits = if i % 3 == 2 {
            b == SEPARATOR
        } else {
            (0x30 <= b && b <= 0x39) || (0x61 <= b && b <= 0x66)
        };
        if !fits {
            return false;
        }
        i += 1;
    }
    true
}

/// Writes six octets, a vendor's three and a host's three, as canonical text.
pub fn format_address(prefix: [u8; 3], host: [u8; 3]) -> (text: String)
    ensures
        text@ == ascii_text(address_text(prefix@ + host@)),
        utf8(text@) == address_text(prefix@ + host@),
{
    let mut text = String::new();
    text.append(hex_digit_text(prefix[0] / 16));
    text.append(hex_digit_text(prefix[0] % 16));
    text.append(separator_text());
    text.append(hex_digit_text(prefix[1] / 16));
    text.append(hex_digit_text(prefix[1] % 16));
    text.append(separator_text());
    text.append(hex_digit_text(prefix[2] / 16));
    text.append(hex_digit_text(prefix[2] % 16));
    text.append(separator_text());
    text.append(hex_digit_text(host[0] / 16));
    text.append(hex_digit_text(host[0] % 16));
    text.append(separator_text());
    text.append(hex_digit_text(host[1] / 16));
    text.append(hex_digit_text(host[1] % 16));
    text.append(separator_text());
    text.append(hex_digit_text(host[2] / 16));
    text.append(hex_digit_text(host[2] % 16));
    proof {
        let octets = prefix@ + host@;
        assert(text@ =~= ascii_text(address_text(octets)));
        lemma_ascii_text_bytes(address_text(octets));
    }
    text
}

/// The text of the separator.
fn separator_text() -> (s: &'static str)
    ensures
        s@ == seq![SEPARATOR as char],
{
    proof {
        reveal_strlit(":");
    }
    let s = ":";
    assert(s@ =~= seq![SEPARATOR as char]);
    s
}

/// A text made of ASCII bytes is stored as those bytes.
pub proof fn lemma_ascii_text_bytes(bytes: Seq<u8>)
    requires
        forall|i: int| 0 <= i < bytes.len() ==> #[trigger] bytes[i] < 128,
    ensures
        utf8(ascii_text(bytes)) == bytes,
{
    let chars = ascii_text(bytes);
    assert(is_ascii_chars(chars));
    is_ascii_chars_encode_utf8(chars);
    assert(encode_utf8(chars) =~= bytes);
}

/// The text written for any six octets is canonical.
pub proof fn lemma_address_text_canonical(octets: Seq<u8>)
    requires
        octets.len() == 6,
    ensures
        is_canonical(address_text(octets)),
{
    let text = address_text(octets);
    assert forall|i: int| 0 <= i < 17 implies if i % 3 == 2 {
        #[trigger] text[i] == SEPARATOR
    } else {
        is_lower_hex_digit(text[i])
    } by {
        if i % 3 != 2 {
            lemma_digit_round_trip(octets[i / 3] as int / 16);
            lemma_digit_round_trip(octets[i / 3] as int % 16);
        }
    }
}

/// The first three pairs of an address made from a vendor prefix are that
/// prefix in lowercase.
pub proof fn lemma_address_keeps_prefix(entry: Seq<u8>, host: Seq<u8>)
    requires
        is_vendor_prefix(entry),
        host.len() == 3,
    ensures
        address_text(prefix_octets(entry) + host).subrange(0, 8) == lowered(entry.subrange(0, 8)),
{
    let octets = prefix_octets(entry) + host;
    let left = address_text(octets).subrange(0, 8);
    let right = lowered(entry.subrange(0, 8));
    assert(entry[2] == SEPARATOR && entry[5] == SEPARATOR);
    assert(is_hex_digit(entry[0]) && is_hex_digit(entry[1]));
    assert(is_hex_digit(entry[3]) && is_hex_digit(entry[4]));
    assert(is_hex_digit(entry[6]) && is_hex_digit(entry[7]));
    lemma_pair_round_trip(entry[0], entry[1]);
    lemma_pair_round_trip(entry[3], entry[4]);
    lemma_pair_round_trip(entry[6], entry[7]);
    assert forall|i: int| 0 <= i < 8 implies left[i] == right[i] by {
        assert(octets[i / 3] == prefix_octets(entry)[i / 3]);
    }
    assert(left =~= right);
}

} // verus!
