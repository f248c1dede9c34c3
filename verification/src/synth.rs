use vstd::prelude::*;
use rand::rngs::ThreadRng;
use crate::address::{
    address_text, format_address, is_canonical, is_vendor_prefix, lemma_address_keeps_prefix,
    lemma_address_text_canonical, lowered, parse_prefix, prefix_octets, utf8,
};
use crate::error::Error;
use crate::random::draw_below;
use crate::wire::{address_frame, encoded, envelope};

verus! {

/// What comes of one vendor prefix and three host octets: the canonical
/// address, or the refusal of a prefix that is not shaped like one.
pub open spec fn assembled(entry: Seq<u8>, host: Seq<u8>) -> Result<Seq<u8>, Error> {
    if is_vendor_prefix(entry) {
        Ok(address_text(prefix_octets(entry) + host))
    } else {
        Err(Error::MalformedInput)
    }
}

/// The bytes of an address that was made, or the error that came instead.
pub open spec fn text_bytes(r: Result<String, Error>) -> Result<Seq<u8>, Error> {
    match r {
        Ok(text) => Ok(utf8(text@)),
        Err(e) => Err(e),
    }
}

/// The bytes of the table's entry at `i`.
pub open spec fn entry_bytes(table: Seq<String>, i: int) -> Seq<u8> {
    utf8(table[i]@)
}

/// Every entry of the table is shaped like a vendor prefix.
pub open spec fn all_vendor_prefixes(table: Seq<String>) -> bool {
    forall|i: int| 0 <= i < table.len() ==> is_vendor_prefix(#[trigger] entry_bytes(table, i))
}

/// The address `text` starts with the entry at `i`, in lowercase.
pub open spec fn starts_with_entry(text: Seq<u8>, table: Seq<String>, i: int) -> bool {
    &&& 0 <= i < table.len()
    &&& is_vendor_prefix(entry_bytes(table, i))
    &&& text.subrange(0, 8) == lowered(entry_bytes(table, i).subrange(0, 8))
}

/// The address `r` was made from the entry at `i` and the host octets `host`.
pub open spec fn made_from(
    r: Result<String, Error>,
    table: Seq<String>,
    i: int,
    host: Seq<u8>,
) -> bool {
    &&& 0 <= i < table.len()
    &&& host.len() == 3
    &&& text_bytes(r) == assembled(entry_bytes(table, i), host)
}

/// Joins a vendor prefix and three host octets into an address.
///
/// The prefix gives the first three pairs, in lowercase whatever its own
/// case; the host octets give the last three.
pub fn assemble(entry: &str, host: [u8; 3]) -> (r: Result<String, Error>)
    ensures
        text_bytes(r) == assembled(utf8(entry@), host@),
{
    match parse_prefix(entry) {
        Ok(prefix) => Ok(format_address(prefix, host)),
        Err(e) => Err(e),
    }
}

/// Makes an address from a vendor prefix picked at random from the table and
/// three host octets drawn at random.
///
/// An empty table is a configuration error. Otherwise the outcome is that of
/// `assemble` on one of the entries and some three octets: an address that
/// is canonical and starts with that entry in lowercase, or the refusal of
/// an entry that is not shaped like a vendor prefix. A table of well-shaped
/// entries always gives an address.
pub fn synthesize(oui_table: &[String], rng: &mut ThreadRng) -> (r: Result<String, Error>)
    ensures
        oui_table@.len() == 0 <==> r == Err::<String, Error>(Error::Configuration),
        oui_table@.len() > 0 ==> exists|i: int, host: Seq<u8>|
            #[trigger] made_from(r, oui_table@, i, host),
        oui_table@.len() > 0 && all_vendor_prefixes(oui_table@) ==> r is Ok,
        r matches Ok(text) ==> is_canonical(utf8(text@)) && exists|i: int|
            #[trigger] starts_with_entry(utf8(text@), oui_table@, i),
{
    if oui_table.len() == 0 {
        return Err(Error::Configuration);
    }
    let index = draw_below(rng, oui_table.len());
    let first = draw_octet(rng);
    let second = draw_octet(rng);
    let third = draw_octet(rng);
    let host: [u8; 3] = [first, second, third];
    let r = assemble(oui_table[index].as_str(), host);
    proof {
        let entry = entry_bytes(oui_table@, index as int);
        assert(made_from(r, oui_table@, index as int, host@));
        if is_vendor_prefix(entry) {
            lemma_address_text_canonical(prefix_octets(entry) + host@);
            lemma_address_keeps_prefix(entry, host@);
            assert(starts_with_entry(utf8(r->Ok_0@), oui_table@, index as int));
        }
    }
    r
}

/// Draws one octet.
fn draw_octet(rng: &mut ThreadRng) -> (octet: u8) {
    let drawn = draw_below(rng, 256);
    drawn as u8
}

/// Every address that `assemble` gives is canonical and starts with its
/// vendor prefix in lowercase.
pub proof fn lemma_assembled_is_canonical(entry: Seq<u8>, host: Seq<u8>)
    requires
        host.len() == 3,
    ensures
        assembled(entry, host) matches Ok(text) ==> is_canonical(text) && text.subrange(0, 8)
            == lowered(entry.subrange(0, 8)),
        assembled(entry, host) is Ok <==> is_vendor_prefix(entry),
{
    if is_vendor_prefix(entry) {
        lemma_address_text_canonical(prefix_octets(entry) + host);
        lemma_address_keeps_prefix(entry, host);
    }
}

/// Every address that `assemble` gives is one that `encode` accepts.
pub proof fn lemma_assembled_is_encodable(entry: Seq<u8>, host: Seq<u8>)
    requires
        host.len() == 3,
    ensures
        assembled(entry, host) matches Ok(text) ==> encoded(text) == Ok::<Seq<u8>, Error>(
            envelope(address_frame(text)),
        ),
{
    if is_vendor_prefix(entry) {
        lemma_address_text_canonical(prefix_octets(entry) + host);
    }
}

} // verus!
