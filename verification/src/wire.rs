use vstd::prelude::*;
use crate::address::{is_canonical, is_canonical_address, utf8};
use crate::error::Error;

verus! {

/// The bytes that open an address frame.
pub const FRAME_TAG: [u8; 3] = [0x12, 0x13, 0x0a];

/// The bytes that close an address frame.
pub const FRAME_TRAILER: [u8; 4] = [0x18, 0x00, 0x20, 0x00];

/// The protocol version that opens the envelope.
pub const VERSION: [u8; 2] = [0x00, 0x01];

/// The locale field, `en_US`.
pub const LOCALE: [u8; 5] = [0x65, 0x6e, 0x5f, 0x55, 0x53];

/// The client identifier field, `com.apple.locationd`.
pub const CLIENT_ID: [u8; 19] = [
    0x63, 0x6f, 0x6d, 0x2e, 0x61, 0x70, 0x70, 0x6c, 0x65, 0x2e, 0x6c, 0x6f, 0x63, 0x61, 0x74,
    0x69, 0x6f, 0x6e, 0x64,
];

/// The client version field, `8.1.12B411`.
pub const CLIENT_VERSION: [u8; 10] = [0x38, 0x2e, 0x31, 0x2e, 0x31, 0x32, 0x42, 0x34, 0x31, 0x31];

/// The flag that stands before the length of the address frame.
pub const FLAG: [u8; 4] = [0x00, 0x00, 0x00, 0x01];

/// The longest text that the one length byte of an address frame can announce.
pub const MAX_TEXT_LEN: usize = 255;

/// The longest text that the two length bytes of an envelope field can announce.
pub const MAX_FIELD_LEN: usize = 0xffff;

/// The longest address frame that the four length bytes of the envelope can announce.
pub const MAX_FRAME_LEN: usize = 0xffff_ffff;

/// A number below 2^16 in two bytes, the high one first.
pub open spec fn be16(n: int) -> Seq<u8> {
    seq![(n / 0x100 % 0x100) as u8, (n % 0x100) as u8]
}

/// A number below 2^32 in four bytes, the highest first.
pub open spec fn be32(n: int) -> Seq<u8> {
    seq![
        (n / 0x100_0000 % 0x100) as u8,
        (n / 0x1_0000 % 0x100) as u8,
        (n / 0x100 % 0x100) as u8,
        (n % 0x100) as u8,
    ]
}

/// The number that four bytes spell, the highest first.
pub open spec fn be32_value(bytes: Seq<u8>) -> int {
    bytes[0] as int * 0x100_0000 + bytes[1] as int * 0x1_0000 + bytes[2] as int * 0x100
        + bytes[3] as int
}

/// A field of the envelope: its length in two bytes, then its text.
pub open spec fn field(text: Seq<u8>) -> Seq<u8> {
    be16(text.len() as int) + text
}

/// The address frame around a text: the tag, the length of the text in one
/// byte, the text, the trailer.
pub open spec fn address_frame(text: Seq<u8>) -> Seq<u8> {
    FRAME_TAG@ + seq![text.len() as u8] + text + FRAME_TRAILER@
}

/// What the envelope holds before the length of the address frame.
pub open spec fn envelope_header() -> Seq<u8> {
    VERSION@ + field(LOCALE@) + field(CLIENT_ID@) + field(CLIENT_VERSION@) + FLAG@
}

/// The envelope around an address frame: the header, the length of the frame
/// in four bytes, the frame.
pub open spec fn envelope(frame: Seq<u8>) -> Seq<u8> {
    envelope_header() + be32(frame.len() as int) + frame
}

/// The request for an address text, or the reason why there is none.
pub open spec fn encoded(address: Seq<u8>) -> Result<Seq<u8>, Error> {
    if address.len() > MAX_TEXT_LEN {
        Err(Error::Encoding)
    } else if !is_canonical(address) {
        Err(Error::MalformedInput)
    } else {
        Ok(envelope(address_frame(address)))
    }
}

/// The bytes of a payload that was built, or the error that came instead.
pub open spec fn payload_bytes(r: Result<Vec<u8>, Error>) -> Result<Seq<u8>, Error> {
    match r {
        Ok(payload) => Ok(payload@),
        Err(e) => Err(e),
    }
}

/// Appends `bytes` to `out`.
fn put(out: &mut Vec<u8>, bytes: &[u8])
    ensures
        final(out)@ == old(out)@ + bytes@,
{
    let mut i: usize = 0;
    while i < bytes.len()
        invariant
            0 <= i <= bytes@.len(),
            out@ == old(out)@ + bytes@.subrange(0, i as int),
        decreases bytes@.len() - i,
    {
        out.push(bytes[i]);
        i += 1;
        assert(out@ =~= old(out)@ + bytes@.subrange(0, i as int));
    }
    assert(out@ =~= old(out)@ + bytes@);
}

/// Appends a field of the envelope to `out`.
fn put_field(out: &mut Vec<u8>, text: &[u8])
    requires
        text@.len() <= MAX_FIELD_LEN,
    ensures
        final(out)@ == old(out)@ + field(text@),
{
    let n = text.len();
    out.push((n / 0x100) as u8);
    out.push((n % 0x100) as u8);
    put(out, text);
    assert(out@ =~= old(out)@ + field(text@));
}

/// Builds the address frame around a text.
///
/// A text of more than 255 bytes does not fit the frame's length byte and is
/// refused; nothing of it is cut off.
pub fn encode_address_frame(text: &[u8]) -> (r: Result<Vec<u8>, Error>)
    ensures
        payload_bytes(r) == if text@.len() > MAX_TEXT_LEN {
            Err::<Seq<u8>, Error>(Error::Encoding)
        } else {
            Ok(address_frame(text@))
        },
{
    if text.len() > MAX_TEXT_LEN {
        return Err(Error::Encoding);
    }
    let mut frame: Vec<u8> = Vec::new();
    put(&mut frame, &FRAME_TAG);
    frame.push(text.len() as u8);
    put(&mut frame, text);
    put(&mut frame, &FRAME_TRAILER);
    assert(frame@ =~= address_frame(text@));
    Ok(frame)
}

/// Builds the envelope around an address frame.
///
/// A frame of 2^32 bytes or more does not fit the envelope's length field
/// and is refused.
pub fn encode_envelope(frame: &[u8]) -> (r: Result<Vec<u8>, Error>)
    ensures
        payload_bytes(r) == if frame@.len() > MAX_FRAME_LEN {
            Err::<Seq<u8>, Error>(Error::Encoding)
        } else {
            Ok(envelope(frame@))
        },
{
    let n = frame.len();
    if n > MAX_FRAME_LEN {
        return Err(Error::Encoding);
    }
    let mut payload: Vec<u8> = Vec::new();
    put(&mut payload, &VERSION);
    put_field(&mut payload, &LOCALE);
    put_field(&mut payload, &CLIENT_ID);
    put_field(&mut payload, &CLIENT_VERSION);
    put(&mut payload, &FLAG);
    assert(payload@ =~= envelope_header());
    payload.push((n / 0x100_0000 % 0x100) as u8);
    payload.push((n / 0x1_0000 % 0x100) as u8);
    payload.push((n / 0x100 % 0x100) as u8);
    payload.push((n % 0x100) as u8);
    assert(payload@ =~= envelope_header() + be32(n as int));
    put(&mut payload, frame);
    Ok(payload)
}

/// Builds the request that asks about one address.
///
/// The address is taken as the text it is written as. One of more than 255
/// bytes is an encoding error; any other that is not canonical is malformed.
/// For a canonical address the request is the envelope around its frame, the
/// same bytes for the same address.
pub fn encode(address: &str) -> (r: Result<Vec<u8>, Error>)
    ensures
        payload_bytes(r) == encoded(utf8(address@)),
{
    let text = address.as_bytes();
    if text.len() > MAX_TEXT_LEN {
        return Err(Error::Encoding);
    }
    if !is_canonical_address(text) {
        return Err(Error::MalformedInput);
    }
    match encode_address_frame(text) {
        Ok(frame) => encode_envelope(frame.as_slice()),
        Err(e) => Err(e),
    }
}

/// The same address gives the same request: whatever two runs of `encode`
/// return for one address text, they return the same.
pub proof fn lemma_encode_deterministic(
    address: Seq<u8>,
    first: Result<Vec<u8>, Error>,
    second: Result<Vec<u8>, Error>,
)
    requires
        payload_bytes(first) == encoded(address),
        payload_bytes(second) == encoded(address),
    ensures
        payload_bytes(first) == payload_bytes(second),
        first is Ok <==> second is Ok,
        first is Ok ==> first->Ok_0@ == second->Ok_0@,
        first is Err ==> first->Err_0 == second->Err_0,
{
}

/// The length byte of an address frame says how many bytes the text has,
/// and the text stands right behind it, between the tag and the trailer.
pub proof fn lemma_frame_layout(text: Seq<u8>)
    requires
        text.len() <= MAX_TEXT_LEN,
    ensures
        address_frame(text).len() == text.len() + 8,
        address_frame(text).subrange(0, 3) == seq![0x12u8, 0x13u8, 0x0au8],
        address_frame(text)[3] as int == text.len(),
        address_frame(text).subrange(4, 4 + text.len() as int) == text,
        address_frame(text).subrange(4 + text.len() as int, 8 + text.len() as int) == seq![
            0x18u8,
            0x00u8,
            0x20u8,
            0x00u8,
        ],
{
    let frame = address_frame(text);
    assert(frame.subrange(0, 3) =~= seq![0x12u8, 0x13u8, 0x0au8]);
    assert(frame.subrange(4, 4 + text.len() as int) =~= text);
    assert(frame.subrange(4 + text.len() as int, 8 + text.len() as int) =~= seq![
        0x18u8,
        0x00u8,
        0x20u8,
        0x00u8,
    ]);
}

/// The header of the envelope, byte by byte.
pub proof fn lemma_envelope_header_bytes()
    ensures
        envelope_header() == seq![
            0x00u8, 0x01u8,
            0x00u8, 0x05u8, 0x65u8, 0x6eu8, 0x5fu8, 0x55u8, 0x53u8,
            0x00u8, 0x13u8, 0x63u8, 0x6fu8, 0x6du8, 0x2eu8, 0x61u8, 0x70u8, 0x70u8, 0x6cu8, 0x65u8,
            0x2eu8, 0x6cu8, 0x6fu8, 0x63u8, 0x61u8, 0x74u8, 0x69u8, 0x6fu8, 0x6eu8, 0x64u8,
            0x00u8, 0x0au8, 0x38u8, 0x2eu8, 0x31u8, 0x2eu8, 0x31u8, 0x32u8, 0x42u8, 0x34u8, 0x31u8,
            0x31u8,
            0x00u8, 0x00u8, 0x00u8, 0x01u8,
        ],
        envelope_header().len() == 46,
{
    assert(envelope_header() =~= seq![
        0x00u8, 0x01u8,
        0x00u8, 0x05u8, 0x65u8, 0x6eu8, 0x5fu8, 0x55u8, 0x53u8,
        0x00u8, 0x13u8, 0x63u8, 0x6fu8, 0x6du8, 0x2eu8, 0x61u8, 0x70u8, 0x70u8, 0x6cu8, 0x65u8,
        0x2eu8, 0x6cu8, 0x6fu8, 0x63u8, 0x61u8, 0x74u8, 0x69u8, 0x6fu8, 0x6eu8, 0x64u8,
        0x00u8, 0x0au8, 0x38u8, 0x2eu8, 0x31u8, 0x2eu8, 0x31u8, 0x32u8, 0x42u8, 0x34u8, 0x31u8,
        0x31u8,
        0x00u8, 0x00u8, 0x00u8, 0x01u8,
    ]);
}

/// The length field of the envelope says how many bytes the address frame
/// has, and the frame stands right behind it, at the end of the envelope.
pub proof fn lemma_envelope_layout(frame: Seq<u8>)
    requires
        frame.len() <= MAX_FRAME_LEN,
    ensures
        envelope(frame).len() == 50 + frame.len(),
        envelope(frame).subrange(0, 46) == envelope_header(),
        be32_value(envelope(frame).subrange(46, 50)) == frame.len(),
        envelope(frame).subrange(50, 50 + frame.len() as int) == frame,
{
    lemma_envelope_header_bytes();
    let whole = envelope(frame);
    let n = frame.len() as int;
    assert(whole.subrange(0, 46) =~= envelope_header());
    assert(whole.subrange(46, 50) =~= be32(n));
    assert(whole.subrange(50, 50 + frame.len() as int) =~= frame);
}

/// The request for a canonical address: 75 bytes, with 17 in the frame's
/// length byte and 25 in the envelope's length field.
pub proof fn lemma_canonical_request(address: Seq<u8>)
    requires
        is_canonical(address),
    ensures
        encoded(address) == Ok::<Seq<u8>, Error>(envelope(address_frame(address))),
        address_frame(address).len() == 25,
        address_frame(address)[3] == 17,
        envelope(address_frame(address)).len() == 75,
        envelope(address_frame(address)).subrange(46, 50) == seq![0x00u8, 0x00u8, 0x00u8, 0x19u8],
        envelope(address_frame(address)).subrange(54, 71) == address,
{
    let frame = address_frame(address);
    lemma_frame_layout(address);
    lemma_envelope_layout(frame);
    let whole = envelope(frame);
    assert(whole.subrange(46, 50) =~= seq![0x00u8, 0x00u8, 0x00u8, 0x19u8]);
    assert(whole.subrange(54, 71) =~= frame.subrange(4, 21));
}

/// No text of more than 255 bytes is ever encoded.
pub proof fn lemma_long_text_refused(address: Seq<u8>)
    requires
        address.len() > MAX_TEXT_LEN,
    ensures
        encoded(address) == Err::<Seq<u8>, Error>(Error::Encoding),
{
}

} // verus!
