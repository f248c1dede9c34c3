use bssid_query::address::{format_address, is_canonical_address, parse_prefix};
use bssid_query::error::Error;
use bssid_query::hex::{parse_hex_digit, parse_hex_pair};
use bssid_query::synth::{assemble, synthesize};

fn table(entries: &[&str]) -> Vec<String> {
    entries.iter().map(|e| e.to_string()).collect()
}

#[test]
fn hex_digits_of_either_case_are_read() {
    assert_eq!(parse_hex_digit(b'0'), Some(0));
    assert_eq!(parse_hex_digit(b'9'), Some(9));
    assert_eq!(parse_hex_digit(b'a'), Some(10));
    assert_eq!(parse_hex_digit(b'f'), Some(15));
    assert_eq!(parse_hex_digit(b'A'), Some(10));
    assert_eq!(parse_hex_digit(b'F'), Some(15));
}

#[test]
fn bytes_next_to_the_hex_digits_are_refused() {
    assert_eq!(parse_hex_digit(b'/'), None);
    assert_eq!(parse_hex_digit(b':'), None);
    assert_eq!(parse_hex_digit(b'@'), None);
    assert_eq!(parse_hex_digit(b'G'), None);
    assert_eq!(parse_hex_digit(b'`'), None);
    assert_eq!(parse_hex_digit(b'g'), None);
    assert_eq!(parse_hex_digit(0), None);
    assert_eq!(parse_hex_digit(0xff), None);
}

#[test]
fn hex_pairs_spell_octets() {
    assert_eq!(parse_hex_pair(b'0', b'0'), Some(0x00));
    assert_eq!(parse_hex_pair(b'f', b'F'), Some(0xff));
    assert_eq!(parse_hex_pair(b'A', b'b'), Some(0xab));
    assert_eq!(parse_hex_pair(b'1', b'0'), Some(0x10));
    assert_eq!(parse_hex_pair(b'0', b'1'), Some(0x01));
    assert_eq!(parse_hex_pair(b'g', b'1'), None);
    assert_eq!(parse_hex_pair(b'1', b'g'), None);
}

#[test]
fn every_octet_is_read_back_from_its_text() {
    for v in 0..=255u8 {
        let text = format_address([v, 0, 0], [0, 0, v]);
        let bytes = text.as_bytes();
        assert_eq!(parse_hex_pair(bytes[0], bytes[1]), Some(v));
        assert_eq!(parse_hex_pair(bytes[15], bytes[16]), Some(v));
        assert_eq!(text, format!("{:02x}:00:00:00:00:{:02x}", v, v));
    }
}

#[test]
fn prefix_is_parsed_in_any_case() {
    assert_eq!(parse_prefix("AA:BB:CC"), Ok([0xaa, 0xbb, 0xcc]));
    assert_eq!(parse_prefix("aa:bb:cc"), Ok([0xaa, 0xbb, 0xcc]));
    assert_eq!(parse_prefix("0a:B1:9F"), Ok([0x0a, 0xb1, 0x9f]));
    assert_eq!(parse_prefix("00:00:00"), Ok([0, 0, 0]));
}

#[test]
fn prefix_may_be_followed_by_more() {
    assert_eq!(parse_prefix("AA:BB:CC:DD:EE:FF"), Ok([0xaa, 0xbb, 0xcc]));
    assert_eq!(parse_prefix("00:1B:C5:00:00:00/36"), Ok([0x00, 0x1b, 0xc5]));
}

#[test]
fn malformed_prefix_is_refused() {
    assert_eq!(parse_prefix(""), Err(Error::MalformedInput));
    assert_eq!(parse_prefix("AA:BB:C"), Err(Error::MalformedInput));
    assert_eq!(parse_prefix("AABBCC"), Err(Error::MalformedInput));
    assert_eq!(parse_prefix("AABBCC00"), Err(Error::MalformedInput));
    assert_eq!(parse_prefix("AA-BB-CC"), Err(Error::MalformedInput));
    assert_eq!(parse_prefix("AA:BB-CC"), Err(Error::MalformedInput));
    assert_eq!(parse_prefix("GG:BB:CC"), Err(Error::MalformedInput));
    assert_eq!(parse_prefix("AA:BB:CG"), Err(Error::MalformedInput));
    assert_eq!(parse_prefix(" AA:BB:CC"), Err(Error::MalformedInput));
    assert_eq!(parse_prefix("é:BB:CC:DD"), Err(Error::MalformedInput));
    assert_eq!(parse_prefix("AA:BB:Cé"), Err(Error::MalformedInput));
}

#[test]
fn address_text_is_lowercase_and_zero_padded() {
    assert_eq!(format_address([0xaa, 0xbb, 0xcc], [0x11, 0x22, 0x33]), "aa:bb:cc:11:22:33");
    assert_eq!(format_address([0, 1, 2], [0x0a, 0xf0, 0xff]), "00:01:02:0a:f0:ff");
    assert_eq!(format_address([0xde, 0xad, 0xbe], [0xef, 0x09, 0x90]), "de:ad:be:ef:09:90");
}

#[test]
fn canonical_addresses_are_recognised() {
    assert!(is_canonical_address(b"aa:bb:cc:11:22:33"));
    assert!(is_canonical_address(b"00:00:00:00:00:00"));
    assert!(is_canonical_address(b"ff:ff:ff:ff:ff:ff"));
    assert!(is_canonical_address(b"09:af:5e:d1:c2:b3"));
}

#[test]
fn other_texts_are_not_canonical() {
    assert!(!is_canonical_address(b""));
    assert!(!is_canonical_address(b"aa:bb:cc:11:22:3"));
    assert!(!is_canonical_address(b"aa:bb:cc:11:22:333"));
    assert!(!is_canonical_address(b"AA:bb:cc:11:22:33"));
    assert!(!is_canonical_address(b"aa:bb:cc:11:22:3F"));
    assert!(!is_canonical_address(b"aa-bb-cc-11-22-33"));
    assert!(!is_canonical_address(b"aa:bb:cc:11:22-33"));
    assert!(!is_canonical_address(b"aa:bb:cc:11:22:3g"));
    assert!(!is_canonical_address(b":a:bb:cc:11:22:33"));
    assert!(!is_canonical_address(b"aabbcc112233aabbc"));
}

#[test]
fn assemble_joins_prefix_and_host() {
    assert_eq!(
        assemble("AA:BB:CC", [0x11, 0x22, 0x33]),
        Ok("aa:bb:cc:11:22:33".to_string())
    );
    assert_eq!(
        assemble("00:1b:C5", [0x00, 0x0f, 0xf0]),
        Ok("00:1b:c5:00:0f:f0".to_string())
    );
}

#[test]
fn assemble_refuses_a_malformed_prefix() {
    assert_eq!(assemble("AA:BB", [1, 2, 3]), Err(Error::MalformedInput));
    assert_eq!(assemble("AA:BB:ZZ", [1, 2, 3]), Err(Error::MalformedInput));
    assert_eq!(assemble("", [1, 2, 3]), Err(Error::MalformedInput));
}

#[test]
fn synthesize_fails_on_an_empty_table() {
    let mut rng = rand::thread_rng();
    assert_eq!(synthesize(&[], &mut rng), Err(Error::Configuration));
}

#[test]
fn synthesize_gives_a_canonical_address_with_a_prefix_of_the_table() {
    let entries = table(&["AA:BB:CC", "00:1b:c5", "F0:9f:C2:00"]);
    let lowered = ["aa:bb:cc", "00:1b:c5", "f0:9f:c2"];
    let mut rng = rand::thread_rng();
    for _ in 0..200 {
        let text = synthesize(&entries, &mut rng).unwrap();
        assert_eq!(text.len(), 17);
        assert!(is_canonical_address(text.as_bytes()));
        assert!(lowered.contains(&&text[0..8]));
    }
}

#[test]
fn synthesize_with_one_entry_always_takes_it() {
    let entries = table(&["AA:BB:CC"]);
    let mut rng = rand::thread_rng();
    for _ in 0..50 {
        let text = synthesize(&entries, &mut rng).unwrap();
        assert_eq!(&text[0..9], "aa:bb:cc:");
    }
}

#[test]
fn synthesize_draws_the_host_octets() {
    let entries = table(&["AA:BB:CC", "11:22:33"]);
    let mut rng = rand::thread_rng();
    let mut hosts: Vec<String> = Vec::new();
    let mut prefixes: Vec<String> = Vec::new();
    for _ in 0..200 {
        let text = synthesize(&entries, &mut rng).unwrap();
        hosts.push(text[9..17].to_string());
        prefixes.push(text[0..8].to_string());
    }
    hosts.sort();
    hosts.dedup();
    prefixes.sort();
    prefixes.dedup();
    assert!(hosts.len() > 1);
    assert_eq!(prefixes.len(), 2);
}

#[test]
fn synthesize_refuses_a_malformed_entry() {
    let entries = table(&["AABBCC"]);
    let mut rng = rand::thread_rng();
    assert_eq!(synthesize(&entries, &mut rng), Err(Error::MalformedInput));
}

#[test]
fn errors_have_messages() {
    assert_eq!(Error::Configuration.message(), "the vendor prefix table is empty");
    assert_eq!(Error::MalformedInput.message(), "the input does not have the expected shape");
    assert_eq!(Error::Encoding.message(), "a field does not fit its length prefix");
}
