use chain_indexer::address::Address;
use chain_indexer::address::Hash32;
use chain_indexer::hex::encode_hex;

#[test]
fn parse_lowercase_address() {
    let a = Address::parse("0x00112233445566778899aabbccddeeff00112233").unwrap();
    assert_eq!(
        a.bytes,
        [
            0x00, 0x11, 0x22, 0x33, 0x44, 0x55, 0x66, 0x77, 0x88, 0x99, 0xaa, 0xbb, 0xcc, 0xdd,
            0xee, 0xff, 0x00, 0x11, 0x22, 0x33
        ]
    );
}

#[test]
fn parse_mixed_case_address() {
    let a = Address::parse("0xAbCdEf0123456789aBcDeF0123456789abcdef01").unwrap();
    assert_eq!(a.bytes[0], 0xab);
    assert_eq!(a.bytes[1], 0xcd);
    assert_eq!(a.bytes[19], 0x01);
}

#[test]
fn parse_rejects_wrong_length() {
    assert!(Address::parse("0x001122").is_none());
    assert!(Address::parse("").is_none());
    assert!(Address::parse("0x00112233445566778899aabbccddeeff0011223344").is_none());
}

#[test]
fn parse_rejects_missing_prefix() {
    assert!(Address::parse("0y00112233445566778899aabbccddeeff00112233").is_none());
    assert!(Address::parse("x000112233445566778899aabbccddeeff0011223").is_none());
}

#[test]
fn parse_rejects_bad_digit() {
    assert!(Address::parse("0x00112233445566778899aabbccddeeff0011223g").is_none());
    assert!(Address::parse("0x00112233445566778899aabbccddeeff 0112233").is_none());
}

#[test]
fn address_to_hex_is_lowercase_prefixed() {
    let a = Address { bytes: [0xaa; 20] };
    assert_eq!(a.to_hex(), "0xaaaaaaaaaaaaaaaaaaaaaaaaaaaaaaaaaaaaaaaa");
}

#[test]
fn address_hex_round_trip() {
    let a = Address::parse("0x00112233445566778899aabbccddeeff00112233").unwrap();
    let b = Address::parse(&a.to_hex()).unwrap();
    assert_eq!(a.bytes, b.bytes);
}

#[test]
fn hash_to_hex_value() {
    let mut bytes = [0u8; 32];
    bytes[0] = 0x01;
    bytes[31] = 0xff;
    let h = Hash32 { bytes };
    assert_eq!(
        h.to_hex(),
        "0x01000000000000000000000000000000000000000000000000000000000000ff"
    );
}

#[test]
fn encode_hex_exact() {
    assert_eq!(encode_hex(&[]), "0x");
    assert_eq!(encode_hex(&[0x00, 0x0f, 0xf0, 0xff]), "0x000ff0ff");
}

#[test]
fn same_as_compares_bytes() {
    let a = Address { bytes: [1; 20] };
    let b = Address { bytes: [1; 20] };
    let mut c = Address { bytes: [1; 20] };
    c.bytes[19] = 2;
    assert!(a.same_as(&b));
    assert!(!a.same_as(&c));
}
