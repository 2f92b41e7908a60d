use boxpeer::fingerprint::{CID_VERSION, RAW_CODEC, SHA2_256_CODE, SHA2_256_LEN};
use boxpeer::Fingerprint;

const HELLO_DIGEST: [u8; 32] = [
    0xb9, 0x4d, 0x27, 0xb9, 0x93, 0x4d, 0x3e, 0x08, 0xa5, 0x2e, 0x52, 0xd7, 0xda, 0x7d, 0xab, 0xfa,
    0xc4, 0x84, 0xef, 0xe3, 0x7a, 0x53, 0x80, 0xee, 0x90, 0x88, 0xf7, 0xac, 0xe2, 0xef, 0xcd, 0xe9,
];

#[test]
fn hello_world_binary_form() {
    let f = Fingerprint::of_bytes(b"hello world");
    let mut expected = vec![CID_VERSION, RAW_CODEC, SHA2_256_CODE, SHA2_256_LEN];
    expected.extend_from_slice(&HELLO_DIGEST);
    assert_eq!(f.to_bytes(), expected);
}

#[test]
fn hello_world_text_form() {
    let f = Fingerprint::of_bytes(b"hello world");
    assert_eq!(f.to_text(), "bafkreifzjut3te2nhyekklss27nh3k72ysco7y32koao5eei66wof36n5e");
}

#[test]
fn empty_content_text_form() {
    let f = Fingerprint::of_bytes(b"");
    assert_eq!(f.to_text(), "bafkreihdwdcefgh4dqkjv67uzcmw7ojee6xedzdetojuzjevtenxquvyku");
    assert_eq!(f.to_bytes().len(), 36);
}

#[test]
fn fingerprint_is_deterministic() {
    let a = Fingerprint::of_bytes(b"some content");
    let b = Fingerprint::of_bytes(b"some content");
    assert!(a.same_as(&b));
    assert_eq!(a.to_text(), b.to_text());
}

#[test]
fn distinct_content_distinct_fingerprints() {
    let a = Fingerprint::of_bytes(b"content one");
    let b = Fingerprint::of_bytes(b"content two");
    assert!(!a.same_as(&b));
}

#[test]
fn parse_text_round_trip() {
    let f = Fingerprint::of_bytes(b"hello world");
    let parsed = Fingerprint::parse(&f.to_text()).unwrap();
    assert!(parsed.same_as(&f));
}

#[test]
fn parse_rejects_garbage() {
    assert!(Fingerprint::parse("not a cid").is_none());
    assert!(Fingerprint::parse("").is_none());
}

#[test]
fn clone_keeps_fingerprint() {
    let f = Fingerprint::of_bytes(b"x");
    assert!(f.clone().same_as(&f));
}
