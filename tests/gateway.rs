use boxpeer::gateway::{
    fetch_failed_message, file_message, heartbeat, immediate_reply, parse_text_message, GatewayRequest, Heartbeat,
};
use boxpeer::Fingerprint;

const HELLO: &str = "bafkreifzjut3te2nhyekklss27nh3k72ysco7y32koao5eei66wof36n5e";

#[test]
fn get_files_two_cids() {
    let other = Fingerprint::of_bytes(b"other").to_text();
    let msg = format!("GET_FILES:{}, {} ", HELLO, other);
    match parse_text_message(&msg) {
        GatewayRequest::GetFiles(v) => {
            assert_eq!(v.len(), 2);
            assert_eq!(v[0].to_text(), HELLO);
            assert_eq!(v[1].to_text(), other);
        }
        _ => panic!("expected a request for files"),
    }
}

#[test]
fn get_files_skips_invalid() {
    let msg = format!("GET_FILES:nonsense,{}", HELLO);
    match parse_text_message(&msg) {
        GatewayRequest::GetFiles(v) => {
            assert_eq!(v.len(), 1);
            assert_eq!(v[0].to_text(), HELLO);
        }
        _ => panic!("expected a request for files"),
    }
}

#[test]
fn get_files_repeated_prefix() {
    let msg = format!("GET_FILES:GET_FILES:{}", HELLO);
    assert!(matches!(parse_text_message(&msg), GatewayRequest::GetFiles(ref v) if v.len() == 1));
}

#[test]
fn get_files_none_valid() {
    let r = parse_text_message("GET_FILES:foo,bar");
    assert!(matches!(r, GatewayRequest::NoValidCids));
    assert_eq!(immediate_reply(&r), Some("No valid CIDs provided".to_string()));
    assert!(matches!(parse_text_message("GET_FILES:"), GatewayRequest::NoValidCids));
}

#[test]
fn unknown_command() {
    let r = parse_text_message("HELLO");
    assert!(matches!(r, GatewayRequest::Unknown));
    assert_eq!(immediate_reply(&r), Some("Unknown command".to_string()));
    assert!(matches!(parse_text_message(""), GatewayRequest::Unknown));
}

#[test]
fn file_message_is_json_with_base64() {
    let f = Fingerprint::of_bytes(b"hello world");
    assert_eq!(
        file_message(&f, b"hello world"),
        format!("{{ \"cid\": \"{}\", \"data\": \"aGVsbG8gd29ybGQ=\" }}", HELLO)
    );
}

#[test]
fn fetch_failed_text() {
    let f = Fingerprint::of_bytes(b"hello world");
    assert_eq!(
        fetch_failed_message(&f, "timed out"),
        format!("Error fetching file for CID {}: timed out", HELLO)
    );
}

#[test]
fn heartbeat_threshold() {
    assert_eq!(heartbeat(0), Heartbeat::Ping);
    assert_eq!(heartbeat(30_000_000_000), Heartbeat::Ping);
    assert_eq!(heartbeat(30_000_000_001), Heartbeat::Disconnect);
}
