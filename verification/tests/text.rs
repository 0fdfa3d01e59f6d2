use tus_handlers::error::{InternalError, ProtocolError};
use tus_handlers::text::{
    decimal_text, has_char, join_texts, parse_u64, read_u64, same_text, split_text,
};
use tus_handlers::url::{GenerateUrlCtx, HostProto};

#[test]
fn numbers_are_written() {
    assert_eq!(decimal_text(0), "0");
    assert_eq!(decimal_text(10), "10");
    assert_eq!(decimal_text(1234567890), "1234567890");
    assert_eq!(decimal_text(u64::MAX), "18446744073709551615");
}

#[test]
fn numbers_are_read() {
    assert_eq!(read_u64("0"), Some(0));
    assert_eq!(read_u64("007"), Some(7));
    assert_eq!(read_u64("+7"), Some(7));
    assert_eq!(read_u64("18446744073709551615"), Some(u64::MAX));
    assert_eq!(read_u64("18446744073709551616"), None);
    assert_eq!(read_u64("99999999999999999999"), None);
    assert_eq!(read_u64(""), None);
    assert_eq!(read_u64("+"), None);
    assert_eq!(read_u64("++1"), None);
    assert_eq!(read_u64("-1"), None);
    assert_eq!(read_u64("1 "), None);
    assert_eq!(read_u64("1a"), None);
    assert_eq!(read_u64("\u{661}"), None);
}

#[test]
fn numbers_are_read_as_by_std() {
    for text in ["0", "+0", "", "+", "00000000000000000000000001", "12a", "18446744073709551615"] {
        assert_eq!(read_u64(text), text.parse::<u64>().ok(), "{:?}", text);
    }
}

#[test]
fn numbers_are_read_back() {
    for n in [0, 9, 10, 99, 100, u64::MAX - 1, u64::MAX] {
        assert_eq!(read_u64(&decimal_text(n)), Some(n));
    }
}

#[test]
fn numbers_in_fields() {
    assert_eq!(parse_u64(Some("5"), "upload-offset"), Ok(5));
    assert_eq!(
        parse_u64(Some("five"), "upload-offset"),
        Err(ProtocolError::InvalidInt("upload-offset"))
    );
    assert_eq!(
        parse_u64(None, "upload-offset"),
        Err(ProtocolError::MissingHeader("upload-offset"))
    );
}

#[test]
fn texts_are_split() {
    assert_eq!(split_text("", ','), vec![""]);
    assert_eq!(split_text("a", ','), vec!["a"]);
    assert_eq!(split_text("a,b", ','), vec!["a", "b"]);
    assert_eq!(split_text(",\u{e9}\u{1f600},,x,", ','), vec!["", "\u{e9}\u{1f600}", "", "x", ""]);
}

#[test]
fn texts_are_joined() {
    assert_eq!(join_texts(&vec![], ", "), "");
    assert_eq!(join_texts(&vec!["a".to_string()], ", "), "a");
    assert_eq!(join_texts(&vec!["a".to_string(), "b".to_string()], ", "), "a, b");
}

#[test]
fn split_texts_are_joined_again() {
    for text in ["", "a", "a,b", ",,", "x,,y,"] {
        let pieces: Vec<String> = split_text(text, ',').iter().map(|p| p.to_string()).collect();
        assert_eq!(join_texts(&pieces, ","), text);
    }
}

#[test]
fn characters_and_texts_are_compared() {
    assert!(has_char("a,b", ','));
    assert!(!has_char("ab", ','));
    assert!(same_text("a", "a"));
    assert!(!same_text("a", "A"));
}

#[test]
fn messages_of_internal_errors() {
    assert_eq!(
        InternalError::OffsetMissing.message(),
        "Upload file's offset value not found!"
    );
    assert_eq!(InternalError::StorageMissing.message(), "upload storage info missing");
    assert_eq!(
        InternalError::UnsupportedStorage("s3".to_string()).message(),
        "unsupported storage type: s3"
    );
    assert_eq!(InternalError::ResponseBody.message(), "failed to write response body");
}

#[test]
fn addresses_have_parts() {
    let place = HostProto { proto: "https", host: "example.com" };
    let address = GenerateUrlCtx { proto: place.proto, host: place.host, path: "/files", id: "x" };
    let copy = address;
    assert_eq!(format!("{}://{}{}/{}", copy.proto, copy.host, copy.path, copy.id),
        "https://example.com/files/x");
}
