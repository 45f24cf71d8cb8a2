//! Taking URIs apart.

use anthroforge::uri::{
    classify_uri, decoded_buffer, hex_value, locate_buffer, percent_decode, percent_decode_bytes, BufferSource,
    UriSource,
};

#[test]
fn escapes_are_decoded() {
    assert_eq!(percent_decode("my%20file.bin"), "my file.bin");
    assert_eq!(percent_decode("%41%4a%4A"), "AJJ");
    assert_eq!(percent_decode("%C3%A9t%c3%a9"), "\u{e9}t\u{e9}");
}

#[test]
fn what_is_no_escape_stays() {
    for text in ["", "plain.bin", "100%", "100%2", "%zz", "%+f", "%2", "%%", "%g0", "%0g", "a%-1b"] {
        assert_eq!(percent_decode(text), text);
    }
    assert_eq!(percent_decode("%%20"), "% ");
    assert_eq!(percent_decode("%2%20"), "%2 ");
    assert_eq!(percent_decode("%20"), " ");
    assert_eq!(percent_decode("\u{e9}%20\u{e9}"), "\u{e9} \u{e9}");
}

#[test]
fn text_without_percent_signs_is_unchanged() {
    for text in ["", "a/b/c.bin", "\u{4f60}\u{597d}.bin", "a b+c&d=e"] {
        assert_eq!(percent_decode(text), text);
        assert_eq!(percent_decode_bytes(text.as_bytes()), text.as_bytes());
    }
}

#[test]
fn bytes_that_are_no_text_are_replaced() {
    assert_eq!(percent_decode_bytes(b"a%FFb"), vec![b'a', 0xff, b'b']);
    assert_eq!(percent_decode("a%FFb"), "a\u{fffd}b");
}

#[test]
fn hex_digits() {
    assert_eq!(hex_value(b'0'), Some(0));
    assert_eq!(hex_value(b'9'), Some(9));
    assert_eq!(hex_value(b'a'), Some(10));
    assert_eq!(hex_value(b'F'), Some(15));
    assert_eq!(hex_value(b'g'), None);
    assert_eq!(hex_value(b'+'), None);
}

#[test]
fn kinds_of_uris() {
    assert!(matches!(classify_uri("data:"), UriSource::NoSeparator));
    assert!(matches!(classify_uri("data:x,y"), UriSource::NoSeparator));
    assert!(matches!(classify_uri("data:;"), UriSource::NotBase64));
    assert!(matches!(classify_uri("data:;Base64,AA"), UriSource::NotBase64));
    assert!(matches!(classify_uri("data:;base64,AA=="), UriSource::Base64(b"AA==")));
    assert!(matches!(classify_uri("data:a/b;base64,"), UriSource::Base64(b"")));
    assert!(matches!(classify_uri("data:http://x;base64,QQ=="), UriSource::Base64(b"QQ==")));
    assert!(matches!(classify_uri("http://x/y"), UriSource::Remote));
    assert!(matches!(classify_uri("://"), UriSource::Remote));
    assert!(matches!(classify_uri("a://"), UriSource::Remote));
    for relative in ["a.bin", "c:/a.bin", "a:/b", "Data:;base64,AA==", ":/"] {
        match classify_uri(relative) {
            UriSource::Relative(path) => assert_eq!(path, relative),
            other => panic!("expected a relative path, got {other:?}"),
        }
    }
}

#[test]
fn where_buffers_come_from() {
    let blob: &[u8] = &[1, 2, 3];
    match locate_buffer(None, Some(blob)) {
        BufferSource::Data(data) => assert_eq!(data, vec![1, 2, 3]),
        other => panic!("expected data, got {other:?}"),
    }
    assert!(matches!(locate_buffer(None, None), BufferSource::Nowhere(_)));
    // The binary chunk does not matter where there is a URI.
    match locate_buffer(Some("data:;base64,aGVsbG8="), Some(blob)) {
        BufferSource::Data(data) => assert_eq!(data, b"hello".to_vec()),
        other => panic!("expected data, got {other:?}"),
    }
    match locate_buffer(Some("a%20b"), None) {
        BufferSource::File(path) => assert_eq!(path, "a b"),
        other => panic!("expected a file, got {other:?}"),
    }
    assert!(matches!(decoded_buffer(Ok(vec![7])), BufferSource::Data(data) if data == vec![7]));
    assert!(matches!(
        decoded_buffer(Err("odd".to_string())),
        BufferSource::Nowhere(reason) if reason == "invalid base64 in data URI: odd"
    ));
    match locate_buffer(Some("data:;base64,A"), None) {
        BufferSource::Nowhere(reason) => assert!(reason.starts_with("invalid base64 in data URI: ")),
        other => panic!("expected a reason, got {other:?}"),
    }
}
