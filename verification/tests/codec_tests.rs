//! The wire codec, exercised from outside: canonical encoding, decoding,
//! round trips, and the inputs that must be refused.

use browser_helper::codec::{decode_command, encode_command, encode_error, encode_response,
    encode_success};
use browser_helper::messages::{MessageFromBrowser, MessageToBrowser, MessageToError};

fn decode(payload: &[u8]) -> Result<MessageFromBrowser, MessageToError> {
    decode_command(&payload.to_vec())
}

fn expect_decode_error(payload: &[u8]) {
    match decode(payload) {
        Err(MessageToError::DecodeError { message }) => {
            assert_eq!(message, "unsupported or malformed command payload");
        }
        other => panic!("expected a decode error, got {:?}", other),
    }
}

#[test]
fn encode_query_active_window_is_canonical() {
    let bytes = encode_command(&MessageFromBrowser::QueryActiveWindow);
    assert_eq!(bytes, b"{\"type\":\"queryActiveWindow\"}".to_vec());
}

#[test]
fn encode_stop_is_canonical() {
    let bytes = encode_command(&MessageFromBrowser::Stop);
    assert_eq!(bytes, b"{\"type\":\"stop\"}".to_vec());
}

#[test]
fn encode_relabel_is_canonical() {
    let cmd = MessageFromBrowser::RelabelTaskbarGroup {
        window_handle: 42,
        group_id: "site-a".to_string(),
    };
    assert_eq!(
        encode_command(&cmd),
        b"{\"type\":\"relabelTaskbarGroup\",\"windowHandle\":42,\"groupId\":\"site-a\"}".to_vec()
    );
}

#[test]
fn round_trip_query_active_window() {
    let cmd = MessageFromBrowser::QueryActiveWindow;
    assert_eq!(decode(&encode_command(&cmd)), Ok(cmd));
}

#[test]
fn round_trip_stop() {
    let cmd = MessageFromBrowser::Stop;
    assert_eq!(decode(&encode_command(&cmd)), Ok(cmd));
}

#[test]
fn round_trip_relabel() {
    let cmd = MessageFromBrowser::RelabelTaskbarGroup {
        window_handle: 4294967295,
        group_id: "a b c".to_string(),
    };
    assert_eq!(decode(&encode_command(&cmd)), Ok(cmd));
}

#[test]
fn round_trip_set_window_icon() {
    let cmd = MessageFromBrowser::SetWindowIcon {
        window_handle: 0,
        icon_source_url: "https://example.com/favicon.ico".to_string(),
    };
    assert_eq!(decode(&encode_command(&cmd)), Ok(cmd));
}

#[test]
fn round_trip_with_escapes_and_unicode() {
    let cmd = MessageFromBrowser::RelabelTaskbarGroup {
        window_handle: 7,
        group_id: "a\"b\\c/d\n\t\r\u{8}\u{c}\u{1}é漢😀".to_string(),
    };
    assert_eq!(decode(&encode_command(&cmd)), Ok(cmd));
}

#[test]
fn decode_accepts_whitespace_and_either_field_order() {
    let cmd = decode(
        b" { \"type\" : \"relabelTaskbarGroup\" , \"groupId\" : \"g\" , \"windowHandle\" : 3 } ",
    );
    assert_eq!(
        cmd,
        Ok(MessageFromBrowser::RelabelTaskbarGroup {
            window_handle: 3,
            group_id: "g".to_string(),
        })
    );
}

#[test]
fn decode_accepts_unicode_escapes() {
    let cmd = decode(b"{\"type\":\"relabelTaskbarGroup\",\"windowHandle\":1,\"groupId\":\"\\u0041\\u00e9\\u6f22\\uD83D\\uDE00\"}");
    assert_eq!(
        cmd,
        Ok(MessageFromBrowser::RelabelTaskbarGroup {
            window_handle: 1,
            group_id: "Aé漢😀".to_string(),
        })
    );
}

#[test]
fn decode_accepts_escaped_key() {
    let cmd = decode(b"{\"\\u0074ype\":\"stop\"}");
    assert_eq!(cmd, Ok(MessageFromBrowser::Stop));
}

#[test]
fn decode_accepts_largest_window_handle() {
    let cmd = decode(
        b"{\"type\":\"setWindowIcon\",\"windowHandle\":4294967295,\"iconSourceUrl\":\"u\"}",
    );
    assert_eq!(
        cmd,
        Ok(MessageFromBrowser::SetWindowIcon {
            window_handle: 4294967295,
            icon_source_url: "u".to_string(),
        })
    );
}

#[test]
fn decode_rejects_unknown_tag() {
    expect_decode_error(b"{\"type\":\"reboot\"}");
}

#[test]
fn decode_rejects_empty_and_non_json() {
    expect_decode_error(b"");
    expect_decode_error(b"stop");
    expect_decode_error(b"[]");
    expect_decode_error(b"null");
}

#[test]
fn decode_rejects_missing_field() {
    expect_decode_error(b"{\"type\":\"relabelTaskbarGroup\",\"windowHandle\":1}");
    expect_decode_error(b"{\"type\":\"relabelTaskbarGroup\",\"groupId\":\"g\"}");
}

#[test]
fn decode_rejects_repeated_or_foreign_field() {
    expect_decode_error(
        b"{\"type\":\"relabelTaskbarGroup\",\"windowHandle\":1,\"windowHandle\":2}",
    );
    expect_decode_error(
        b"{\"type\":\"relabelTaskbarGroup\",\"windowHandle\":1,\"iconSourceUrl\":\"u\"}",
    );
}

#[test]
fn decode_rejects_trailing_text() {
    expect_decode_error(b"{\"type\":\"stop\"}x");
    expect_decode_error(b"{\"type\":\"stop\"}{\"type\":\"stop\"}");
}

#[test]
fn decode_rejects_bad_numbers() {
    expect_decode_error(b"{\"type\":\"relabelTaskbarGroup\",\"windowHandle\":01,\"groupId\":\"g\"}");
    expect_decode_error(
        b"{\"type\":\"relabelTaskbarGroup\",\"windowHandle\":4294967296,\"groupId\":\"g\"}",
    );
    expect_decode_error(
        b"{\"type\":\"relabelTaskbarGroup\",\"windowHandle\":-1,\"groupId\":\"g\"}",
    );
    expect_decode_error(
        b"{\"type\":\"relabelTaskbarGroup\",\"windowHandle\":\"7\",\"groupId\":\"g\"}",
    );
}

#[test]
fn decode_rejects_bad_strings() {
    // A lone low surrogate, an unpaired high surrogate, a raw control byte,
    // and bytes that are not UTF-8.
    expect_decode_error(b"{\"type\":\"relabelTaskbarGroup\",\"windowHandle\":1,\"groupId\":\"\\uDC00\"}");
    expect_decode_error(b"{\"type\":\"relabelTaskbarGroup\",\"windowHandle\":1,\"groupId\":\"\\uD800x\"}");
    expect_decode_error(b"{\"type\":\"relabelTaskbarGroup\",\"windowHandle\":1,\"groupId\":\"\x01\"}");
    expect_decode_error(b"{\"type\":\"relabelTaskbarGroup\",\"windowHandle\":1,\"groupId\":\"\x80\"}");
}

#[test]
fn decode_requires_tag_first() {
    expect_decode_error(
        b"{\"windowHandle\":1,\"type\":\"relabelTaskbarGroup\",\"groupId\":\"g\"}",
    );
}

#[test]
fn encode_active_window_info_is_canonical() {
    let reply = MessageToBrowser::ActiveWindowInfo {
        window_handle: 7,
        class_name: "Notepad".to_string(),
        title: "a.txt".to_string(),
        owning_process_name: "notepad.exe".to_string(),
    };
    assert_eq!(
        encode_success(&reply),
        b"{\"type\":\"activeWindowInfo\",\"windowHandle\":7,\"className\":\"Notepad\",\"title\":\"a.txt\",\"processName\":\"notepad.exe\"}".to_vec()
    );
}

#[test]
fn encode_acknowledged_is_canonical() {
    assert_eq!(
        encode_success(&MessageToBrowser::Acknowledged),
        b"{\"type\":\"acknowledged\"}".to_vec()
    );
}

#[test]
fn encode_error_variants_are_canonical() {
    assert_eq!(
        encode_error(&MessageToError::MalformedUrl { message: "m".to_string() }),
        b"{\"type\":\"malformedUrl\",\"message\":\"m\"}".to_vec()
    );
    assert_eq!(
        encode_error(&MessageToError::OperationFailed { message: "m".to_string() }),
        b"{\"type\":\"operationFailed\",\"message\":\"m\"}".to_vec()
    );
    assert_eq!(
        encode_error(&MessageToError::StreamError {
            kind: "UnexpectedEof".to_string(),
            message: "gone".to_string(),
        }),
        b"{\"type\":\"streamError\",\"kind\":\"UnexpectedEof\",\"message\":\"gone\"}".to_vec()
    );
    assert_eq!(
        encode_error(&MessageToError::DecodeError { message: "m".to_string() }),
        b"{\"type\":\"decodeError\",\"message\":\"m\"}".to_vec()
    );
    assert_eq!(
        encode_error(&MessageToError::SessionStopping),
        b"{\"type\":\"sessionStopping\"}".to_vec()
    );
}

#[test]
fn encode_unexpected_failure_with_and_without_location() {
    assert_eq!(
        encode_error(&MessageToError::UnexpectedFailure {
            message: "boom".to_string(),
            file: Some("host.rs".to_string()),
            line: Some(12),
        }),
        b"{\"type\":\"unexpectedFailure\",\"message\":\"boom\",\"file\":\"host.rs\",\"line\":12}"
            .to_vec()
    );
    assert_eq!(
        encode_error(&MessageToError::UnexpectedFailure {
            message: "boom".to_string(),
            file: None,
            line: None,
        }),
        b"{\"type\":\"unexpectedFailure\",\"message\":\"boom\",\"file\":null,\"line\":null}"
            .to_vec()
    );
}

#[test]
fn encode_response_covers_both_sides() {
    let ok: Result<MessageToBrowser, MessageToError> = Ok(MessageToBrowser::Acknowledged);
    let err: Result<MessageToBrowser, MessageToError> =
        Err(MessageToError::SessionStopping);
    assert_eq!(encode_response(&ok), b"{\"type\":\"acknowledged\"}".to_vec());
    assert_eq!(encode_response(&err), b"{\"type\":\"sessionStopping\"}".to_vec());
}

#[test]
fn encode_escapes_control_characters() {
    let reply = MessageToBrowser::ActiveWindowInfo {
        window_handle: 1,
        class_name: "a\"b".to_string(),
        title: "x\ny\u{1}".to_string(),
        owning_process_name: "p\\q".to_string(),
    };
    assert_eq!(
        encode_success(&reply),
        b"{\"type\":\"activeWindowInfo\",\"windowHandle\":1,\"className\":\"a\\\"b\",\"title\":\"x\\ny\\u0001\",\"processName\":\"p\\\\q\"}".to_vec()
    );
}

#[test]
fn round_trip_empty_string_field() {
    let cmd = MessageFromBrowser::RelabelTaskbarGroup {
        window_handle: 0,
        group_id: String::new(),
    };
    assert_eq!(
        encode_command(&cmd),
        b"{\"type\":\"relabelTaskbarGroup\",\"windowHandle\":0,\"groupId\":\"\"}".to_vec()
    );
    assert_eq!(decode(&encode_command(&cmd)), Ok(cmd));
}

#[test]
fn decode_accepts_a_zero_handle_but_not_an_empty_number() {
    assert_eq!(
        decode(b"{\"type\":\"relabelTaskbarGroup\",\"windowHandle\":0,\"groupId\":\"g\"}"),
        Ok(MessageFromBrowser::RelabelTaskbarGroup {
            window_handle: 0,
            group_id: "g".to_string(),
        })
    );
    expect_decode_error(b"{\"type\":\"relabelTaskbarGroup\",\"windowHandle\":,\"groupId\":\"g\"}");
}

#[test]
fn empty_window_fields_encode_as_empty_strings() {
    let reply = MessageToBrowser::ActiveWindowInfo {
        window_handle: 0,
        class_name: String::new(),
        title: String::new(),
        owning_process_name: String::new(),
    };
    assert_eq!(
        encode_success(&reply),
        b"{\"type\":\"activeWindowInfo\",\"windowHandle\":0,\"className\":\"\",\"title\":\"\",\"processName\":\"\"}".to_vec()
    );
}
