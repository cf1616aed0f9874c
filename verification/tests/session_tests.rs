//! The dispatcher and the session steps, driven as the loop drives them:
//! read, dispatch, complete, reply.

use browser_helper::dispatch::{dispatch_begin, dispatch_icon_result, dispatch_relabel_result,
    dispatch_window_info, panic_to_error, DispatchStep};
use browser_helper::frame::{decode_frame, encode_frame};
use browser_helper::messages::{MessageFromBrowser, MessageToBrowser, MessageToError};
use browser_helper::session::{read_step, reply_step, ReadOutcome, SessionState};

fn frame_of(payload: &[u8]) -> Vec<u8> {
    encode_frame(&payload.to_vec())
}

#[test]
fn stop_frame_terminates_without_any_reply() {
    // The stop payload is fifteen bytes, so its little-endian length
    // prefix is 0f 00 00 00.
    let mut input: Vec<u8> = vec![0x0f, 0x00, 0x00, 0x00];
    input.extend_from_slice(b"{\"type\":\"stop\"}");
    let cmd = match read_step(&input, 0) {
        ReadOutcome::Command { cmd, next } => {
            assert_eq!(next, input.len());
            cmd
        }
        other => panic!("expected a command, got {:?}", other),
    };
    assert_eq!(cmd, MessageFromBrowser::Stop);
    let step = dispatch_begin(cmd);
    let outcome = match step {
        DispatchStep::Reply(outcome) => outcome,
        other => panic!("stop must reply at once, got {:?}", other),
    };
    assert_eq!(outcome, Err(MessageToError::SessionStopping));
    let (written, state) = reply_step(outcome);
    assert!(written.is_none(), "stop must not produce a reply frame");
    assert_eq!(state, SessionState::Terminated);
}

#[test]
fn query_active_window_against_a_stub_collaborator() {
    let input = frame_of(b"{\"type\":\"queryActiveWindow\"}");
    let cmd = match read_step(&input, 0) {
        ReadOutcome::Command { cmd, .. } => cmd,
        other => panic!("expected a command, got {:?}", other),
    };
    assert_eq!(dispatch_begin(cmd), DispatchStep::NeedWindowInfo);
    // The stub window-info collaborator answers the query.
    let outcome = dispatch_window_info(
        7,
        "Notepad".to_string(),
        "a.txt".to_string(),
        "notepad.exe".to_string(),
    );
    let (written, state) = reply_step(outcome);
    assert_eq!(state, SessionState::Running);
    let written = written.expect("a query must be answered with one frame");
    let (payload, _) = decode_frame(&written, 0).unwrap();
    assert_eq!(
        payload,
        b"{\"type\":\"activeWindowInfo\",\"windowHandle\":7,\"className\":\"Notepad\",\"title\":\"a.txt\",\"processName\":\"notepad.exe\"}".to_vec()
    );
}

#[test]
fn malformed_url_is_refused_before_any_collaborator_call() {
    let cmd = MessageFromBrowser::SetWindowIcon {
        window_handle: 5,
        icon_source_url: "not a url".to_string(),
    };
    match dispatch_begin(cmd) {
        DispatchStep::Reply(Err(MessageToError::MalformedUrl { message })) => {
            assert_eq!(message, "Invalid favicon URL");
        }
        other => panic!("expected the malformed-URL reply, got {:?}", other),
    }
}

#[test]
fn well_formed_url_reaches_the_icon_collaborator() {
    let cmd = MessageFromBrowser::SetWindowIcon {
        window_handle: 5,
        icon_source_url: "https://example.com/page".to_string(),
    };
    assert_eq!(
        dispatch_begin(cmd),
        DispatchStep::NeedIcon {
            window_handle: 5,
            icon_source_url: "https://example.com/page".to_string(),
        }
    );
}

#[test]
fn collaborator_fault_degrades_to_one_reply_and_the_session_continues() {
    // A relabel command whose collaborator call raises an uncaught fault.
    let input = frame_of(b"{\"type\":\"relabelTaskbarGroup\",\"windowHandle\":9,\"groupId\":\"g\"}");
    let cmd = match read_step(&input, 0) {
        ReadOutcome::Command { cmd, .. } => cmd,
        other => panic!("expected a command, got {:?}", other),
    };
    assert_eq!(
        dispatch_begin(cmd),
        DispatchStep::NeedRelabel { window_handle: 9, group_id: "g".to_string() }
    );
    // The boundary converts the fault instead of crashing the session.
    let fault = panic_to_error("boom".to_string(), Some("host.rs".to_string()), Some(42));
    let (written, state) = reply_step(Err(fault));
    assert_eq!(state, SessionState::Running);
    let written = written.expect("the fault must become exactly one reply frame");
    let (payload, _) = decode_frame(&written, 0).unwrap();
    assert_eq!(
        payload,
        b"{\"type\":\"unexpectedFailure\",\"message\":\"boom\",\"file\":\"host.rs\",\"line\":42}"
            .to_vec()
    );
    // The loop is still running: a subsequent query is served normally.
    let input2 = frame_of(b"{\"type\":\"queryActiveWindow\"}");
    let cmd2 = match read_step(&input2, 0) {
        ReadOutcome::Command { cmd, .. } => cmd,
        other => panic!("expected a command, got {:?}", other),
    };
    assert_eq!(dispatch_begin(cmd2), DispatchStep::NeedWindowInfo);
    let outcome = dispatch_window_info(1, String::new(), String::new(), String::new());
    let (written2, state2) = reply_step(outcome);
    assert!(written2.is_some());
    assert_eq!(state2, SessionState::Running);
}

#[test]
fn bad_payload_is_answered_and_the_session_continues() {
    let input = frame_of(b"xyz");
    let reply = match read_step(&input, 0) {
        ReadOutcome::BadPayload { reply, next } => {
            assert_eq!(next, input.len());
            reply
        }
        other => panic!("expected a decode-failure reply, got {:?}", other),
    };
    let (written, state) = reply_step(Err(reply));
    assert_eq!(state, SessionState::Running);
    let (payload, _) = decode_frame(&written.unwrap(), 0).unwrap();
    assert_eq!(
        payload,
        b"{\"type\":\"decodeError\",\"message\":\"unsupported or malformed command payload\"}"
            .to_vec()
    );
}

#[test]
fn short_stream_ends_the_session_without_a_reply() {
    let empty: Vec<u8> = Vec::new();
    assert_eq!(read_step(&empty, 0), ReadOutcome::StreamEnded);
    let partial_prefix: Vec<u8> = vec![5, 0];
    assert_eq!(read_step(&partial_prefix, 0), ReadOutcome::StreamEnded);
    let mut short_payload: Vec<u8> = vec![5, 0, 0, 0];
    short_payload.extend_from_slice(b"ab");
    assert_eq!(read_step(&short_payload, 0), ReadOutcome::StreamEnded);
}

#[test]
fn relabel_completion_maps_both_outcomes() {
    assert_eq!(dispatch_relabel_result(Ok(())), Ok(MessageToBrowser::Acknowledged));
    assert_eq!(
        dispatch_relabel_result(Err("bad handle".to_string())),
        Err(MessageToError::OperationFailed { message: "bad handle".to_string() })
    );
}

#[test]
fn icon_completion_never_echoes_the_cause() {
    assert_eq!(
        dispatch_icon_result(Ok("example.com.ico".to_string())),
        Ok(MessageToBrowser::Acknowledged)
    );
    assert_eq!(
        dispatch_icon_result(Err("/secret/path denied".to_string())),
        Err(MessageToError::OperationFailed { message: "Failed to get favicon".to_string() })
    );
}

#[test]
fn panic_conversion_keeps_the_location_optional() {
    assert_eq!(
        panic_to_error("m".to_string(), None, None),
        MessageToError::UnexpectedFailure { message: "m".to_string(), file: None, line: None }
    );
}
