//! The session state machine: read one frame, dispatch, write one reply,
//! until told to stop or the stream fails.
//!
//! The blocking reads and writes on standard input/output belong to the
//! loop around this crate; the two steps here hold everything the loop
//! decides. [`read_step`] turns the bytes read so far into the next
//! command, a decode-failure reply, or the end of the stream; and
//! [`reply_step`] turns a dispatch outcome into the one frame to write —
//! or into none at all, exactly when the outcome is the session-stopping
//! sentinel, which is consumed here and never reaches the wire.

use vstd::prelude::*;

use crate::codec::decode_command;
use crate::codec::spec_decode_command;
use crate::codec::spec_encode_error;
use crate::codec::spec_encode_response;
use crate::codec::encode_response;
use crate::frame::decode_frame;
use crate::frame::encode_frame;
use crate::frame::spec_decode_frame;
use crate::frame::spec_frame;
use crate::messages::ErrorView;
use crate::messages::MessageFromBrowser;
use crate::messages::MessageToBrowser;
use crate::messages::MessageToError;

verus! {

/// The two states of a session. It starts `Running`; it is `Terminated`
/// by a stop command or by a failure of the stream, and by nothing else.
#[derive(Debug, Clone, Copy, PartialEq, Eq, Structural)]
pub enum SessionState {
    Running,
    Terminated,
}

/// What one read from the input yields.
#[derive(Debug, Clone, PartialEq, Eq)]
pub enum ReadOutcome {
    /// A whole frame arrived and its payload decodes to a command.
    Command { cmd: MessageFromBrowser, next: usize },
    /// A whole frame arrived but its payload is not a command; the decode
    /// failure is the reply, and the session continues.
    BadPayload { reply: MessageToError, next: usize },
    /// The input ends before a whole frame; the peer is presumed gone and
    /// the session terminates without a reply.
    StreamEnded,
}

/// Reads one command from position `pos` of the input buffer: all of a
/// frame and a well-formed payload, or a decode-failure reply, or the end
/// of the stream. No partial frame ever surfaces.
pub fn read_step(input: &Vec<u8>, pos: usize) -> (r: ReadOutcome)
    ensures
        match spec_decode_frame(input@, pos as int) {
            None => r is StreamEnded,
            Some(p) => match spec_decode_command(p.0) {
                Some(cv) => r matches (ReadOutcome::Command { cmd, next }) && cmd@ == cv
                    && next as int == p.1,
                None => r matches (ReadOutcome::BadPayload { reply, next }) && reply@ == (
                ErrorView::DecodeError { message: "unsupported or malformed command payload"@ })
                    && next as int == p.1,
            },
        },
{
    match decode_frame(input, pos) {
        None => ReadOutcome::StreamEnded,
        Some(frame) => {
            let (payload, next) = frame;
            match decode_command(&payload) {
                Ok(cmd) => ReadOutcome::Command { cmd, next },
                Err(reply) => ReadOutcome::BadPayload { reply, next },
            }
        },
    }
}

/// Turns one dispatch outcome into what the loop writes and the state it
/// moves to. The session-stopping sentinel yields no frame and terminates
/// the session: stopping is acknowledged by process exit, not by a
/// message. Every other outcome — success or failure alike — yields
/// exactly one reply frame and keeps the session running. A reply too
/// large for the frame format's 32-bit length is an unrecoverable
/// internal fault: no frame, session terminated.
pub fn reply_step(outcome: Result<MessageToBrowser, MessageToError>) -> (r: (
    Option<Vec<u8>>,
    SessionState,
))
    ensures
        ({
            let payload = match outcome {
                Ok(m) => spec_encode_response(m@),
                Err(e) => spec_encode_error(e@),
            };
            if outcome matches Err(e) && e@ is SessionStopping {
                r.0 is None && r.1 == SessionState::Terminated
            } else if payload.len() <= u32::MAX {
                r.0 matches Some(f) && f@ == spec_frame(payload) && r.1 == SessionState::Running
            } else {
                r.0 is None && r.1 == SessionState::Terminated
            }
        }),
{
    match &outcome {
        Err(MessageToError::SessionStopping) => {
            return (None, SessionState::Terminated);
        },
        _ => {
        },
    }
    let payload = encode_response(&outcome);
    if payload.len() as u64 > 0xFFFF_FFFFu64 {
        return (None, SessionState::Terminated);
    }
    let framed = encode_frame(&payload);
    (Some(framed), SessionState::Running)
}

} // verus!
