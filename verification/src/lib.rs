//! Core of a browser native-messaging host: the length-prefixed frame codec,
//! the JSON message vocabulary exchanged with the browser extension, the
//! command dispatcher, and the session state machine that drives one
//! read-dispatch-write cycle per request.
//!
//! The process's standard input/output, the OS window manipulation and the
//! icon fetching are collaborators: they live outside this crate and hand the
//! functions here plain values.

pub mod codec;
pub mod dispatch;
pub mod frame;
pub mod install;
pub mod json;
pub mod messages;
pub mod roundtrip;
pub mod session;

use vstd::prelude::*;

verus! {

/// Local diagnostic logging is fire-and-forget with no delivery guarantee;
/// release builds discard the text, which this crate models by doing nothing.
pub fn log(_s: &str) {
}

} // verus!
