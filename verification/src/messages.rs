//! The message vocabulary of the protocol: the commands the browser
//! extension sends, the success replies, and the failure replies. Each
//! carried value is plain data — a window handle is an opaque 32-bit
//! identifier whose lifetime the OS collaborators own, never this crate.
//!
//! Each type has a view: the mathematical value that the codec and
//! dispatcher contracts speak about.

use vstd::prelude::*;

verus! {

/// A command from the browser to the host.
#[derive(Debug, Clone, PartialEq, Eq)]
pub enum MessageFromBrowser {
    /// Ask which window is in the foreground and what it shows.
    QueryActiveWindow,
    /// Give the window's taskbar button a grouping identifier of its own.
    RelabelTaskbarGroup { window_handle: u32, group_id: String },
    /// Replace the window's icon with one fetched for the given URL.
    SetWindowIcon { window_handle: u32, icon_source_url: String },
    /// End the session in an orderly way.
    Stop,
}

/// The view of a command.
pub enum CommandView {
    QueryActiveWindow,
    RelabelTaskbarGroup { window_handle: u32, group_id: Seq<char> },
    SetWindowIcon { window_handle: u32, icon_source_url: Seq<char> },
    Stop,
}

impl View for MessageFromBrowser {
    type V = CommandView;

    open spec fn view(&self) -> CommandView {
        match self {
            MessageFromBrowser::QueryActiveWindow => CommandView::QueryActiveWindow,
            MessageFromBrowser::RelabelTaskbarGroup { window_handle, group_id } => (
            CommandView::RelabelTaskbarGroup {
                window_handle: *window_handle,
                group_id: group_id@,
            }),
            MessageFromBrowser::SetWindowIcon { window_handle, icon_source_url } => (
            CommandView::SetWindowIcon {
                window_handle: *window_handle,
                icon_source_url: icon_source_url@,
            }),
            MessageFromBrowser::Stop => CommandView::Stop,
        }
    }
}

/// A success reply from the host to the browser.
#[derive(Debug, Clone, PartialEq, Eq)]
pub enum MessageToBrowser {
    /// The foreground window and what the OS reports about it. A field is
    /// the empty string when the OS query for it failed.
    ActiveWindowInfo {
        window_handle: u32,
        class_name: String,
        title: String,
        owning_process_name: String,
    },
    /// Generic success with no payload.
    Acknowledged,
}

/// The view of a success reply.
pub enum ResponseView {
    ActiveWindowInfo {
        window_handle: u32,
        class_name: Seq<char>,
        title: Seq<char>,
        owning_process_name: Seq<char>,
    },
    Acknowledged,
}

impl View for MessageToBrowser {
    type V = ResponseView;

    open spec fn view(&self) -> ResponseView {
        match self {
            MessageToBrowser::ActiveWindowInfo {
                window_handle,
                class_name,
                title,
                owning_process_name,
            } => (ResponseView::ActiveWindowInfo {
                window_handle: *window_handle,
                class_name: class_name@,
                title: title@,
                owning_process_name: owning_process_name@,
            }),
            MessageToBrowser::Acknowledged => ResponseView::Acknowledged,
        }
    }
}

/// A failure reply from the host to the browser, and the session-stopping
/// sentinel that is consumed internally and never written to the wire.
#[derive(Debug, Clone, PartialEq, Eq)]
pub enum MessageToError {
    /// The URL handed with a command could not be parsed.
    MalformedUrl { message: String },
    /// A recognized command could not be completed.
    OperationFailed { message: String },
    /// Reading or writing the byte stream failed; the session ends.
    StreamError { kind: String, message: String },
    /// A frame's payload did not decode to a command.
    DecodeError { message: String },
    /// An uncaught fault during dispatch, converted at the boundary.
    UnexpectedFailure { message: String, file: Option<String>, line: Option<u32> },
    /// Sentinel for orderly termination after a stop command.
    SessionStopping,
}

/// The view of a failure reply.
pub enum ErrorView {
    MalformedUrl { message: Seq<char> },
    OperationFailed { message: Seq<char> },
    StreamError { kind: Seq<char>, message: Seq<char> },
    DecodeError { message: Seq<char> },
    UnexpectedFailure { message: Seq<char>, file: Option<Seq<char>>, line: Option<u32> },
    SessionStopping,
}

impl View for MessageToError {
    type V = ErrorView;

    open spec fn view(&self) -> ErrorView {
        match self {
            MessageToError::MalformedUrl { message } => (ErrorView::MalformedUrl {
                message: message@,
            }),
            MessageToError::OperationFailed { message } => (ErrorView::OperationFailed {
                message: message@,
            }),
            MessageToError::StreamError { kind, message } => (ErrorView::StreamError {
                kind: kind@,
                message: message@,
            }),
            MessageToError::DecodeError { message } => (ErrorView::DecodeError {
                message: message@,
            }),
            MessageToError::UnexpectedFailure { message, file, line } => (
            ErrorView::UnexpectedFailure {
                message: message@,
                file: match file {
                    Some(f) => Some(f@),
                    None => None,
                },
                line: *line,
            }),
            MessageToError::SessionStopping => ErrorView::SessionStopping,
        }
    }
}

} // verus!
