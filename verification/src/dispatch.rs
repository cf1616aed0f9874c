//! The dispatcher: one decoded command maps to exactly one collaborator
//! capability and one reply.
//!
//! The OS window queries, the taskbar relabelling and the icon acquisition
//! are collaborators outside this crate. Dispatch is therefore split in
//! two verified halves: [`dispatch_begin`] turns a command into either an
//! immediate reply or the single collaborator call it needs, and a
//! completion function per capability turns that call's outcome into the
//! reply. The loop around them performs the call and feeds the outcome
//! back. Every command leads to a reply or to the stop sentinel — no
//! command is left unhandled.

use vstd::prelude::*;
use vstd::string::StringExecFns;

use crate::log;
use crate::messages::CommandView;
use crate::messages::ErrorView;
use crate::messages::MessageFromBrowser;
use crate::messages::MessageToBrowser;
use crate::messages::MessageToError;
use crate::messages::ResponseView;

verus! {

/// Whether `url::Url::parse` accepts a string; its outcome depends on the
/// characters alone.
pub uninterp spec fn url_parses(s: Seq<char>) -> bool;

/// Relies on `url::Url::parse`: a deterministic parse of the given string,
/// accepting it or not on the strength of its characters alone.
#[verifier::external_body]
fn url_parse_ok(s: &str) -> (r: bool)
    ensures
        r == url_parses(s@),
{
    match url::Url::parse(s) {
        Ok(_) => true,
        Err(_) => false,
    }
}

/// What one command asks of the session loop: reply at once, or perform
/// the one collaborator call the command needs and complete with its
/// outcome.
#[derive(Debug, PartialEq, Eq)]
pub enum DispatchStep {
    /// The reply is already decided; no collaborator is consulted.
    Reply(Result<MessageToBrowser, MessageToError>),
    /// Query the foreground window, then call [`dispatch_window_info`].
    NeedWindowInfo,
    /// Relabel the taskbar grouping, then call [`dispatch_relabel_result`].
    NeedRelabel { window_handle: u32, group_id: String },
    /// Acquire and apply an icon for the already-validated URL, then call
    /// [`dispatch_icon_result`].
    NeedIcon { window_handle: u32, icon_source_url: String },
}

/// Maps a command to its collaborator call or its immediate reply. This is
/// total: every command variant is handled. A stop command replies with
/// the session-stopping sentinel; an icon command whose URL does not parse
/// replies with the malformed-URL error before any collaborator is
/// touched.
pub fn dispatch_begin(cmd: MessageFromBrowser) -> (r: DispatchStep)
    ensures
        match cmd@ {
            CommandView::QueryActiveWindow => r is NeedWindowInfo,
            CommandView::Stop => r matches DispatchStep::Reply(Err(e)) && e@
                is SessionStopping,
            CommandView::RelabelTaskbarGroup { window_handle, group_id } => r matches (
            DispatchStep::NeedRelabel { window_handle: wh, group_id: g }) && wh == window_handle
                && g@ == group_id,
            CommandView::SetWindowIcon { window_handle, icon_source_url } => if url_parses(
                icon_source_url,
            ) {
                r matches (DispatchStep::NeedIcon { window_handle: wh, icon_source_url: u }) && wh
                    == window_handle && u@ == icon_source_url
            } else {
                r matches DispatchStep::Reply(Err(e)) && e@ == (ErrorView::MalformedUrl {
                    message: "Invalid favicon URL"@,
                })
            },
        },
{
    match cmd {
        MessageFromBrowser::QueryActiveWindow => DispatchStep::NeedWindowInfo,
        MessageFromBrowser::RelabelTaskbarGroup { window_handle, group_id } => (
        DispatchStep::NeedRelabel { window_handle, group_id }),
        MessageFromBrowser::SetWindowIcon { window_handle, icon_source_url } => {
            if url_parse_ok(icon_source_url.as_str()) {
                DispatchStep::NeedIcon { window_handle, icon_source_url }
            } else {
                DispatchStep::Reply(
                    Err(
                        MessageToError::MalformedUrl {
                            message: String::from_str("Invalid favicon URL"),
                        },
                    ),
                )
            }
        },
        MessageFromBrowser::Stop => DispatchStep::Reply(Err(MessageToError::SessionStopping)),
    }
}

/// Completes a foreground-window query: what the window-info collaborator
/// reported becomes the reply, verbatim. The query always succeeds — a
/// collaborator that failed internally reports empty strings, which pass
/// through here unchanged.
pub fn dispatch_window_info(
    window_handle: u32,
    class_name: String,
    title: String,
    owning_process_name: String,
) -> (r: Result<MessageToBrowser, MessageToError>)
    ensures
        r matches Ok(m) && m@ == (ResponseView::ActiveWindowInfo {
            window_handle,
            class_name: class_name@,
            title: title@,
            owning_process_name: owning_process_name@,
        }),
{
    Ok(
        MessageToBrowser::ActiveWindowInfo {
            window_handle,
            class_name,
            title,
            owning_process_name,
        },
    )
}

/// Completes a taskbar relabelling: success acknowledges, and a fault the
/// OS reported for a structurally invalid handle is wrapped as an
/// operation failure carrying that fault's description.
pub fn dispatch_relabel_result(outcome: Result<(), String>) -> (r: Result<
    MessageToBrowser,
    MessageToError,
>)
    ensures
        outcome is Ok ==> (r matches Ok(m) && m@ is Acknowledged),
        outcome matches Err(m) ==> (r matches Err(e) && e@ == (ErrorView::OperationFailed {
            message: m@,
        })),
{
    match outcome {
        Ok(_) => Ok(MessageToBrowser::Acknowledged),
        Err(message) => Err(MessageToError::OperationFailed { message }),
    }
}

/// Completes an icon command after its URL was validated: a fetched icon
/// was applied and the window's maximize restriction relaxed, so success
/// acknowledges. A fetch failure is reported with a deliberately generic
/// message — the true cause is logged locally and never echoed to the
/// browser, so no filesystem or network detail leaks to the extension.
pub fn dispatch_icon_result(outcome: Result<String, String>) -> (r: Result<
    MessageToBrowser,
    MessageToError,
>)
    ensures
        outcome is Ok ==> (r matches Ok(m) && m@ is Acknowledged),
        outcome is Err ==> (r matches Err(e) && e@ == (ErrorView::OperationFailed {
            message: "Failed to get favicon"@,
        })),
{
    match outcome {
        Ok(_icon_path) => Ok(MessageToBrowser::Acknowledged),
        Err(cause) => {
            log(cause.as_str());
            Err(
                MessageToError::OperationFailed {
                    message: String::from_str("Failed to get favicon"),
                },
            )
        },
    }
}

/// Converts an uncaught fault raised during dispatch into the failure
/// reply the boundary writes: the fault's description and, when known, the
/// source location. The conversion itself never ends the session.
pub fn panic_to_error(message: String, file: Option<String>, line: Option<u32>) -> (r:
    MessageToError)
    ensures
        r@ == (ErrorView::UnexpectedFailure {
            message: message@,
            file: match file {
                Some(f) => Some(f@),
                None => None,
            },
            line,
        }),
{
    MessageToError::UnexpectedFailure { message, file, line }
}

} // verus!
