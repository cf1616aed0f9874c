//! The wire encoding of the message vocabulary.
//!
//! A payload is UTF-8 JSON text: one object whose first member, `"type"`,
//! names the variant, followed by that variant's fields. Commands are
//! decoded; success and failure replies are encoded. Decoding resolves the
//! tag to one command variant and refuses anything else — unknown tags,
//! missing, repeated or foreign fields, and text outside the grammar are a
//! decode failure, never silently ignored.

use vstd::prelude::*;
use vstd::string::StringExecFns;
use vstd::utf8::decode_utf8;
use vstd::utf8::encode_utf8;
use vstd::utf8::valid_utf8;

use crate::json::spec_dec;
use crate::json::spec_escape;
use crate::json::spec_skip_ws;
use crate::json::spec_string;
use crate::json::spec_u32;
use crate::json::parse_string;
use crate::json::parse_u32;
use crate::json::push_dec;
use crate::json::push_escaped;
use crate::json::skip_ws;
use crate::json::QUOTE;
use crate::json::LBRACE;
use crate::json::RBRACE;
use crate::json::COLON;
use crate::json::COMMA;

use crate::messages::CommandView;
use crate::messages::ErrorView;
use crate::messages::MessageFromBrowser;
use crate::messages::MessageToBrowser;
use crate::messages::MessageToError;
use crate::messages::ResponseView;

verus! {

// ---------------------------------------------------------------------------
// Canonical emission

/// A JSON string: quote, escaped content, quote.
pub open spec fn spec_json_string(content: Seq<u8>) -> Seq<u8> {
    seq![QUOTE] + spec_escape(content) + seq![QUOTE]
}

/// An object member whose value is a string: `"key":"value"`.
pub open spec fn spec_member_str(key: Seq<char>, val: Seq<u8>) -> Seq<u8> {
    spec_json_string(encode_utf8(key)) + seq![COLON] + spec_json_string(val)
}

/// An object member whose value is a number: `"key":n`.
pub open spec fn spec_member_num(key: Seq<char>, n: u32) -> Seq<u8> {
    spec_json_string(encode_utf8(key)) + seq![COLON] + spec_dec(n as int)
}

/// An object member whose value is `null`.
pub open spec fn spec_member_null(key: Seq<char>) -> Seq<u8> {
    spec_json_string(encode_utf8(key)) + seq![COLON] + encode_utf8("null"@)
}

/// An object that holds nothing but its tag: `{"type":"tag"}`.
pub open spec fn spec_tag_obj(tag: Seq<char>) -> Seq<u8> {
    seq![LBRACE] + spec_member_str("type"@, encode_utf8(tag)) + seq![RBRACE]
}

/// The canonical payload of a command.
pub open spec fn spec_encode_command(c: CommandView) -> Seq<u8> {
    match c {
        CommandView::QueryActiveWindow => spec_tag_obj("queryActiveWindow"@),
        CommandView::RelabelTaskbarGroup { window_handle, group_id } => seq![LBRACE]
            + spec_member_str("type"@, encode_utf8("relabelTaskbarGroup"@)) + seq![COMMA]
            + spec_member_num("windowHandle"@, window_handle) + seq![COMMA] + spec_member_str(
            "groupId"@,
            encode_utf8(group_id),
        ) + seq![RBRACE],
        CommandView::SetWindowIcon { window_handle, icon_source_url } => seq![LBRACE]
            + spec_member_str("type"@, encode_utf8("setWindowIcon"@)) + seq![COMMA]
            + spec_member_num("windowHandle"@, window_handle) + seq![COMMA] + spec_member_str(
            "iconSourceUrl"@,
            encode_utf8(icon_source_url),
        ) + seq![RBRACE],
        CommandView::Stop => spec_tag_obj("stop"@),
    }
}

/// The canonical payload of a success reply.
pub open spec fn spec_encode_response(r: ResponseView) -> Seq<u8> {
    match r {
        ResponseView::ActiveWindowInfo { window_handle, class_name, title, owning_process_name } => (
        seq![LBRACE] + spec_member_str("type"@, encode_utf8("activeWindowInfo"@)) + seq![COMMA]
            + spec_member_num("windowHandle"@, window_handle) + seq![COMMA] + spec_member_str(
            "className"@,
            encode_utf8(class_name),
        ) + seq![COMMA] + spec_member_str("title"@, encode_utf8(title)) + seq![COMMA]
            + spec_member_str("processName"@, encode_utf8(owning_process_name)) + seq![RBRACE]),
        ResponseView::Acknowledged => spec_tag_obj("acknowledged"@),
    }
}

/// The canonical payload of a failure reply.
pub open spec fn spec_encode_error(e: ErrorView) -> Seq<u8> {
    match e {
        ErrorView::MalformedUrl { message } => seq![LBRACE] + spec_member_str(
            "type"@,
            encode_utf8("malformedUrl"@),
        ) + seq![COMMA] + spec_member_str("message"@, encode_utf8(message)) + seq![RBRACE],
        ErrorView::OperationFailed { message } => seq![LBRACE] + spec_member_str(
            "type"@,
            encode_utf8("operationFailed"@),
        ) + seq![COMMA] + spec_member_str("message"@, encode_utf8(message)) + seq![RBRACE],
        ErrorView::StreamError { kind, message } => seq![LBRACE] + spec_member_str(
            "type"@,
            encode_utf8("streamError"@),
        ) + seq![COMMA] + spec_member_str("kind"@, encode_utf8(kind)) + seq![COMMA]
            + spec_member_str("message"@, encode_utf8(message)) + seq![RBRACE],
        ErrorView::DecodeError { message } => seq![LBRACE] + spec_member_str(
            "type"@,
            encode_utf8("decodeError"@),
        ) + seq![COMMA] + spec_member_str("message"@, encode_utf8(message)) + seq![RBRACE],
        ErrorView::UnexpectedFailure { message, file, line } => seq![LBRACE] + spec_member_str(
            "type"@,
            encode_utf8("unexpectedFailure"@),
        ) + seq![COMMA] + spec_member_str("message"@, encode_utf8(message)) + seq![COMMA] + (
        match file {
            Some(f) => spec_member_str("file"@, encode_utf8(f)),
            None => spec_member_null("file"@),
        }) + seq![COMMA] + (match line {
            Some(n) => spec_member_num("line"@, n),
            None => spec_member_null("line"@),
        }) + seq![RBRACE],
        ErrorView::SessionStopping => spec_tag_obj("sessionStopping"@),
    }
}

/// Appends a byte slice to the output.
pub fn push_bytes(out: &mut Vec<u8>, bs: &[u8])
    ensures
        final(out)@ == old(out)@ + bs@,
{
    let mut i: usize = 0;
    proof {
        assert(old(out)@ + bs@.subrange(0, 0) =~= old(out)@);
    }
    while i < bs.len()
        invariant
            i <= bs@.len(),
            out@ == old(out)@ + bs@.subrange(0, i as int),
        decreases bs@.len() - i,
    {
        out.push(bs[i]);
        i = i + 1;
        proof {
            assert(old(out)@ + bs@.subrange(0, i as int) =~= (old(out)@ + bs@.subrange(
                0,
                i - 1,
            )).push(bs@[i - 1]));
        }
    }
    proof {
        assert(bs@.subrange(0, bs@.len() as int) =~= bs@);
    }
}

/// Appends a JSON string whose content is the UTF-8 encoding of `s`.
pub fn push_json_string(out: &mut Vec<u8>, s: &str)
    ensures
        final(out)@ == old(out)@ + spec_json_string(encode_utf8(s@)),
{
    out.push(QUOTE);
    push_escaped(out, s.as_bytes());
    out.push(QUOTE);
    proof {
        assert(old(out)@.push(QUOTE) + spec_escape(encode_utf8(s@)) =~= old(out)@ + (seq![QUOTE]
            + spec_escape(encode_utf8(s@))));
        assert((old(out)@ + (seq![QUOTE] + spec_escape(encode_utf8(s@)))).push(QUOTE) =~= old(
            out,
        )@ + spec_json_string(encode_utf8(s@)));
    }
}

/// Appends `"key":"value"` for a string-valued member.
pub fn push_member_str(out: &mut Vec<u8>, key: &str, val: &str)
    ensures
        final(out)@ == old(out)@ + spec_member_str(key@, encode_utf8(val@)),
{
    push_json_string(out, key);
    out.push(COLON);
    push_json_string(out, val);
    proof {
        assert(((old(out)@ + spec_json_string(encode_utf8(key@))).push(COLON)) + spec_json_string(
            encode_utf8(val@),
        ) =~= old(out)@ + spec_member_str(key@, encode_utf8(val@)));
    }
}

/// Appends `"key":n` for a number-valued member.
pub fn push_member_num(out: &mut Vec<u8>, key: &str, n: u32)
    ensures
        final(out)@ == old(out)@ + spec_member_num(key@, n),
{
    push_json_string(out, key);
    out.push(COLON);
    push_dec(out, n);
    proof {
        assert(((old(out)@ + spec_json_string(encode_utf8(key@))).push(COLON)) + spec_dec(n as int)
            =~= old(out)@ + spec_member_num(key@, n));
    }
}

/// Appends `"key":null`.
pub fn push_member_null(out: &mut Vec<u8>, key: &str)
    ensures
        final(out)@ == old(out)@ + spec_member_null(key@),
{
    push_json_string(out, key);
    out.push(COLON);
    push_bytes(out, "null".as_bytes());
    proof {
        assert(((old(out)@ + spec_json_string(encode_utf8(key@))).push(COLON)) + encode_utf8(
            "null"@,
        ) =~= old(out)@ + spec_member_null(key@));
    }
}

/// Appends `{"type":"tag"}`.
pub fn push_tag_obj(out: &mut Vec<u8>, tag: &str)
    ensures
        final(out)@ == old(out)@ + spec_tag_obj(tag@),
{
    out.push(LBRACE);
    push_member_str(out, "type", tag);
    out.push(RBRACE);
    proof {
        assert((old(out)@.push(LBRACE) + spec_member_str("type"@, encode_utf8(tag@))).push(RBRACE)
            =~= old(out)@ + spec_tag_obj(tag@));
    }
}

/// Encodes a command as its canonical payload.
pub fn encode_command(c: &MessageFromBrowser) -> (r: Vec<u8>)
    ensures
        r@ == spec_encode_command(c@),
{
    let mut out: Vec<u8> = Vec::new();
    match c {
        MessageFromBrowser::QueryActiveWindow => {
            push_tag_obj(&mut out, "queryActiveWindow");
        },
        MessageFromBrowser::RelabelTaskbarGroup { window_handle, group_id } => {
            out.push(LBRACE);
            push_member_str(&mut out, "type", "relabelTaskbarGroup");
            out.push(COMMA);
            push_member_num(&mut out, "windowHandle", *window_handle);
            out.push(COMMA);
            push_member_str(&mut out, "groupId", group_id.as_str());
            out.push(RBRACE);
            proof {
                assert(out@ =~= spec_encode_command(c@));
            }
        },
        MessageFromBrowser::SetWindowIcon { window_handle, icon_source_url } => {
            out.push(LBRACE);
            push_member_str(&mut out, "type", "setWindowIcon");
            out.push(COMMA);
            push_member_num(&mut out, "windowHandle", *window_handle);
            out.push(COMMA);
            push_member_str(&mut out, "iconSourceUrl", icon_source_url.as_str());
            out.push(RBRACE);
            proof {
                assert(out@ =~= spec_encode_command(c@));
            }
        },
        MessageFromBrowser::Stop => {
            push_tag_obj(&mut out, "stop");
        },
    }
    proof {
        assert(Seq::<u8>::empty() + spec_encode_command(c@) =~= spec_encode_command(c@));
    }
    out
}

/// Encodes a reply — a success or a failure — as its canonical payload.
/// For well-formed values of the vocabulary this never fails.
pub fn encode_response(r: &Result<MessageToBrowser, MessageToError>) -> (out: Vec<u8>)
    ensures
        match r {
            Ok(m) => out@ == spec_encode_response(m@),
            Err(e) => out@ == spec_encode_error(e@),
        },
{
    match r {
        Ok(m) => encode_success(m),
        Err(e) => encode_error(e),
    }
}

/// Encodes a success reply as its canonical payload.
pub fn encode_success(m: &MessageToBrowser) -> (out: Vec<u8>)
    ensures
        out@ == spec_encode_response(m@),
{
    let mut out: Vec<u8> = Vec::new();
    match m {
        MessageToBrowser::ActiveWindowInfo {
            window_handle,
            class_name,
            title,
            owning_process_name,
        } => {
            out.push(LBRACE);
            push_member_str(&mut out, "type", "activeWindowInfo");
            out.push(COMMA);
            push_member_num(&mut out, "windowHandle", *window_handle);
            out.push(COMMA);
            push_member_str(&mut out, "className", class_name.as_str());
            out.push(COMMA);
            push_member_str(&mut out, "title", title.as_str());
            out.push(COMMA);
            push_member_str(&mut out, "processName", owning_process_name.as_str());
            out.push(RBRACE);
            proof {
                assert(out@ =~= spec_encode_response(m@));
            }
        },
        MessageToBrowser::Acknowledged => {
            push_tag_obj(&mut out, "acknowledged");
        },
    }
    proof {
        assert(Seq::<u8>::empty() + spec_encode_response(m@) =~= spec_encode_response(m@));
    }
    out
}

/// Encodes a failure reply as its canonical payload.
pub fn encode_error(e: &MessageToError) -> (out: Vec<u8>)
    ensures
        out@ == spec_encode_error(e@),
{
    let mut out: Vec<u8> = Vec::new();
    match e {
        MessageToError::MalformedUrl { message } => {
            out.push(LBRACE);
            push_member_str(&mut out, "type", "malformedUrl");
            out.push(COMMA);
            push_member_str(&mut out, "message", message.as_str());
            out.push(RBRACE);
            proof {
                assert(out@ =~= spec_encode_error(e@));
            }
        },
        MessageToError::OperationFailed { message } => {
            out.push(LBRACE);
            push_member_str(&mut out, "type", "operationFailed");
            out.push(COMMA);
            push_member_str(&mut out, "message", message.as_str());
            out.push(RBRACE);
            proof {
                assert(out@ =~= spec_encode_error(e@));
            }
        },
        MessageToError::StreamError { kind, message } => {
            out.push(LBRACE);
            push_member_str(&mut out, "type", "streamError");
            out.push(COMMA);
            push_member_str(&mut out, "kind", kind.as_str());
            out.push(COMMA);
            push_member_str(&mut out, "message", message.as_str());
            out.push(RBRACE);
            proof {
                assert(out@ =~= spec_encode_error(e@));
            }
        },
        MessageToError::DecodeError { message } => {
            out.push(LBRACE);
            push_member_str(&mut out, "type", "decodeError");
            out.push(COMMA);
            push_member_str(&mut out, "message", message.as_str());
            out.push(RBRACE);
            proof {
                assert(out@ =~= spec_encode_error(e@));
            }
        },
        MessageToError::UnexpectedFailure { message, file, line } => {
            out.push(LBRACE);
            push_member_str(&mut out, "type", "unexpectedFailure");
            out.push(COMMA);
            push_member_str(&mut out, "message", message.as_str());
            out.push(COMMA);
            match file {
                Some(f) => push_member_str(&mut out, "file", f.as_str()),
                None => push_member_null(&mut out, "file"),
            }
            out.push(COMMA);
            match line {
                Some(n) => push_member_num(&mut out, "line", *n),
                None => push_member_null(&mut out, "line"),
            }
            out.push(RBRACE);
            proof {
                assert(out@ =~= spec_encode_error(e@));
            }
        },
        MessageToError::SessionStopping => {
            push_tag_obj(&mut out, "sessionStopping");
        },
    }
    proof {
        assert(Seq::<u8>::empty() + spec_encode_error(e@) =~= spec_encode_error(e@));
    }
    out
}

// ---------------------------------------------------------------------------
// Decoding

/// After any whitespace, the single byte `b`; the position just past it.
pub open spec fn spec_parse_exact(s: Seq<u8>, i: int, b: u8) -> Option<int> {
    let j = spec_skip_ws(s, i);
    if 0 <= j < s.len() && s[j] == b {
        Some(j + 1)
    } else {
        None
    }
}

/// After any whitespace, a JSON string.
pub open spec fn spec_parse_wstring(s: Seq<u8>, i: int) -> Option<(Seq<u8>, int)> {
    spec_string(s, spec_skip_ws(s, i))
}

/// A member key equal to `key` (compared after unescaping), then a colon.
pub open spec fn spec_member_key(s: Seq<u8>, i: int, key: Seq<u8>) -> Option<int> {
    match spec_parse_wstring(s, i) {
        Some(p) => if p.0 == key {
            spec_parse_exact(s, p.1, COLON)
        } else {
            None
        },
        None => None,
    }
}

/// A member `"key":n` with an unsigned 32-bit value.
pub open spec fn spec_parse_member_u32(s: Seq<u8>, i: int, key: Seq<u8>) -> Option<(u32, int)> {
    match spec_member_key(s, i, key) {
        Some(j) => spec_u32(s, spec_skip_ws(s, j)),
        None => None,
    }
}

/// A member `"key":"value"`; the value's unescaped bytes.
pub open spec fn spec_parse_member_str(s: Seq<u8>, i: int, key: Seq<u8>) -> Option<
    (Seq<u8>, int),
> {
    match spec_member_key(s, i, key) {
        Some(j) => spec_parse_wstring(s, j),
        None => None,
    }
}

/// The end of the object and of the payload: `}` and then only whitespace.
pub open spec fn spec_end_obj(s: Seq<u8>, i: int) -> bool {
    match spec_parse_exact(s, i, RBRACE) {
        Some(j) => spec_skip_ws(s, j) == s.len(),
        None => false,
    }
}

/// The two fields of a command that carries a window handle and one string,
/// in either order: `,"windowHandle":n,"key":"v"` or the reverse.
pub open spec fn spec_parse_pair(s: Seq<u8>, i: int, skey: Seq<u8>) -> Option<(u32, Seq<u8>, int)> {
    match spec_parse_exact(s, i, COMMA) {
        Some(j) => match spec_parse_member_u32(s, j, encode_utf8("windowHandle"@)) {
            Some(p) => match spec_parse_exact(s, p.1, COMMA) {
                Some(j2) => match spec_parse_member_str(s, j2, skey) {
                    Some(q) => Some((p.0, q.0, q.1)),
                    None => None,
                },
                None => None,
            },
            None => match spec_parse_member_str(s, j, skey) {
                Some(q) => match spec_parse_exact(s, q.1, COMMA) {
                    Some(j2) => match spec_parse_member_u32(
                        s,
                        j2,
                        encode_utf8("windowHandle"@),
                    ) {
                        Some(p) => Some((p.0, q.0, p.1)),
                        None => None,
                    },
                    None => None,
                },
                None => None,
            },
        },
        None => None,
    }
}

/// The command a payload denotes, if any: one object, its `"type"` member
/// first, the variant's fields after it, nothing else before the end. A
/// string field must moreover be valid UTF-8 once unescaped.
pub open spec fn spec_decode_command(s: Seq<u8>) -> Option<CommandView> {
    match spec_parse_exact(s, 0, LBRACE) {
        Some(i1) => match spec_parse_member_str(s, i1, encode_utf8("type"@)) {
            Some(tp) => {
                let tag = tp.0;
                let i2 = tp.1;
                if tag == encode_utf8("queryActiveWindow"@) {
                    if spec_end_obj(s, i2) {
                        Some(CommandView::QueryActiveWindow)
                    } else {
                        None
                    }
                } else if tag == encode_utf8("stop"@) {
                    if spec_end_obj(s, i2) {
                        Some(CommandView::Stop)
                    } else {
                        None
                    }
                } else if tag == encode_utf8("relabelTaskbarGroup"@) {
                    match spec_parse_pair(s, i2, encode_utf8("groupId"@)) {
                        Some(t) => if spec_end_obj(s, t.2) && valid_utf8(t.1) {
                            Some(
                                CommandView::RelabelTaskbarGroup {
                                    window_handle: t.0,
                                    group_id: decode_utf8(t.1),
                                },
                            )
                        } else {
                            None
                        },
                        None => None,
                    }
                } else if tag == encode_utf8("setWindowIcon"@) {
                    match spec_parse_pair(s, i2, encode_utf8("iconSourceUrl"@)) {
                        Some(t) => if spec_end_obj(s, t.2) && valid_utf8(t.1) {
                            Some(
                                CommandView::SetWindowIcon {
                                    window_handle: t.0,
                                    icon_source_url: decode_utf8(t.1),
                                },
                            )
                        } else {
                            None
                        },
                        None => None,
                    }
                } else {
                    None
                }
            },
            None => None,
        },
        None => None,
    }
}

/// Executable byte-sequence comparison.
pub fn bytes_eq(a: &Vec<u8>, b: &[u8]) -> (r: bool)
    ensures
        r == (a@ == b@),
{
    if a.len() != b.len() {
        assert(a@ != b@);
        return false;
    }
    let mut i: usize = 0;
    while i < a.len()
        invariant
            i <= a@.len(),
            a@.len() == b@.len(),
            forall|k: int| 0 <= k < i ==> a@[k] == b@[k],
        decreases a@.len() - i,
    {
        if a[i] != b[i] {
            assert(a@ != b@);
            return false;
        }
        i = i + 1;
    }
    proof {
        assert(a@ =~= b@);
    }
    true
}

/// Executable mirror of [`spec_parse_exact`].
pub fn parse_exact(s: &Vec<u8>, i: usize, b: u8) -> (r: Option<usize>)
    requires
        i <= s@.len(),
    ensures
        match r {
            Some(j) => spec_parse_exact(s@, i as int, b) == Some(j as int) && i < j <= s@.len(),
            None => spec_parse_exact(s@, i as int, b) is None,
        },
{
    let j = skip_ws(s, i);
    if j < s.len() && s[j] == b {
        Some(j + 1)
    } else {
        None
    }
}

/// Executable mirror of [`spec_parse_wstring`].
pub fn parse_wstring(s: &Vec<u8>, i: usize) -> (r: Option<(Vec<u8>, usize)>)
    requires
        i <= s@.len(),
    ensures
        match r {
            Some(p) => spec_parse_wstring(s@, i as int) == Some((p.0@, p.1 as int)) && i < p.1
                <= s@.len(),
            None => spec_parse_wstring(s@, i as int) is None,
        },
{
    let j = skip_ws(s, i);
    parse_string(s, j)
}

/// Executable mirror of [`spec_member_key`].
pub fn parse_member_key(s: &Vec<u8>, i: usize, key: &[u8]) -> (r: Option<usize>)
    requires
        i <= s@.len(),
    ensures
        match r {
            Some(j) => spec_member_key(s@, i as int, key@) == Some(j as int) && i < j <= s@.len(),
            None => spec_member_key(s@, i as int, key@) is None,
        },
{
    match parse_wstring(s, i) {
        Some(p) => {
            if bytes_eq(&p.0, key) {
                parse_exact(s, p.1, COLON)
            } else {
                None
            }
        },
        None => None,
    }
}

/// Executable mirror of [`spec_parse_member_u32`].
pub fn parse_member_u32(s: &Vec<u8>, i: usize, key: &[u8]) -> (r: Option<(u32, usize)>)
    requires
        i <= s@.len(),
    ensures
        match r {
            Some(p) => spec_parse_member_u32(s@, i as int, key@) == Some((p.0, p.1 as int)) && i
                < p.1 <= s@.len(),
            None => spec_parse_member_u32(s@, i as int, key@) is None,
        },
{
    match parse_member_key(s, i, key) {
        Some(j) => {
            let k = skip_ws(s, j);
            parse_u32(s, k)
        },
        None => None,
    }
}

/// Executable mirror of [`spec_parse_member_str`].
pub fn parse_member_str(s: &Vec<u8>, i: usize, key: &[u8]) -> (r: Option<(Vec<u8>, usize)>)
    requires
        i <= s@.len(),
    ensures
        match r {
            Some(p) => spec_parse_member_str(s@, i as int, key@) == Some((p.0@, p.1 as int)) && i
                < p.1 <= s@.len(),
            None => spec_parse_member_str(s@, i as int, key@) is None,
        },
{
    match parse_member_key(s, i, key) {
        Some(j) => parse_wstring(s, j),
        None => None,
    }
}

/// Executable mirror of [`spec_end_obj`].
pub fn parse_end_obj(s: &Vec<u8>, i: usize) -> (r: bool)
    requires
        i <= s@.len(),
    ensures
        r == spec_end_obj(s@, i as int),
{
    match parse_exact(s, i, RBRACE) {
        Some(j) => {
            let k = skip_ws(s, j);
            k == s.len()
        },
        None => false,
    }
}

/// Executable mirror of [`spec_parse_pair`].
pub fn parse_pair(s: &Vec<u8>, i: usize, skey: &[u8]) -> (r: Option<(u32, Vec<u8>, usize)>)
    requires
        i <= s@.len(),
    ensures
        match r {
            Some(t) => spec_parse_pair(s@, i as int, skey@) == Some((t.0, t.1@, t.2 as int)) && t.2
                <= s@.len(),
            None => spec_parse_pair(s@, i as int, skey@) is None,
        },
{
    let handle_key: &[u8] = "windowHandle".as_bytes();
    match parse_exact(s, i, COMMA) {
        Some(j) => {
            match parse_member_u32(s, j, handle_key) {
                Some(p) => {
                    match parse_exact(s, p.1, COMMA) {
                        Some(j2) => {
                            match parse_member_str(s, j2, skey) {
                                Some(q) => Some((p.0, q.0, q.1)),
                                None => None,
                            }
                        },
                        None => None,
                    }
                },
                None => {
                    match parse_member_str(s, j, skey) {
                        Some(q) => {
                            match parse_exact(s, q.1, COMMA) {
                                Some(j2) => {
                                    match parse_member_u32(s, j2, handle_key) {
                                        Some(p) => Some((p.0, q.0, p.1)),
                                        None => None,
                                    }
                                },
                                None => None,
                            }
                        },
                        None => None,
                    }
                },
            }
        },
        None => None,
    }
}

/// Relies on `String::from_utf8`: it returns the string whose UTF-8
/// encoding is the given byte vector, and refuses exactly the byte vectors
/// that are not UTF-8.
#[verifier::external_body]
fn string_from_utf8(bytes: Vec<u8>) -> (r: Option<String>)
    ensures
        r is Some <==> valid_utf8(bytes@),
        r matches Some(s) ==> s@ == decode_utf8(bytes@),
{
    match String::from_utf8(bytes) {
        Ok(s) => Some(s),
        Err(_) => None,
    }
}

/// Decodes one payload to the command it denotes, or reports a decode
/// failure. Succeeds exactly on the payloads of the grammar, and then
/// returns exactly the command they denote.
pub fn decode_command(payload: &Vec<u8>) -> (r: Result<MessageFromBrowser, MessageToError>)
    ensures
        match r {
            Ok(c) => spec_decode_command(payload@) == Some(c@),
            Err(e) => spec_decode_command(payload@) is None && e@ == (ErrorView::DecodeError {
                message: "unsupported or malformed command payload"@,
            }),
        },
{
    match decode_command_inner(payload) {
        Some(c) => Ok(c),
        None => Err(
            MessageToError::DecodeError {
                message: String::from_str("unsupported or malformed command payload"),
            },
        ),
    }
}

/// The decoding itself; the caller turns a miss into the decode error.
fn decode_command_inner(payload: &Vec<u8>) -> (r: Option<MessageFromBrowser>)
    ensures
        match r {
            Some(c) => spec_decode_command(payload@) == Some(c@),
            None => spec_decode_command(payload@) is None,
        },
{
    let s = payload;
    let i1 = match parse_exact(s, 0, LBRACE) {
        Some(j) => j,
        None => {
            return None;
        },
    };
    let tp = match parse_member_str(s, i1, "type".as_bytes()) {
        Some(p) => p,
        None => {
            return None;
        },
    };
    let tag = tp.0;
    let i2 = tp.1;
    if bytes_eq(&tag, "queryActiveWindow".as_bytes()) {
        if parse_end_obj(s, i2) {
            Some(MessageFromBrowser::QueryActiveWindow)
        } else {
            None
        }
    } else if bytes_eq(&tag, "stop".as_bytes()) {
        if parse_end_obj(s, i2) {
            Some(MessageFromBrowser::Stop)
        } else {
            None
        }
    } else if bytes_eq(&tag, "relabelTaskbarGroup".as_bytes()) {
        match parse_pair(s, i2, "groupId".as_bytes()) {
            Some(t) => {
                if parse_end_obj(s, t.2) {
                    match string_from_utf8(t.1) {
                        Some(group_id) => Some(
                            MessageFromBrowser::RelabelTaskbarGroup {
                                window_handle: t.0,
                                group_id,
                            },
                        ),
                        None => None,
                    }
                } else {
                    None
                }
            },
            None => None,
        }
    } else if bytes_eq(&tag, "setWindowIcon".as_bytes()) {
        match parse_pair(s, i2, "iconSourceUrl".as_bytes()) {
            Some(t) => {
                if parse_end_obj(s, t.2) {
                    match string_from_utf8(t.1) {
                        Some(icon_source_url) => Some(
                            MessageFromBrowser::SetWindowIcon {
                                window_handle: t.0,
                                icon_source_url,
                            },
                        ),
                        None => None,
                    }
                } else {
                    None
                }
            },
            None => None,
        }
    } else {
        None
    }
}

} // verus!
