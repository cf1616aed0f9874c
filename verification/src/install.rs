//! What installing the host decides: the native-messaging manifest
//! document written next to the executable, and the registry subkey that
//! points the browser at it. Writing the file and the registry value is
//! OS work that stays outside this crate; the functions here compute
//! exactly what is written and where.

use vstd::prelude::*;
use vstd::string::StringExecFns;
use vstd::utf8::encode_utf8;

use crate::codec::push_json_string;
use crate::codec::push_member_str;
use crate::codec::spec_json_string;
use crate::codec::spec_member_str;
use crate::json::COLON;
use crate::json::COMMA;
use crate::json::LBRACE;
use crate::json::RBRACE;

verus! {

pub const LBRACKET: u8 = 91;

pub const RBRACKET: u8 = 93;

/// The browsers the host can register itself with.
#[derive(Debug, Clone, Copy, PartialEq, Eq, Structural)]
pub enum Browser {
    Chrome,
    Firefox,
    Edge,
}

/// The fields of the native-messaging manifest. The path names this
/// executable; the origin and extension lists say who may start it.
#[derive(Debug, Clone)]
pub struct NativeManifestJson {
    pub name: String,
    pub description: String,
    pub path: String,
    pub type_: String,
    pub allowed_origins: Vec<String>,
    pub allowed_extensions: Vec<String>,
}

/// The comma-separated JSON strings of a list's items.
pub open spec fn spec_string_items(items: Seq<Seq<char>>) -> Seq<u8>
    decreases items.len(),
{
    if items.len() == 0 {
        Seq::empty()
    } else if items.len() == 1 {
        spec_json_string(encode_utf8(items[0]))
    } else {
        spec_string_items(items.drop_last()) + seq![COMMA] + spec_json_string(
            encode_utf8(items.last()),
        )
    }
}

/// A JSON array of strings.
pub open spec fn spec_string_array(items: Seq<Seq<char>>) -> Seq<u8> {
    seq![LBRACKET] + spec_string_items(items) + seq![RBRACKET]
}

/// The manifest document for the given field values. The two lists appear
/// only when they are nonempty.
pub open spec fn spec_manifest_json(
    name: Seq<char>,
    description: Seq<char>,
    path: Seq<char>,
    type_: Seq<char>,
    origins: Seq<Seq<char>>,
    extensions: Seq<Seq<char>>,
) -> Seq<u8> {
    seq![LBRACE] + spec_member_str("name"@, encode_utf8(name)) + seq![COMMA] + spec_member_str(
        "description"@,
        encode_utf8(description),
    ) + seq![COMMA] + spec_member_str("path"@, encode_utf8(path)) + seq![COMMA] + spec_member_str(
        "type"@,
        encode_utf8(type_),
    ) + (if origins.len() > 0 {
        seq![COMMA] + spec_json_string(encode_utf8("allowed_origins"@)) + seq![COLON]
            + spec_string_array(origins)
    } else {
        Seq::<u8>::empty()
    }) + (if extensions.len() > 0 {
        seq![COMMA] + spec_json_string(encode_utf8("allowed_extensions"@)) + seq![COLON]
            + spec_string_array(extensions)
    } else {
        Seq::<u8>::empty()
    }) + seq![RBRACE]
}

/// Which lists a browser's manifest carries: Firefox locates the host by
/// allowed extensions, Chrome and Edge by allowed origins.
pub open spec fn spec_manifest_for_browser(
    b: Browser,
    name: Seq<char>,
    description: Seq<char>,
    path: Seq<char>,
    type_: Seq<char>,
    origins: Seq<Seq<char>>,
    extensions: Seq<Seq<char>>,
) -> Seq<u8> {
    if b == Browser::Firefox {
        spec_manifest_json(name, description, path, type_, Seq::empty(), extensions)
    } else {
        spec_manifest_json(name, description, path, type_, origins, Seq::empty())
    }
}

/// Appends a JSON array of the given strings.
pub fn push_string_array(out: &mut Vec<u8>, items: &Vec<String>)
    ensures
        final(out)@ == old(out)@ + spec_string_array(items.deep_view()),
{
    out.push(LBRACKET);
    let ghost iv: Seq<Seq<char>> = items.deep_view();
    let mut i: usize = 0;
    proof {
        assert(iv.take(0) =~= Seq::<Seq<char>>::empty());
        assert(old(out)@.push(LBRACKET) =~= old(out)@ + seq![LBRACKET] + spec_string_items(
            iv.take(0),
        ));
    }
    while i < items.len()
        invariant
            i <= items@.len(),
            iv == items.deep_view(),
            iv.len() == items@.len(),
            out@ == old(out)@ + seq![LBRACKET] + spec_string_items(iv.take(i as int)),
        decreases items@.len() - i,
    {
        if i > 0 {
            out.push(COMMA);
        }
        push_json_string(out, items[i].as_str());
        i = i + 1;
        proof {
            assert(iv[i - 1] == items@[i - 1]@);
            if i == 1 {
                assert(iv.take(1).len() == 1);
                assert(spec_string_items(iv.take(1)) == spec_json_string(
                    encode_utf8(iv.take(1)[0]),
                ));
                assert(out@ =~= old(out)@ + seq![LBRACKET] + spec_string_items(iv.take(1)));
            } else {
                assert(iv.take(i as int).drop_last() =~= iv.take(i - 1));
                assert(iv.take(i as int).last() == iv[i - 1]);
                assert(out@ =~= old(out)@ + seq![LBRACKET] + spec_string_items(iv.take(i as int)));
            }
        }
    }
    out.push(RBRACKET);
    proof {
        assert(iv.take(iv.len() as int) =~= iv);
        assert(out@ =~= old(out)@ + spec_string_array(iv));
    }
}

/// The manifest document to write for one browser: the shared fields, and
/// the origin or extension list that browser goes by.
pub fn manifest_json_bytes(browser: Browser, m: &NativeManifestJson) -> (r: Vec<u8>)
    ensures
        r@ == spec_manifest_for_browser(
            browser,
            m.name@,
            m.description@,
            m.path@,
            m.type_@,
            m.allowed_origins.deep_view(),
            m.allowed_extensions.deep_view(),
        ),
{
    let mut out: Vec<u8> = Vec::new();
    out.push(LBRACE);
    push_member_str(&mut out, "name", m.name.as_str());
    out.push(COMMA);
    push_member_str(&mut out, "description", m.description.as_str());
    out.push(COMMA);
    push_member_str(&mut out, "path", m.path.as_str());
    out.push(COMMA);
    push_member_str(&mut out, "type", m.type_.as_str());
    match browser {
        Browser::Firefox => {
            if m.allowed_extensions.len() > 0 {
                out.push(COMMA);
                push_json_string(&mut out, "allowed_extensions");
                out.push(COLON);
                push_string_array(&mut out, &m.allowed_extensions);
            }
        },
        Browser::Chrome | Browser::Edge => {
            if m.allowed_origins.len() > 0 {
                out.push(COMMA);
                push_json_string(&mut out, "allowed_origins");
                out.push(COLON);
                push_string_array(&mut out, &m.allowed_origins);
            }
        },
    }
    out.push(RBRACE);
    proof {
        assert(out@ =~= spec_manifest_for_browser(
            browser,
            m.name@,
            m.description@,
            m.path@,
            m.type_@,
            m.allowed_origins.deep_view(),
            m.allowed_extensions.deep_view(),
        ));
    }
    out
}

/// The file name the manifest is written under, beside the executable.
pub fn manifest_file_name(browser: Browser) -> (r: String)
    ensures
        browser == Browser::Chrome ==> r@ == "native_manifest_Chrome.json"@,
        browser == Browser::Firefox ==> r@ == "native_manifest_Firefox.json"@,
        browser == Browser::Edge ==> r@ == "native_manifest_Edge.json"@,
{
    match browser {
        Browser::Chrome => String::from_str("native_manifest_Chrome.json"),
        Browser::Firefox => String::from_str("native_manifest_Firefox.json"),
        Browser::Edge => String::from_str("native_manifest_Edge.json"),
    }
}

/// The per-browser base of the registry subkey that locates the manifest.
pub open spec fn spec_registry_base(b: Browser) -> Seq<char> {
    match b {
        Browser::Chrome => "Software\\Google\\Chrome\\NativeMessagingHosts\\"@,
        Browser::Firefox => "Software\\Mozilla\\NativeMessagingHosts\\"@,
        Browser::Edge => "Software\\Microsoft\\Edge\\NativeMessagingHosts\\"@,
    }
}

/// The registry subkey, under the current user's hive, whose default value
/// is set to the manifest's path: the browser's native-messaging-hosts key
/// with the host's name appended.
pub fn registry_subkey_path(browser: Browser, name: &str) -> (r: String)
    ensures
        r@ == spec_registry_base(browser) + name@,
{
    let mut s: String = match browser {
        Browser::Chrome => String::from_str("Software\\Google\\Chrome\\NativeMessagingHosts\\"),
        Browser::Firefox => String::from_str("Software\\Mozilla\\NativeMessagingHosts\\"),
        Browser::Edge => String::from_str("Software\\Microsoft\\Edge\\NativeMessagingHosts\\"),
    };
    s.append(name);
    s
}

} // verus!
