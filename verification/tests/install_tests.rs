//! The install decisions: the manifest document per browser and the
//! registry subkey that points at it.

use browser_helper::install::{manifest_file_name, manifest_json_bytes, registry_subkey_path,
    Browser, NativeManifestJson};
use browser_helper::log;

fn sample_manifest() -> NativeManifestJson {
    NativeManifestJson {
        name: "f_browser_helper_app".to_string(),
        description: "Browser helper app".to_string(),
        path: "C:\\tools\\helper.exe".to_string(),
        type_: "stdio".to_string(),
        allowed_origins: vec!["chrome-extension://abc/".to_string()],
        allowed_extensions: vec!["helper@example.com".to_string()],
    }
}

#[test]
fn chrome_manifest_names_origins_only() {
    let bytes = manifest_json_bytes(Browser::Chrome, &sample_manifest());
    assert_eq!(
        bytes,
        b"{\"name\":\"f_browser_helper_app\",\"description\":\"Browser helper app\",\"path\":\"C:\\\\tools\\\\helper.exe\",\"type\":\"stdio\",\"allowed_origins\":[\"chrome-extension://abc/\"]}".to_vec()
    );
}

#[test]
fn firefox_manifest_names_extensions_only() {
    let bytes = manifest_json_bytes(Browser::Firefox, &sample_manifest());
    assert_eq!(
        bytes,
        b"{\"name\":\"f_browser_helper_app\",\"description\":\"Browser helper app\",\"path\":\"C:\\\\tools\\\\helper.exe\",\"type\":\"stdio\",\"allowed_extensions\":[\"helper@example.com\"]}".to_vec()
    );
}

#[test]
fn empty_lists_are_left_out() {
    let mut m = sample_manifest();
    m.allowed_origins = Vec::new();
    m.allowed_extensions = Vec::new();
    let bytes = manifest_json_bytes(Browser::Edge, &m);
    assert_eq!(
        bytes,
        b"{\"name\":\"f_browser_helper_app\",\"description\":\"Browser helper app\",\"path\":\"C:\\\\tools\\\\helper.exe\",\"type\":\"stdio\"}".to_vec()
    );
}

#[test]
fn several_origins_are_comma_separated() {
    let mut m = sample_manifest();
    m.allowed_origins = vec!["chrome://*".to_string(), "chrome-extension://xyz/".to_string()];
    let bytes = manifest_json_bytes(Browser::Edge, &m);
    assert_eq!(
        bytes,
        b"{\"name\":\"f_browser_helper_app\",\"description\":\"Browser helper app\",\"path\":\"C:\\\\tools\\\\helper.exe\",\"type\":\"stdio\",\"allowed_origins\":[\"chrome://*\",\"chrome-extension://xyz/\"]}".to_vec()
    );
}

#[test]
fn manifest_file_names_follow_the_browser() {
    assert_eq!(manifest_file_name(Browser::Chrome), "native_manifest_Chrome.json");
    assert_eq!(manifest_file_name(Browser::Firefox), "native_manifest_Firefox.json");
    assert_eq!(manifest_file_name(Browser::Edge), "native_manifest_Edge.json");
}

#[test]
fn registry_subkeys_follow_the_browser() {
    assert_eq!(
        registry_subkey_path(Browser::Chrome, "f_browser_helper_app"),
        "Software\\Google\\Chrome\\NativeMessagingHosts\\f_browser_helper_app"
    );
    assert_eq!(
        registry_subkey_path(Browser::Firefox, "f_browser_helper_app"),
        "Software\\Mozilla\\NativeMessagingHosts\\f_browser_helper_app"
    );
    assert_eq!(
        registry_subkey_path(Browser::Edge, "f_browser_helper_app"),
        "Software\\Microsoft\\Edge\\NativeMessagingHosts\\f_browser_helper_app"
    );
}

#[test]
fn diagnostic_log_is_fire_and_forget() {
    log("nothing to see");
}
