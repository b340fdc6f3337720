//! Host-dependent choices: which file manager opens paths, and where the
//! bridge tool lives. The application shell gathers the facts (operating
//! system, environment, which candidate paths exist); the choices themselves
//! are made here.

use vstd::prelude::*;

verus! {

/// The kind of host the program runs on, as far as these choices care.
#[derive(Clone, Copy, Debug, PartialEq, Eq, Structural)]
pub enum HostKind {
    Windows,
    MacOs,
    Other,
}

/// The file-manager command for each host.
pub open spec fn spec_filer(host: HostKind) -> Seq<char> {
    match host {
        HostKind::Windows => "explorer"@,
        HostKind::MacOs => "open"@,
        HostKind::Other => "xdg-open"@,
    }
}

/// The command that opens a file or directory for the user: the system file
/// manager on Windows and macOS, the desktop opener elsewhere.
pub fn get_filer(host: HostKind) -> (r: &'static str)
    ensures
        r@ == spec_filer(host),
{
    match host {
        HostKind::Windows => "explorer",
        HostKind::MacOs => "open",
        HostKind::Other => "xdg-open",
    }
}

/// Which bridge-tool path `choose_adb_path` picks from the gathered facts.
pub open spec fn spec_adb_path(
    host: HostKind,
    sdk_root: Option<String>,
    existing_user_path: Option<String>,
    opt_path_exists: bool,
) -> Seq<char> {
    if !(host is MacOs) {
        "adb"@
    } else if sdk_root is Some {
        sdk_root->Some_0@ + "/platform-tools/adb"@
    } else if existing_user_path is Some {
        existing_user_path->Some_0@
    } else if opt_path_exists {
        "/opt/android-sdk-macosx/platform-tools/adb"@
    } else {
        "adb"@
    }
}

/// Pick the bridge-tool path. On macOS, prefer the SDK root named by the
/// environment, then the per-user SDK path the shell confirmed to exist,
/// then the system-wide install; fall back to relying on the search path.
/// Everywhere else the search path is used directly.
///
/// `sdk_root` is the first SDK environment variable that is set;
/// `existing_user_path` is the per-user candidate path, only when it exists.
pub fn choose_adb_path(
    host: HostKind,
    sdk_root: Option<String>,
    existing_user_path: Option<String>,
    opt_path_exists: bool,
) -> (r: String)
    ensures
        r@ == spec_adb_path(host, sdk_root, existing_user_path, opt_path_exists),
{
    match host {
        HostKind::Windows | HostKind::Other => String::from_str("adb"),
        HostKind::MacOs => {
            if let Some(root) = sdk_root {
                let mut r = root;
                r.append("/platform-tools/adb");
                r
            } else if let Some(p) = existing_user_path {
                p
            } else if opt_path_exists {
                String::from_str("/opt/android-sdk-macosx/platform-tools/adb")
            } else {
                String::from_str("adb")
            }
        },
    }
}

} // verus!
