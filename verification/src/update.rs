//! Self-update: which release archive fits this machine, and which
//! release is the latest.
use vstd::prelude::*;

use crate::text::{cat, cat3, cat4, str_eq};

verus! {

/// The target triple of a release built for this OS and architecture, or
/// why there is none.
pub open spec fn platform_spec(os: Seq<char>, arch: Seq<char>) -> Result<Seq<char>, Seq<char>> {
    let triple_os = if os == "linux"@ {
        Some("unknown-linux-gnu"@)
    } else if os == "macos"@ {
        Some("apple-darwin"@)
    } else {
        None
    };
    match triple_os {
        None => Err("Unsupported OS for self-update: "@ + os),
        Some(t) => if arch == "x86_64"@ || arch == "aarch64"@ {
            Ok(arch + "-"@ + t)
        } else {
            Err("Unsupported architecture for self-update: "@ + arch)
        },
    }
}

/// The target triple of the release for `os` and `arch` (as
/// `std::env::consts` names them).
pub fn detect_platform(os: &str, arch: &str) -> (r: Result<String, String>)
    ensures
        (match r {
            Ok(s) => Ok(s@),
            Err(e) => Err(e@),
        }) == platform_spec(os@, arch@),
{
    let triple_os = if str_eq(os, "linux") {
        "unknown-linux-gnu"
    } else if str_eq(os, "macos") {
        "apple-darwin"
    } else {
        return Err(cat("Unsupported OS for self-update: ", os));
    };
    if str_eq(arch, "x86_64") || str_eq(arch, "aarch64") {
        Ok(cat3(arch, "-", triple_os))
    } else {
        Err(cat("Unsupported architecture for self-update: ", arch))
    }
}

/// The GitHub API address of the latest release.
pub fn latest_release_api() -> (r: &'static str)
    ensures
        r@ == "https://api.github.com/repos/cmdworks/polyws/releases/latest"@,
{
    "https://api.github.com/repos/cmdworks/polyws/releases/latest"
}

/// The address of the release archive of `version` for `platform`.
pub fn download_url(version: &str, platform: &str) -> (r: String)
    ensures
        r@ == "https://github.com/cmdworks/polyws/releases/download/"@ + version@ + "/polyws-"@ + platform@
            + ".tar.gz"@,
{
    let mut r = cat4("https://github.com/cmdworks/polyws/releases/download/", version, "/polyws-", platform);
    r.append(".tar.gz");
    r
}

/// Whether the latest release tag names the running version: the tag is
/// `v` followed by the package version.
pub fn is_current(tag: &str, package_version: &str) -> (r: bool)
    ensures
        r == (tag@ == "v"@ + package_version@),
{
    let current = cat("v", package_version);
    str_eq(tag, current.as_str())
}

/// What `serde_json` reads from the bytes of a release description: `None`
/// when they are not JSON, else the `tag_name` field when it is a string.
pub uninterp spec fn json_tag_name(bytes: Seq<u8>) -> Option<Option<Seq<char>>>;

/// Parses the bytes with `serde_json::from_slice` into a
/// `serde_json::Value`, then reads `value["tag_name"].as_str()`. The
/// contract names the outcome [`json_tag_name`] of the bytes: an error
/// exactly when they are not JSON, else the string field if there is one.
#[verifier::external_body]
fn release_tag(bytes: &[u8]) -> (r: Result<Option<String>, ()>)
    ensures
        (match r {
            Err(()) => None,
            Ok(Some(s)) => Some(Some(s@)),
            Ok(None) => Some(None),
        }) == json_tag_name(bytes@),
{
    match serde_json::from_slice::<serde_json::Value>(bytes) {
        Ok(v) => match v["tag_name"].as_str() {
            Some(s) => Ok(Some(s.to_string())),
            None => Ok(None),
        },
        Err(_) => Err(()),
    }
}

/// The version a parsed release description names, or why there is none.
pub open spec fn version_spec(parsed: Option<Option<Seq<char>>>) -> Result<Seq<char>, Seq<char>> {
    match parsed {
        None => Err("Invalid JSON from GitHub API"@),
        Some(None) => Err("No tag_name field in GitHub API response"@),
        Some(Some(t)) => Ok(t),
    }
}

/// The latest version from the parsed release description.
pub fn version_from_tag(parsed: Result<Option<String>, ()>) -> (r: Result<String, String>)
    ensures
        (match r {
            Ok(s) => Ok(s@),
            Err(e) => Err(e@),
        }) == version_spec(match parsed {
            Err(()) => None,
            Ok(Some(s)) => Some(Some(s@)),
            Ok(None) => Some(None),
        }),
{
    match parsed {
        Err(()) => Err(String::from_str("Invalid JSON from GitHub API")),
        Ok(None) => Err(String::from_str("No tag_name field in GitHub API response")),
        Ok(Some(t)) => Ok(t),
    }
}

/// The latest released version, from the answer of the GitHub API: the
/// request must have succeeded and its body name a tag.
pub fn resolve_latest_version(success: bool, body: &Vec<u8>) -> (r: Result<String, String>)
    ensures
        !success ==> (r matches Err(e) && e@ == "Failed to fetch latest release info from GitHub"@),
        success ==> (match r {
            Ok(s) => Ok(s@),
            Err(e) => Err(e@),
        }) == version_spec(json_tag_name(body@)),
{
    if !success {
        return Err(String::from_str("Failed to fetch latest release info from GitHub"));
    }
    let parsed = release_tag(body.as_slice());
    version_from_tag(parsed)
}

} // verus!
