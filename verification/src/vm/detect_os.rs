//! Recognising the operating system of a remote host from the text that
//! `uname -s` and `/etc/os-release` print.
use vstd::prelude::*;

use crate::text::{chars_of, first_line, first_line_chars, seq_contains, string_of, str_contains, trim, trim_chars};

verus! {

/// Operating systems that polyws knows how to provision.
#[derive(Debug, Clone, PartialEq, Eq)]
pub enum OsType {
    Ubuntu,
    Debian,
    Arch,
    MacOs,
    Unknown(String),
}

/// The mathematical model of an [`OsType`].
pub enum OsTypeView {
    Ubuntu,
    Debian,
    Arch,
    MacOs,
    Unknown(Seq<char>),
}

impl View for OsType {
    type V = OsTypeView;

    open spec fn view(&self) -> OsTypeView {
        match self {
            OsType::Ubuntu => OsTypeView::Ubuntu,
            OsType::Debian => OsTypeView::Debian,
            OsType::Arch => OsTypeView::Arch,
            OsType::MacOs => OsTypeView::MacOs,
            OsType::Unknown(s) => OsTypeView::Unknown(s@),
        }
    }
}

/// What `str::to_lowercase` returns for a string: Unicode lowercase
/// mapping, character by character, with the context rules that the
/// standard library applies.
pub uninterp spec fn lowercase(s: Seq<char>) -> Seq<char>;

/// std's `str::to_lowercase`. Its result is taken to be the named function
/// [`lowercase`] of the argument; nothing more is stated of it here.
#[verifier::external_body]
fn str_to_lowercase(s: &str) -> (r: String)
    ensures
        r@ == lowercase(s@),
{
    s.to_lowercase()
}

/// The text that an unrecognised system is reported with: the first line of
/// the output (or `"unknown"` when there is none), without surrounding white
/// space.
pub open spec fn unknown_label(output: Seq<char>) -> Seq<char> {
    match first_line(output) {
        Some(l) => trim(l),
        None => trim("unknown"@),
    }
}

/// The system that `output` describes, given its lowercase form `lower`.
/// The first family whose name occurs in `lower` wins, in the order
/// Ubuntu, Debian, Arch, macOS (`darwin` or `macos`).
pub open spec fn detect_spec(output: Seq<char>, lower: Seq<char>) -> OsTypeView {
    if seq_contains(lower, "ubuntu"@) {
        OsTypeView::Ubuntu
    } else if seq_contains(lower, "debian"@) {
        OsTypeView::Debian
    } else if seq_contains(lower, "arch"@) {
        OsTypeView::Arch
    } else if seq_contains(lower, "darwin"@) || seq_contains(lower, "macos"@) {
        OsTypeView::MacOs
    } else {
        OsTypeView::Unknown(unknown_label(output))
    }
}

/// Classifies `output` from its lowercase form `lower` (what
/// `str::to_lowercase` gave for `output`).
pub fn detect_from_lowercase(output: &str, lower: &str) -> (r: OsType)
    ensures
        r@ == detect_spec(output@, lower@),
{
    if str_contains(lower, "ubuntu") {
        OsType::Ubuntu
    } else if str_contains(lower, "debian") {
        OsType::Debian
    } else if str_contains(lower, "arch") {
        OsType::Arch
    } else if str_contains(lower, "darwin") || str_contains(lower, "macos") {
        OsType::MacOs
    } else {
        let out = chars_of(output);
        let label = match first_line_chars(&out) {
            Some(l) => trim_chars(&l),
            None => {
                let u = chars_of("unknown");
                trim_chars(&u)
            },
        };
        OsType::Unknown(string_of(&label))
    }
}

/// Detect the OS type from the combined output of `uname -s` and
/// `/etc/os-release` (or similar) obtained via SSH.
pub fn detect(output: &str) -> (r: OsType)
    ensures
        r@ == detect_spec(output@, lowercase(output@)),
{
    let lower = str_to_lowercase(output);
    detect_from_lowercase(output, lower.as_str())
}

/// The human-readable name of an [`OsType`], as it is shown to the user.
pub open spec fn os_display(os: OsTypeView) -> Seq<char> {
    match os {
        OsTypeView::Ubuntu => "Ubuntu"@,
        OsTypeView::Debian => "Debian"@,
        OsTypeView::Arch => "Arch Linux"@,
        OsTypeView::MacOs => "macOS"@,
        OsTypeView::Unknown(s) => "Unknown ("@ + s + ")"@,
    }
}

impl OsType {
    /// The name shown to users, e.g. `Arch Linux` or `Unknown (Plan9)`.
    pub fn display_name(&self) -> (s: String)
        ensures
            s@ == os_display(self@),
    {
        match self {
            OsType::Ubuntu => String::from_str("Ubuntu"),
            OsType::Debian => String::from_str("Debian"),
            OsType::Arch => String::from_str("Arch Linux"),
            OsType::MacOs => String::from_str("macOS"),
            OsType::Unknown(s) => {
                let mut r = String::from_str("Unknown (");
                r.append(s.as_str());
                r.append(")");
                r
            },
        }
    }
}

} // verus!
