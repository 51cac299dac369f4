//! Installing packages on the VM: which command each OS family takes, and
//! which dependency names are safe to pass to it.
use vstd::prelude::*;

use crate::report::{Exit, Level, Outcome, Report};
use crate::text::{chars_of, trim, trim_str};
use crate::vm::detect_os::{OsType, OsTypeView};
use crate::vm::ssh::{base_args_spec, target_spec, views, SshSession};

verus! {

/// Whether `char::is_alphanumeric` holds of a character: the Unicode
/// `Alphabetic` or `Numeric` property.
pub uninterp spec fn alphanumeric(c: char) -> bool;

/// std's `char::is_alphanumeric`. Its result is the named [`alphanumeric`];
/// the facts stated besides are those the Unicode properties fix for ASCII:
/// ASCII letters and digits are alphanumeric, and no other ASCII character
/// (space, punctuation, control characters) is.
#[verifier::external_body]
fn char_is_alphanumeric(c: char) -> (b: bool)
    ensures
        b == alphanumeric(c),
        ('a' <= c <= 'z' || 'A' <= c <= 'Z' || '0' <= c <= '9') ==> b,
        ((c as u32) < 128 && !('a' <= c <= 'z' || 'A' <= c <= 'Z' || '0' <= c <= '9')) ==> !b,
{
    c.is_alphanumeric()
}

/// A character a dependency name may hold.
pub open spec fn safe_char(c: char) -> bool {
    alphanumeric(c) || c == '-' || c == '_' || c == '.'
}

/// A dependency name holds only safe characters.
pub open spec fn safe_name(s: Seq<char>) -> bool {
    forall|i: int| 0 <= i < s.len() ==> safe_char(#[trigger] s[i])
}

/// An ASCII character that a dependency name may not hold: neither a
/// letter, a digit, `-`, `_` nor `.` (white space and shell punctuation
/// among them).
pub open spec fn ascii_unsafe(c: char) -> bool {
    &&& (c as u32) < 128
    &&& !('a' <= c <= 'z' || 'A' <= c <= 'Z' || '0' <= c <= '9')
    &&& c != '-' && c != '_' && c != '.'
}

/// Some character of `s` is an [`ascii_unsafe`] one.
pub open spec fn has_ascii_unsafe(s: Seq<char>) -> bool {
    exists|i: int| 0 <= i < s.len() && ascii_unsafe(#[trigger] s[i])
}

/// Whether `dep` is a plain package name (letters, digits, `-`, `_`, `.`).
pub fn is_safe_name(dep: &str) -> (b: bool)
    ensures
        b == safe_name(dep@),
        has_ascii_unsafe(dep@) ==> !b,
{
    let v = chars_of(dep);
    let mut i: usize = 0;
    while i < v.len()
        invariant
            i <= v.len(),
            v@ == dep@,
            forall|k: int| 0 <= k < i ==> safe_char(#[trigger] v@[k]),
            forall|k: int| 0 <= k < i ==> !ascii_unsafe(#[trigger] v@[k]),
        decreases v.len() - i,
    {
        let c = v[i];
        if !(char_is_alphanumeric(c) || c == '-' || c == '_' || c == '.') {
            assert(!safe_char(v@[i as int]));
            return false;
        }
        i += 1;
    }
    assert(!has_ascii_unsafe(dep@));
    true
}

/// The remote command that checks that `dep` is on the `$PATH`.
pub open spec fn check_command(dep: Seq<char>) -> Seq<char> {
    "command -v "@ + dep + " >/dev/null 2>&1"@
}

/// The `ssh` arguments that check whether `dep` is on the remote `$PATH`;
/// the dependency is present when that call exits successfully.
pub fn check_dependency(ssh: &SshSession, dep: &str) -> (r: Vec<String>)
    ensures
        views(r@) == base_args_spec() + seq![target_spec(ssh.user@, ssh.host@), check_command(dep@)],
{
    let mut cmd = String::from_str("command -v ");
    cmd.append(dep);
    cmd.append(" >/dev/null 2>&1");
    ssh.exec_args(cmd.as_str())
}

/// Whether a dependency check found the dependency: the call ran and exited
/// successfully.
pub fn dependency_present(outcome: &Outcome) -> (b: bool)
    ensures
        b == (outcome matches Outcome::Exited(e) && e.success),
{
    match outcome {
        Outcome::Exited(e) => e.success,
        Outcome::NotRun(_) => false,
    }
}

/// The package-index update command of each OS family; none for an unknown
/// system.
pub open spec fn update_command(os: OsTypeView) -> Option<Seq<char>> {
    match os {
        OsTypeView::Ubuntu | OsTypeView::Debian => Some("sudo apt-get update -y -q"@),
        OsTypeView::Arch => Some("sudo pacman -Sy --noconfirm"@),
        OsTypeView::MacOs => Some("brew update"@),
        OsTypeView::Unknown(_) => None,
    }
}

/// The remote command that updates the package index for the detected OS,
/// or `None` when the OS is unknown (nothing is run then).
pub fn update_packages(os: &OsType) -> (r: Option<String>)
    ensures
        r matches Some(c) ==> update_command(os@) == Some(c@),
        r is None <==> update_command(os@) is None,
{
    match os {
        OsType::Ubuntu | OsType::Debian => Some(String::from_str("sudo apt-get update -y -q")),
        OsType::Arch => Some(String::from_str("sudo pacman -Sy --noconfirm")),
        OsType::MacOs => Some(String::from_str("brew update")),
        OsType::Unknown(_) => None,
    }
}

/// The status line of a package-index update.
pub fn update_report(outcome: &Outcome) -> (r: Report)
    ensures
        outcome matches Outcome::Exited(e) && e.success ==> r.level == Level::Pass && r.text@ == "package lists updated"@,
        outcome matches Outcome::Exited(e) && !e.success ==> r.level == Level::Warn && r.text@
            == "package update finished with warnings"@,
        outcome matches Outcome::NotRun(msg) ==> r.level == Level::Warn && r.text@ == "package update skipped: "@
            + msg@,
{
    match outcome {
        Outcome::Exited(e) => {
            if e.success {
                Report { level: Level::Pass, text: String::from_str("package lists updated") }
            } else {
                Report { level: Level::Warn, text: String::from_str("package update finished with warnings") }
            }
        },
        Outcome::NotRun(msg) => {
            let mut t = String::from_str("package update skipped: ");
            t.append(msg.as_str());
            Report { level: Level::Warn, text: t }
        },
    }
}

/// Why a dependency cannot be installed.
#[derive(Debug, Clone, PartialEq, Eq)]
pub enum InstallError {
    /// The name holds characters other than letters, digits, `-`, `_`, `.`.
    UnsafeName(String),
    /// The OS is not one polyws can provision: the dependency and the OS.
    UnsupportedOs(String, String),
}

impl InstallError {
    /// The message shown for this error.
    pub fn message(&self) -> (r: String)
        ensures
            (match self {
                InstallError::UnsafeName(d) => r@ == "Unsafe dependency name: '"@ + d@ + "'"@,
                InstallError::UnsupportedOs(d, n) => r@ == "Cannot install '"@ + d@ + "': unsupported OS '"@ + n@
                    + "'"@,
            }),
    {
        match self {
            InstallError::UnsafeName(d) => crate::text::cat3("Unsafe dependency name: '", d.as_str(), "'"),
            InstallError::UnsupportedOs(d, n) => {
                let mut m = crate::text::cat4("Cannot install '", d.as_str(), "': unsupported OS '", n.as_str());
                m.append("'");
                m
            },
        }
    }
}

/// The install command of each OS family.
pub open spec fn install_command(os: OsTypeView, dep: Seq<char>) -> Seq<char> {
    match os {
        OsTypeView::Ubuntu | OsTypeView::Debian => "sudo apt-get install -y -q "@ + dep,
        OsTypeView::Arch => "sudo pacman -S --noconfirm "@ + dep,
        OsTypeView::MacOs => "brew install "@ + dep,
        OsTypeView::Unknown(_) => Seq::empty(),
    }
}

/// The remote command that installs `dep` with the OS package manager.
/// `dep` must be a simple package name (no spaces or shell
/// metacharacters); an unknown OS cannot be provisioned.
pub fn install_dependency(os: &OsType, dep: &str) -> (r: Result<String, InstallError>)
    ensures
        !safe_name(dep@) ==> (r matches Err(InstallError::UnsafeName(d)) && d@ == dep@),
        has_ascii_unsafe(dep@) ==> (r matches Err(InstallError::UnsafeName(d)) && d@ == dep@),
        safe_name(dep@) && os@ is Unknown ==> (r matches Err(InstallError::UnsupportedOs(d, n)) && d@
            == dep@ && os@ == OsTypeView::Unknown(n@)),
        safe_name(dep@) && !(os@ is Unknown) ==> (r matches Ok(c) && c@ == install_command(os@, dep@)),
{
    if !is_safe_name(dep) {
        return Err(InstallError::UnsafeName(String::from_str(dep)));
    }
    match os {
        OsType::Ubuntu | OsType::Debian => {
            let mut c = String::from_str("sudo apt-get install -y -q ");
            c.append(dep);
            Ok(c)
        },
        OsType::Arch => {
            let mut c = String::from_str("sudo pacman -S --noconfirm ");
            c.append(dep);
            Ok(c)
        },
        OsType::MacOs => {
            let mut c = String::from_str("brew install ");
            c.append(dep);
            Ok(c)
        },
        OsType::Unknown(name) => Err(InstallError::UnsupportedOs(String::from_str(dep), name.clone())),
    }
}

/// The status line after an install command ran.
pub fn install_report(dep: &str, exit: &Exit) -> (r: Report)
    ensures
        exit.success ==> r.level == Level::Pass && r.text@ == dep@ + " installed"@,
        !exit.success ==> r.level == Level::Fail && r.text@ == "Failed to install '"@ + dep@ + "': "@ + trim(
            exit.stderr@,
        ),
{
    if exit.success {
        let mut t = String::from_str(dep);
        t.append(" installed");
        Report { level: Level::Pass, text: t }
    } else {
        let mut t = String::from_str("Failed to install '");
        t.append(dep);
        t.append("': ");
        let e = trim_str(exit.stderr.as_str());
        t.append(e.as_str());
        Report { level: Level::Fail, text: t }
    }
}

} // verus!
