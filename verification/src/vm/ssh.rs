//! The SSH command lines polyws runs against the VM. The library builds the
//! argument lists; the caller hands them to the system `ssh` binary.
use vstd::prelude::*;

use crate::text::{chars_of, string_of};

verus! {

/// The target and options of a connection to the remote host.
#[derive(Debug, Clone)]
pub struct SshSession {
    pub host: String,
    pub user: String,
}

/// The character sequences of a vector of strings.
pub open spec fn views(v: Seq<String>) -> Seq<Seq<char>> {
    v.map_values(|s: String| s@)
}

/// `s` with every single quote written as `'\''`.
pub open spec fn escape_quotes(s: Seq<char>) -> Seq<char>
    decreases s.len(),
{
    if s.len() == 0 {
        Seq::empty()
    } else {
        escape_quotes(s.drop_last()) + if s.last() == '\'' {
            seq!['\'', '\\', '\'', '\'']
        } else {
            seq![s.last()]
        }
    }
}

/// Single-argument shell quoting: the value inside single quotes, each
/// embedded single quote escaped.
pub open spec fn shell_escape_spec(s: Seq<char>) -> Seq<char> {
    seq!['\''] + escape_quotes(s) + seq!['\'']
}

/// Minimal single-argument shell escaping: wraps the value in single quotes
/// and escapes any embedded single quotes.
pub fn shell_escape(s: &str) -> (r: String)
    ensures
        r@ == shell_escape_spec(s@),
{
    let v = chars_of(s);
    let mut out: Vec<char> = Vec::new();
    out.push('\'');
    let mut i: usize = 0;
    while i < v.len()
        invariant
            i <= v.len(),
            out@ == seq!['\''] + escape_quotes(v@.take(i as int)),
        decreases v.len() - i,
    {
        let c = v[i];
        assert(v@.take(i + 1).drop_last() =~= v@.take(i as int));
        assert(v@.take(i + 1).last() == c);
        if c == '\'' {
            out.push('\'');
            out.push('\\');
            out.push('\'');
            out.push('\'');
        } else {
            out.push(c);
        }
        assert(out@ =~= seq!['\''] + escape_quotes(v@.take(i + 1)));
        i += 1;
    }
    assert(v@.take(v.len() as int) =~= v@);
    out.push('\'');
    assert(out@ =~= shell_escape_spec(s@));
    string_of(&out)
}

/// `user@host`.
pub open spec fn target_spec(user: Seq<char>, host: Seq<char>) -> Seq<char> {
    user + "@"@ + host
}

/// The options of every non-interactive call.
pub open spec fn base_args_spec() -> Seq<Seq<char>> {
    seq!["-o"@, "StrictHostKeyChecking=no"@, "-o"@, "BatchMode=yes"@, "-o"@, "ConnectTimeout=10"@]
}

/// The command that prints the remote OS identification.
pub open spec fn detect_os_command() -> Seq<char> {
    "uname -s && cat /etc/os-release 2>/dev/null || true"@
}

fn push_str(v: &mut Vec<String>, s: &str)
    ensures
        views(final(v)@) == views(old(v)@).push(s@),
{
    let ghost before = v@;
    v.push(String::from_str(s));
    assert(views(v@) =~= views(before).push(s@));
}

impl SshSession {
    pub fn new(user: &str, host: &str) -> (r: Self)
        ensures
            r.user@ == user@,
            r.host@ == host@,
    {
        SshSession { host: String::from_str(host), user: String::from_str(user) }
    }

    /// `user@host`.
    pub fn target(&self) -> (r: String)
        ensures
            r@ == target_spec(self.user@, self.host@),
    {
        let mut t = self.user.clone();
        t.append("@");
        t.append(self.host.as_str());
        t
    }

    /// Common SSH flags used for all non-interactive calls.
    pub fn base_args(&self) -> (r: Vec<String>)
        ensures
            views(r@) == base_args_spec(),
    {
        let mut v: Vec<String> = Vec::new();
        push_str(&mut v, "-o");
        push_str(&mut v, "StrictHostKeyChecking=no");
        push_str(&mut v, "-o");
        push_str(&mut v, "BatchMode=yes");
        push_str(&mut v, "-o");
        push_str(&mut v, "ConnectTimeout=10");
        assert(views(v@) =~= base_args_spec());
        v
    }

    /// The `ssh` arguments that run `cmd` on the remote host.
    pub fn exec_args(&self, cmd: &str) -> (r: Vec<String>)
        ensures
            views(r@) == base_args_spec() + seq![target_spec(self.user@, self.host@), cmd@],
    {
        let mut v = self.base_args();
        let t = self.target();
        let ghost before = v@;
        v.push(t);
        push_str(&mut v, cmd);
        assert(views(v@) =~= base_args_spec() + seq![target_spec(self.user@, self.host@), cmd@]);
        v
    }

    /// `cd <remote_path> && <cmd>` — a command run inside the workspace
    /// directory, the path quoted.
    pub fn exec_in_path(&self, remote_path: &str, cmd: &str) -> (r: Vec<String>)
        ensures
            views(r@) == base_args_spec() + seq![
                target_spec(self.user@, self.host@),
                "cd "@ + shell_escape_spec(remote_path@) + " && "@ + cmd@,
            ],
    {
        let mut full = String::from_str("cd ");
        let q = shell_escape(remote_path);
        full.append(q.as_str());
        full.append(" && ");
        full.append(cmd);
        self.exec_args(full.as_str())
    }

    /// The `ssh` arguments of an interactive shell on the remote host.
    pub fn interactive_shell(&self) -> (r: Vec<String>)
        ensures
            views(r@) == seq!["-o"@, "StrictHostKeyChecking=no"@, target_spec(self.user@, self.host@)],
    {
        let mut v: Vec<String> = Vec::new();
        push_str(&mut v, "-o");
        push_str(&mut v, "StrictHostKeyChecking=no");
        let ghost before = v@;
        v.push(self.target());
        assert(views(v@) =~= views(before).push(target_spec(self.user@, self.host@)));
        assert(views(v@) =~= seq!["-o"@, "StrictHostKeyChecking=no"@, target_spec(self.user@, self.host@)]);
        v
    }

    /// The `ssh` arguments that check that the host is reachable and that
    /// authentication succeeds.
    pub fn check_connectivity(&self) -> (r: Vec<String>)
        ensures
            views(r@) == seq![
                "-o"@,
                "StrictHostKeyChecking=no"@,
                "-o"@,
                "BatchMode=yes"@,
                "-o"@,
                "ConnectTimeout=5"@,
                target_spec(self.user@, self.host@),
                "exit 0"@,
            ],
    {
        let mut v: Vec<String> = Vec::new();
        push_str(&mut v, "-o");
        push_str(&mut v, "StrictHostKeyChecking=no");
        push_str(&mut v, "-o");
        push_str(&mut v, "BatchMode=yes");
        push_str(&mut v, "-o");
        push_str(&mut v, "ConnectTimeout=5");
        let ghost before = v@;
        v.push(self.target());
        assert(views(v@) =~= views(before).push(target_spec(self.user@, self.host@)));
        push_str(&mut v, "exit 0");
        assert(views(v@) =~= seq![
            "-o"@,
            "StrictHostKeyChecking=no"@,
            "-o"@,
            "BatchMode=yes"@,
            "-o"@,
            "ConnectTimeout=5"@,
            target_spec(self.user@, self.host@),
            "exit 0"@,
        ]);
        v
    }

    /// The `ssh` arguments that retrieve OS identification from the remote
    /// host (its standard output is what [`crate::vm::detect_os::detect`]
    /// reads).
    pub fn detect_os(&self) -> (r: Vec<String>)
        ensures
            views(r@) == base_args_spec() + seq![target_spec(self.user@, self.host@), detect_os_command()],
    {
        self.exec_args("uname -s && cat /etc/os-release 2>/dev/null || true")
    }
}

} // verus!
