//! Where things live: the normal form of a project directory and the names
//! the workspace configuration may be stored under.
use vstd::prelude::*;

use crate::config::{local_dir_of, Project, WorkspaceConfig};
use crate::text::{chars_of, join, join_strings, str_eq, string_of, trim, trim_chars};

verus! {

/// A separator between directory names: `/` or `\`.
pub open spec fn is_sep(c: char) -> bool {
    c == '/' || c == '\\'
}

/// Appends a finished directory name, leaving out empty names and `.`.
pub open spec fn flush(done: Seq<Seq<char>>, cur: Seq<char>) -> Seq<Seq<char>> {
    if cur.len() == 0 || cur == seq!['.'] {
        done
    } else {
        done.push(cur)
    }
}

/// The directory names of `s`, read left to right after `done` and the
/// unfinished name `cur`.
pub open spec fn segments_from(s: Seq<char>, done: Seq<Seq<char>>, cur: Seq<char>) -> Seq<Seq<char>>
    decreases s.len(),
{
    if s.len() == 0 {
        flush(done, cur)
    } else if is_sep(s[0]) {
        segments_from(s.drop_first(), flush(done, cur), Seq::empty())
    } else {
        segments_from(s.drop_first(), done, cur.push(s[0]))
    }
}

/// The directory names of a path: split at `/` and `\`, without empty
/// names and without `.`.
pub open spec fn segments(s: Seq<char>) -> Seq<Seq<char>> {
    segments_from(s, Seq::empty(), Seq::empty())
}

/// The normal form of a project directory, by which two projects are found
/// to share a directory: trimmed, its names joined by `/`, and `.` for
/// the workspace root itself.
pub open spec fn normal_dir(s: Seq<char>) -> Seq<char> {
    let parts = segments(trim(s));
    if parts.len() == 0 {
        seq!['.']
    } else {
        join(parts, seq!['/'])
    }
}

fn dot() -> (s: String)
    ensures
        s@ == seq!['.'],
{
    let v: Vec<char> = vec!['.'];
    string_of(&v)
}

fn slash() -> (s: String)
    ensures
        s@ == seq!['/'],
{
    let v: Vec<char> = vec!['/'];
    string_of(&v)
}

fn is_dot(cur: &Vec<char>) -> (b: bool)
    ensures
        b == (cur@ == seq!['.']),
{
    if cur.len() == 1 && cur[0] == '.' {
        assert(cur@ =~= seq!['.']);
        true
    } else {
        false
    }
}

fn flush_exec(done: &mut Vec<String>, cur: &Vec<char>)
    ensures
        final(done)@.map_values(|s: String| s@) == flush(old(done)@.map_values(|s: String| s@), cur@),
{
    if cur.len() > 0 && !is_dot(cur) {
        let s = string_of(cur);
        let ghost before = done@;
        done.push(s);
        assert(done@.map_values(|s: String| s@) =~= before.map_values(|s: String| s@).push(cur@));
    }
}

/// The normal form of a project directory (see [`normal_dir`]).
pub fn normalize_local_dir(path: &str) -> (r: String)
    ensures
        r@ == normal_dir(path@),
{
    let v = chars_of(path);
    let t = trim_chars(&v);
    let mut done: Vec<String> = Vec::new();
    let mut cur: Vec<char> = Vec::new();
    let mut i: usize = 0;
    assert(t@.subrange(0, t.len() as int) =~= t@);
    assert(done@.map_values(|s: String| s@) =~= Seq::<Seq<char>>::empty());
    while i < t.len()
        invariant
            i <= t.len(),
            t@ == trim(path@),
            segments_from(t@.subrange(i as int, t.len() as int), done@.map_values(|s: String| s@), cur@)
                == segments(t@),
        decreases t.len() - i,
    {
        let ghost rest = t@.subrange(i as int, t.len() as int);
        assert(rest.drop_first() =~= t@.subrange(i + 1, t.len() as int));
        let c = t[i];
        if c == '/' || c == '\\' {
            flush_exec(&mut done, &cur);
            cur = Vec::new();
            assert(cur@ =~= Seq::<char>::empty());
        } else {
            cur.push(c);
        }
        i += 1;
    }
    flush_exec(&mut done, &cur);
    assert(t@.subrange(t.len() as int, t.len() as int) =~= Seq::<char>::empty());
    if done.len() == 0 {
        dot()
    } else {
        let sep = slash();
        join_strings(&done, sep.as_str())
    }
}

/// The names the workspace configuration may be stored under, in the
/// order they are tried.
pub open spec fn config_names() -> Seq<Seq<char>> {
    seq![".polyws"@, ".poly"@, ".polyws.json"@, ".poly.json"@, ".polyws.toml"@, ".poly.toml"@]
}

/// The names the workspace configuration may be stored under, in the
/// order they are tried.
pub fn known_config_paths() -> (r: Vec<&'static str>)
    ensures
        r@.map_values(|s: &str| s@) == config_names(),
{
    let r = vec![".polyws", ".poly", ".polyws.json", ".poly.json", ".polyws.toml", ".poly.toml"];
    assert(r@.map_values(|s: &str| s@) =~= config_names());
    r
}

/// The first known configuration name whose file exists; `exists[i]`
/// tells whether the `i`-th name of [`config_names`] exists.
pub open spec fn first_existing(exists: Seq<bool>, i: int) -> Option<int>
    decreases 6 - i,
{
    if i >= 6 || i >= exists.len() {
        None
    } else if exists[i] {
        Some(i)
    } else {
        first_existing(exists, i + 1)
    }
}

/// The configuration file that is present, given which of the known names
/// exist (one flag per name, in the order of [`known_config_paths`]).
pub fn find_existing_config_path(exists: &Vec<bool>) -> (r: Option<&'static str>)
    ensures
        r is None <==> first_existing(exists@, 0) is None,
        r matches Some(p) ==> (first_existing(exists@, 0) matches Some(i) && p@ == config_names()[i]),
{
    let names = known_config_paths();
    assert(names@.len() == 6) by {
        assert(names@.map_values(|s: &str| s@).len() == 6);
    }
    let mut i: usize = 0;
    while i < 6 && i < exists.len()
        invariant
            i <= 6,
            names@.len() == 6,
            names@.map_values(|s: &str| s@) == config_names(),
            first_existing(exists@, i as int) == first_existing(exists@, 0),
        decreases 6 - i,
    {
        if exists[i] {
            assert(names@.map_values(|s: &str| s@)[i as int] == names@[i as int]@);
            return Some(names[i]);
        }
        i += 1;
    }
    None
}

/// Where the configuration is written: `.poly` when only that file is
/// present, `.polyws` otherwise.
pub fn config_write_path(polyws_exists: bool, poly_exists: bool) -> (r: &'static str)
    ensures
        r@ == (if poly_exists && !polyws_exists { ".poly"@ } else { ".polyws"@ }),
{
    if poly_exists && !polyws_exists {
        ".poly"
    } else {
        ".polyws"
    }
}

impl WorkspaceConfig {
    /// The first project with the given name.
    pub fn find_project(&self, name: &str) -> (r: Option<&Project>)
        ensures
            r is None <==> crate::config::resolve(self.projects@, name@) is None,
            r matches Some(p) ==> (crate::config::resolve(self.projects@, name@) matches Some(i)
                && *p == self.projects@[i]),
    {
        match crate::config::find_project_index(&self.projects, name) {
            Some(i) => Some(&self.projects[i]),
            None => None,
        }
    }
}

/// Some project's directory has the normal form `dir`.
pub open spec fn dir_used(ps: Seq<Project>, dir: Seq<char>) -> bool {
    exists|j: int| 0 <= j < ps.len() && normal_dir(local_dir_of(ps[j])) == dir
}

/// Whether some project's directory has the normal form `dir`.
pub fn dir_in_use(projects: &Vec<Project>, dir: &str) -> (b: bool)
    ensures
        b == dir_used(projects@, dir@),
{
    let mut i: usize = 0;
    while i < projects.len()
        invariant
            i <= projects.len(),
            forall|j: int| 0 <= j < i ==> normal_dir(local_dir_of(#[trigger] projects@[j])) != dir@,
        decreases projects.len() - i,
    {
        let d = normalize_local_dir(projects[i].local_dir());
        if str_eq(d.as_str(), dir) {
            return true;
        }
        i += 1;
    }
    false
}

} // verus!
