//! What each screen of the UI shows: texts, rows and the choices of
//! emphasis, from the state; the terminal drawing itself is the program's.
use vstd::prelude::*;

use crate::config::{deps_of, local_dir_of, Project};
use crate::text::{cat, cat3, cat4, decimal, join, join_strings, seq_contains, str_contains, str_eq, trim, trim_str, u64_to_decimal};
use crate::tui::types::{tab_index, Tab};
use crate::utils::byte_len;
use crate::vm::ssh::views;

verus! {

// ---------------------------------------------------------------------------
// Frame
// ---------------------------------------------------------------------------

/// The hint line of the status bar: what the keys of the current tab do,
/// shorter on a narrow bar, and only `init` and `quit` without a
/// workspace.
pub open spec fn hint_spec(has_config: bool, tab: Tab, compact: bool) -> Seq<char> {
    if !has_config {
        if compact {
            "i:Init q:Quit"@
        } else {
            "i:Init workspace q:Quit"@
        }
    } else {
        match tab {
            Tab::Dashboard => if compact {
                "p:Pull s:Snap d:Doc r:Reload Tab q"@
            } else {
                "p:Pull-all s:Snapshot d:Doctor r:Reload Tab:Switch q:Quit"@
            },
            Tab::Projects => if compact {
                "a:Add d:Del p/\u{21B5}:Pull e:Exec s:Ref \u{2191}\u{2193}:Move q"@
            } else {
                "a:Add d:Delete p/\u{21B5}:Pull e:Exec s:Refresh \u{2191}\u{2193}:Move q:Quit"@
            },
            Tab::Graph => if compact {
                "r:Reload Tab q"@
            } else {
                "r:Reload Tab:Switch q:Quit"@
            },
            Tab::Snapshots => if compact {
                "c:Create r/\u{21B5}:Restore \u{2191}\u{2193}:Move q"@
            } else {
                "c:Create \u{21B5}/r:Restore \u{2191}\u{2193}:Move q:Quit"@
            },
            Tab::Sync => if compact {
                "s:Start/Stop n:Now r q"@
            } else {
                "s:Start/Stop n:SyncNow r:Reload q:Quit"@
            },
            Tab::Logs => if compact {
                "d:RunDoctor r q"@
            } else {
                "d:Run Doctor r:Reload q:Quit"@
            },
        }
    }
}

/// The hint line of the status bar (see [`hint_spec`]).
pub fn hint(has_config: bool, tab: Tab, compact: bool) -> (r: &'static str)
    ensures
        r@ == hint_spec(has_config, tab, compact),
{
    if !has_config {
        if compact {
            "i:Init q:Quit"
        } else {
            "i:Init workspace q:Quit"
        }
    } else {
        match tab {
            Tab::Dashboard => if compact {
                "p:Pull s:Snap d:Doc r:Reload Tab q"
            } else {
                "p:Pull-all s:Snapshot d:Doctor r:Reload Tab:Switch q:Quit"
            },
            Tab::Projects => if compact {
                "a:Add d:Del p/\u{21B5}:Pull e:Exec s:Ref \u{2191}\u{2193}:Move q"
            } else {
                "a:Add d:Delete p/\u{21B5}:Pull e:Exec s:Refresh \u{2191}\u{2193}:Move q:Quit"
            },
            Tab::Graph => if compact {
                "r:Reload Tab q"
            } else {
                "r:Reload Tab:Switch q:Quit"
            },
            Tab::Snapshots => if compact {
                "c:Create r/\u{21B5}:Restore \u{2191}\u{2193}:Move q"
            } else {
                "c:Create \u{21B5}/r:Restore \u{2191}\u{2193}:Move q:Quit"
            },
            Tab::Sync => if compact {
                "s:Start/Stop n:Now r q"
            } else {
                "s:Start/Stop n:SyncNow r:Reload q:Quit"
            },
            Tab::Logs => if compact {
                "d:RunDoctor r q"
            } else {
                "d:Run Doctor r:Reload q:Quit"
            },
        }
    }
}

/// How a line is emphasised.
#[derive(Debug, Clone, Copy, PartialEq, Eq, Structural)]
pub enum Tone {
    /// A success.
    Good,
    /// A failure.
    Bad,
    /// A warning or a change.
    Notice,
    /// Nothing special.
    Plain,
}

/// The text of the status bar and its tone: the message, when there is one
/// (bad for an error, good otherwise), else the hint line.
pub fn status_bar(status: &Option<(String, bool)>, hint: &str) -> (r: (String, Tone))
    ensures
        (match status {
            Some((m, e)) => r.0@ == " "@ + m@ && r.1 == (if *e {
                Tone::Bad
            } else {
                Tone::Good
            }),
            None => r.0@ == hint@ && r.1 == Tone::Plain,
        }),
{
    match status {
        Some((m, e)) => (cat(" ", m.as_str()), if *e {
            Tone::Bad
        } else {
            Tone::Good
        }),
        None => (String::from_str(hint), Tone::Plain),
    }
}

/// The frame's layout choices for a width: whether the screen is small
/// (the tabs then get a row of their own), the height of the top bar, and
/// whether the hint line is shortened.
pub fn layout_for(width: u16) -> (r: (bool, u16, bool))
    ensures
        r.0 == (width < 90),
        r.1 == (if width < 90 {
            2u16
        } else {
            1u16
        }),
        r.2 == (width < 110),
{
    let small = width < 90;
    (small, if small {
        2
    } else {
        1
    }, width < 110)
}

/// The badge of the top bar: the workspace name, or `(x)` without one.
pub fn badge(name: Option<&str>) -> (r: String)
    ensures
        r@ == "polyws "@ + (match name {
            Some(n) => n@,
            None => "(x)"@,
        }),
{
    match name {
        Some(n) => cat("polyws ", n),
        None => cat("polyws ", "(x)"),
    }
}

// ---------------------------------------------------------------------------
// Dashboard
// ---------------------------------------------------------------------------

/// The tone of a repository status on the dashboard: bad when missing or
/// failed, a notice when modified, good otherwise. On the projects tab
/// (`dashboard` false) a failure mark is not looked for.
pub open spec fn status_tone_spec(status: Seq<char>, dashboard: bool) -> Tone {
    if seq_contains(status, "missing"@) || (dashboard && status.len() > 0 && status[0] == '\u{2718}') {
        Tone::Bad
    } else if seq_contains(status, "modified"@) {
        Tone::Notice
    } else {
        Tone::Good
    }
}

/// The tone of a repository status (see [`status_tone_spec`]).
pub fn status_tone(status: &str, dashboard: bool) -> (r: Tone)
    ensures
        r == status_tone_spec(status@, dashboard),
{
    let v = crate::text::chars_of(status);
    let failed = dashboard && v.len() > 0 && v[0] == '\u{2718}';
    if str_contains(status, "missing") || failed {
        Tone::Bad
    } else if str_contains(status, "modified") {
        Tone::Notice
    } else {
        Tone::Good
    }
}

/// The overview of the dashboard: projects, snapshots, and the daemon.
pub fn overview_lines(projects: usize, snapshots: usize, sync_running: bool) -> (r: Vec<String>)
    ensures
        views(r@) == seq![
            " Projects    : "@ + decimal(projects as nat),
            " Snapshots   : "@ + decimal(snapshots as nat),
            " Sync daemon : "@ + (if sync_running {
                "running"@
            } else {
                "stopped"@
            }),
        ],
{
    let p = u64_to_decimal(projects as u64);
    let s = u64_to_decimal(snapshots as u64);
    let mut r: Vec<String> = Vec::new();
    r.push(cat(" Projects    : ", p.as_str()));
    r.push(cat(" Snapshots   : ", s.as_str()));
    r.push(cat(" Sync daemon : ", if sync_running {
        "running"
    } else {
        "stopped"
    }));
    assert(views(r@) =~= seq![
        " Projects    : "@ + decimal(projects as nat),
        " Snapshots   : "@ + decimal(snapshots as nat),
        " Sync daemon : "@ + (if sync_running {
            "running"@
        } else {
            "stopped"@
        }),
    ]);
    r
}

/// The part of a path after its last `/` (all of it without one).
pub open spec fn base_name(path: Seq<char>) -> Seq<char>
    decreases path.len(),
{
    if path.len() == 0 {
        path
    } else if path.last() == '/' {
        Seq::empty()
    } else {
        base_name(path.drop_last()).push(path.last())
    }
}

/// The part of a path after its last `/`.
pub fn base_name_of(path: &str) -> (r: String)
    ensures
        r@ == base_name(path@),
{
    let v = crate::text::chars_of(path);
    let mut start: usize = v.len();
    while start > 0 && v[start - 1] != '/'
        invariant
            start <= v.len(),
            v@ == path@,
            forall|k: int| start <= k < v.len() ==> #[trigger] v@[k] != '/',
        decreases start,
    {
        start -= 1;
    }
    let mut out: Vec<char> = Vec::new();
    let mut i: usize = start;
    while i < v.len()
        invariant
            start <= i <= v.len(),
            out@ == v@.subrange(start as int, i as int),
        decreases v.len() - i,
    {
        out.push(v[i]);
        assert(v@.subrange(start as int, i + 1) =~= v@.subrange(start as int, i as int).push(v@[i as int]));
        i += 1;
    }
    proof {
        lemma_base_name(v@, start as int);
    }
    crate::text::string_of(&out)
}

proof fn lemma_base_name(s: Seq<char>, start: int)
    requires
        0 <= start <= s.len(),
        forall|k: int| start <= k < s.len() ==> #[trigger] s[k] != '/',
        start == 0 || s[start - 1] == '/',
    ensures
        base_name(s) == s.subrange(start, s.len() as int),
    decreases s.len(),
{
    if s.len() == 0 {
    } else if s.len() == start {
        assert(s.last() == s[start - 1]);
        assert(s.subrange(start, s.len() as int) =~= Seq::<char>::empty());
    } else {
        let t = s.drop_last();
        assert forall|k: int| start <= k < t.len() implies #[trigger] t[k] != '/' by {
            assert(t[k] == s[k]);
        }
        if start > 0 {
            assert(t[start - 1] == s[start - 1]);
        }
        assert(s.last() == s[s.len() - 1]);
        lemma_base_name(t, start);
        assert(s.subrange(start, s.len() as int) =~= t.subrange(start, t.len() as int).push(s.last()));
    }
}

/// The most recent snapshots on the dashboard: the last ten files, newest
/// first, by their file names.
pub fn recent_snapshots(files: &Vec<String>) -> (r: Vec<String>)
    ensures
        r@.len() == (if files@.len() < 10 {
            files@.len()
        } else {
            10
        }),
        forall|k: int| 0 <= k < r@.len() ==> #[trigger] r@[k]@ == " "@ + base_name(files@[files@.len() - 1 - k]@),
{
    let mut r: Vec<String> = Vec::new();
    let mut k: usize = 0;
    while k < files.len() && k < 10
        invariant
            k <= files@.len(),
            k <= 10,
            r@.len() == k,
            forall|j: int| 0 <= j < k ==> #[trigger] r@[j]@ == " "@ + base_name(files@[files@.len() - 1 - j]@),
        decreases 10 - k,
    {
        let b = base_name_of(files[files.len() - 1 - k].as_str());
        r.push(cat(" ", b.as_str()));
        k += 1;
    }
    r
}

// ---------------------------------------------------------------------------
// Projects
// ---------------------------------------------------------------------------

/// The name shown for a project: with its directory when that differs.
pub open spec fn display_name(p: Project) -> Seq<char> {
    if local_dir_of(p) != p.name@ {
        p.name@ + " ("@ + local_dir_of(p) + ")"@
    } else {
        p.name@
    }
}

/// The mirror cell: the URL, cut to 29 bytes and an ellipsis when longer
/// than 30 bytes; a dash without one.
pub open spec fn mirror_bytes(url: Option<Seq<char>>) -> Seq<u8> {
    match url {
        None => vstd::utf8::encode_utf8("\u{2014}"@),
        Some(u) => if byte_len(u) > 30 {
            vstd::utf8::encode_utf8(u).take(29) + vstd::utf8::encode_utf8("\u{2026}"@)
        } else {
            vstd::utf8::encode_utf8(u)
        },
    }
}

/// The row of the projects tab: shown name, branch, status, dependencies
/// joined by `, `, and mirror URL. A long mirror URL is cut at byte 29,
/// which must fall between characters.
pub fn project_row(p: &Project, status: &str) -> (r: Vec<String>)
    requires
        p.sync_url matches Some(u) ==> byte_len(u@) <= usize::MAX,
        p.sync_url matches Some(u) ==> (byte_len(u@) > 30 ==> vstd::utf8::is_char_boundary(
            vstd::utf8::encode_utf8(u@),
            29,
        )),
    ensures
        r@.len() == 5,
        r@[0]@ == display_name(*p),
        r@[1]@ == p.branch@,
        r@[2]@ == status@,
        r@[3]@ == join(deps_of(*p), ", "@),
        vstd::utf8::encode_utf8(r@[4]@) == mirror_bytes(match p.sync_url {
            Some(u) => Some(u@),
            None => None,
        }),
{
    let dir = p.local_dir();
    let shown = if !str_eq(dir, p.name.as_str()) {
        let mut s = cat3(p.name.as_str(), " (", dir);
        s.append(")");
        s
    } else {
        p.name.clone()
    };
    let deps = match &p.depends_on {
        Some(d) => {
            let j = join_strings(d, ", ");
            assert(d@.map_values(|s: String| s@) =~= deps_of(*p));
            j
        },
        None => {
            assert(deps_of(*p) =~= Seq::<Seq<char>>::empty());
            String::new()
        },
    };
    let mirror = match &p.sync_url {
        None => String::from_str("\u{2014}"),
        Some(u) => {
            let us = u.as_str();
            if us.len() > 30 {
                let (head, _) = us.split_at(29);
                let mut m = String::from_str(head);
                m.append("\u{2026}");
                proof {
                    lemma_encode_concat(head@, "\u{2026}"@);
                    assert(vstd::utf8::encode_utf8(head@) =~= vstd::utf8::encode_utf8(u@).take(29));
                }
                m
            } else {
                u.clone()
            }
        },
    };
    let mut r: Vec<String> = Vec::new();
    r.push(shown);
    r.push(p.branch.clone());
    r.push(String::from_str(status));
    r.push(deps);
    r.push(mirror);
    r
}

/// The encoding of two texts one after the other is their encodings one
/// after the other.
proof fn lemma_encode_concat(a: Seq<char>, b: Seq<char>)
    ensures
        vstd::utf8::encode_utf8(a + b) == vstd::utf8::encode_utf8(a) + vstd::utf8::encode_utf8(b),
    decreases a.len(),
{
    if a.len() == 0 {
        assert(a + b =~= b);
    } else {
        assert((a + b).drop_first() =~= a.drop_first() + b);
        assert((a + b)[0] == a[0]);
        lemma_encode_concat(a.drop_first(), b);
    }
}

// ---------------------------------------------------------------------------
// Graph, snapshots, sync, log
// ---------------------------------------------------------------------------

/// The lines of the graph tab: a blank line, then for each execution level
/// its number, the names of its projects, and a blank line.
pub open spec fn level_lines_spec(levels: Seq<Seq<Seq<char>>>) -> Seq<Seq<char>>
    decreases levels.len(),
{
    if levels.len() == 0 {
        seq![Seq::empty()]
    } else {
        level_lines_spec(levels.drop_last()) + seq![
            "  Level "@ + decimal(levels.len()),
            "   \u{2514}\u{2500} "@ + join(levels.last(), ", "@),
            Seq::empty(),
        ]
    }
}

/// The lines of the graph tab, from the names of each level's projects.
pub fn level_lines(levels: &Vec<Vec<String>>) -> (r: Vec<String>)
    requires
        levels@.len() < u64::MAX,
    ensures
        views(r@) == level_lines_spec(levels@.map_values(|l: Vec<String>| views(l@))),
{
    let ghost lv = levels@.map_values(|l: Vec<String>| views(l@));
    let mut r: Vec<String> = Vec::new();
    r.push(String::new());
    assert(views(r@) =~= level_lines_spec(lv.take(0)));
    let mut i: usize = 0;
    while i < levels.len()
        invariant
            i <= levels@.len(),
            levels@.len() < u64::MAX,
            lv == levels@.map_values(|l: Vec<String>| views(l@)),
            views(r@) == level_lines_spec(lv.take(i as int)),
        decreases levels@.len() - i,
    {
        let n = u64_to_decimal((i + 1) as u64);
        let names = join_strings(&levels[i], ", ");
        assert(levels@[i as int]@.map_values(|s: String| s@) == lv[i as int]);
        let ghost before = views(r@);
        r.push(cat("  Level ", n.as_str()));
        r.push(cat("   \u{2514}\u{2500} ", names.as_str()));
        r.push(String::new());
        assert(lv.take(i + 1).drop_last() =~= lv.take(i as int));
        assert(views(r@) =~= level_lines_spec(lv.take(i + 1)));
        i += 1;
    }
    assert(lv.take(levels@.len() as int) =~= lv);
    r
}

/// The row of the snapshots tab: file name, creation time and number of
/// repositories, or `?` and 0 where the file could not be read.
pub fn snapshot_row(path: &str, snap: Option<&crate::snapshot::Snapshot>) -> (r: Vec<String>)
    ensures
        views(r@) == seq![base_name(path@), match snap {
            Some(s) => s.created_at@,
            None => "?"@,
        }, decimal(match snap {
            Some(s) => s.commits@.len(),
            None => 0,
        })],
{
    let b = base_name_of(path);
    let (created, n) = match snap {
        Some(s) => (s.created_at.clone(), s.commits.len()),
        None => (String::from_str("?"), 0),
    };
    let d = u64_to_decimal(n as u64);
    let mut r: Vec<String> = Vec::new();
    r.push(b);
    r.push(created);
    r.push(d);
    assert(views(r@) =~= seq![base_name(path@), match snap {
        Some(s) => s.created_at@,
        None => "?"@,
    }, decimal(match snap {
        Some(s) => s.commits@.len(),
        None => 0,
    })]);
    r
}

/// The daemon line of the sync tab.
pub fn daemon_label(running: bool) -> (r: (&'static str, Tone))
    ensures
        r.0@ == (if running {
            "\u{25CF} RUNNING"@
        } else {
            "\u{25CB} STOPPED"@
        }),
        r.1 == (if running {
            Tone::Good
        } else {
            Tone::Bad
        }),
{
    if running {
        ("\u{25CF} RUNNING", Tone::Good)
    } else {
        ("\u{25CB} STOPPED", Tone::Bad)
    }
}

/// The row of the sync tab for a project with a mirror: name, mirror URL
/// and interval (`Nm`, or `default`).
pub fn mirror_row(p: &Project) -> (r: Vec<String>)
    requires
        p.sync_url is Some,
    ensures
        views(r@) == seq![p.name@, p.sync_url->0@, match p.sync_interval {
            Some(i) => decimal(i as nat) + "m"@,
            None => "default"@,
        }],
{
    let url = match &p.sync_url {
        Some(u) => u.clone(),
        None => String::new(),
    };
    let interval = match p.sync_interval {
        Some(i) => {
            let d = u64_to_decimal(i);
            cat(d.as_str(), "m")
        },
        None => String::from_str("default"),
    };
    let mut r: Vec<String> = Vec::new();
    r.push(p.name.clone());
    r.push(url);
    r.push(interval);
    assert(views(r@) =~= seq![p.name@, p.sync_url->0@, match p.sync_interval {
        Some(i) => decimal(i as nat) + "m"@,
        None => "default"@,
    }]);
    r
}

/// The tone of a log line: by the mark it starts with.
pub fn log_tone(line: &str) -> (r: Tone)
    ensures
        r == (if line@.len() > 0 && line@[0] == '\u{2714}' {
            Tone::Good
        } else if line@.len() > 0 && line@[0] == '\u{2718}' {
            Tone::Bad
        } else if line@.len() > 0 && line@[0] == '\u{26A0}' {
            Tone::Notice
        } else {
            Tone::Plain
        }),
{
    let v = crate::text::chars_of(line);
    if v.len() > 0 && v[0] == '\u{2714}' {
        Tone::Good
    } else if v.len() > 0 && v[0] == '\u{2718}' {
        Tone::Bad
    } else if v.len() > 0 && v[0] == '\u{26A0}' {
        Tone::Notice
    } else {
        Tone::Plain
    }
}

// ---------------------------------------------------------------------------
// The add-project form and the command prompt
// ---------------------------------------------------------------------------

/// The height of each field of the form in a popup `height` rows high:
/// four rows when all fit with the margins, else three.
pub fn field_height(height: u16) -> (r: u16)
    ensures
        r == (if (if height >= 4 {
            height - 4
        } else {
            0
        }) >= 24 {
            4u16
        } else {
            3u16
        }),
{
    let usable = if height >= 4 {
        height - 4
    } else {
        0
    };
    if usable >= 24 {
        4
    } else {
        3
    }
}

/// How a form field is drawn.
#[derive(Debug, Clone, Copy, PartialEq, Eq, Structural)]
pub enum FieldLook {
    /// The field with the focus, with a cursor.
    Focused,
    /// An empty field showing its hint.
    Hint,
    /// A field showing its text.
    Filled,
}

/// The text a form field shows: the branch field reads `main` while
/// empty; the focused field shows a cursor after its text; an empty field
/// its hint.
pub open spec fn field_display_spec(is_branch: bool, raw: Seq<char>, focused: bool, hint: Seq<char>) -> (Seq<char>, FieldLook) {
    let value = if is_branch && trim(raw).len() == 0 {
        "main"@
    } else {
        raw
    };
    if focused {
        (value + "|"@, FieldLook::Focused)
    } else if trim(value).len() == 0 {
        (if is_branch {
            "main"@
        } else {
            hint
        }, if is_branch {
            FieldLook::Filled
        } else {
            FieldLook::Hint
        })
    } else {
        (value, FieldLook::Filled)
    }
}

/// The text a form field shows (see [`field_display_spec`]).
pub fn field_display(is_branch: bool, raw: &str, focused: bool, hint: &str) -> (r: (String, FieldLook))
    ensures
        (r.0@, r.1) == field_display_spec(is_branch, raw@, focused, hint@),
{
    let t = trim_str(raw);
    let value = if is_branch && t.as_str().is_empty() {
        String::from_str("main")
    } else {
        String::from_str(raw)
    };
    if focused {
        return (cat(value.as_str(), "|"), FieldLook::Focused);
    }
    let tv = trim_str(value.as_str());
    if tv.as_str().is_empty() {
        if is_branch {
            (String::from_str("main"), FieldLook::Filled)
        } else {
            (String::from_str(hint), FieldLook::Hint)
        }
    } else {
        (value, FieldLook::Filled)
    }
}

/// The command prompt's line: the typed command after `$`, then a cursor.
pub fn exec_prompt_line(input: &str) -> (r: String)
    ensures
        r@ == " $ "@ + input@ + "_"@,
{
    cat3(" $ ", input, "_")
}

} // verus!
