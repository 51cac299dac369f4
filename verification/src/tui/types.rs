//! The tabs, the add-project form and the keys of the UI.
use vstd::prelude::*;

use crate::text::string_of;
use crate::vm::ssh::views;

verus! {

/// The tabs of the UI, in order.
#[derive(Debug, Clone, Copy, PartialEq, Eq, Structural)]
pub enum Tab {
    Dashboard,
    Projects,
    Graph,
    Snapshots,
    Sync,
    Logs,
}

/// The position of a tab, counted from 0.
pub open spec fn tab_index(t: Tab) -> nat {
    match t {
        Tab::Dashboard => 0,
        Tab::Projects => 1,
        Tab::Graph => 2,
        Tab::Snapshots => 3,
        Tab::Sync => 4,
        Tab::Logs => 5,
    }
}

/// The tab at a position; positions past the last give the last tab.
pub open spec fn tab_at(i: nat) -> Tab {
    if i == 0 {
        Tab::Dashboard
    } else if i == 1 {
        Tab::Projects
    } else if i == 2 {
        Tab::Graph
    } else if i == 3 {
        Tab::Snapshots
    } else if i == 4 {
        Tab::Sync
    } else {
        Tab::Logs
    }
}

impl Tab {
    /// The titles of the tabs, in order.
    pub fn titles() -> (r: Vec<&'static str>)
        ensures
            r@.map_values(|s: &str| s@) == seq!["1:Dash"@, "2:Proj"@, "3:Graph"@, "4:Snap"@, "5:Sync"@, "6:Doctor"@],
    {
        let r = vec!["1:Dash", "2:Proj", "3:Graph", "4:Snap", "5:Sync", "6:Doctor"];
        assert(r@.map_values(|s: &str| s@) =~= seq!["1:Dash"@, "2:Proj"@, "3:Graph"@, "4:Snap"@, "5:Sync"@, "6:Doctor"@]);
        r
    }

    /// The tab at position `i` (the last one for any larger `i`).
    pub fn from_usize(i: usize) -> (r: Tab)
        ensures
            r == tab_at(i as nat),
    {
        match i {
            0 => Tab::Dashboard,
            1 => Tab::Projects,
            2 => Tab::Graph,
            3 => Tab::Snapshots,
            4 => Tab::Sync,
            _ => Tab::Logs,
        }
    }

    /// The position of the tab.
    pub fn index(&self) -> (r: usize)
        ensures
            r as nat == tab_index(*self),
    {
        match self {
            Tab::Dashboard => 0,
            Tab::Projects => 1,
            Tab::Graph => 2,
            Tab::Snapshots => 3,
            Tab::Sync => 4,
            Tab::Logs => 5,
        }
    }
}

/// Going to the next tab and back to the previous one returns to the start,
/// and six steps go round.
pub proof fn law_tab_round_trip(t: Tab)
    ensures
        tab_at((tab_index(tab_at((tab_index(t) + 1) % 6)) + 5) % 6) == t,
        tab_at(tab_index(t)) == t,
{
}

/// The labels of the fields of the add-project form, in order.
pub open spec fn field_labels() -> Seq<Seq<char>> {
    seq!["Name"@, "Path (optional)"@, "URL"@, "Branch"@, "Sync URL"@, "Depends On"@]
}

/// The number of fields of the add-project form.
pub const FIELD_COUNT: usize = 6;

/// The labels of the form's fields.
pub fn field_labels_list() -> (r: Vec<&'static str>)
    ensures
        r@.map_values(|s: &str| s@) == field_labels(),
{
    let r = vec!["Name", "Path (optional)", "URL", "Branch", "Sync URL", "Depends On"];
    assert(r@.map_values(|s: &str| s@) =~= field_labels());
    r
}

/// The hints shown in the form's empty fields.
pub fn field_hints() -> (r: Vec<&'static str>)
    ensures
        r@.map_values(|s: &str| s@) == seq![
            "required"@,
            "nested/path (optional)"@,
            "git@host:org/repo.git"@,
            "main"@,
            "optional mirror url"@,
            "comma-separated project names"@,
        ],
{
    let r = vec![
        "required",
        "nested/path (optional)",
        "git@host:org/repo.git",
        "main",
        "optional mirror url",
        "comma-separated project names",
    ];
    assert(r@.map_values(|s: &str| s@) =~= seq![
        "required"@,
        "nested/path (optional)"@,
        "git@host:org/repo.git"@,
        "main"@,
        "optional mirror url"@,
        "comma-separated project names"@,
    ]);
    r
}

/// The add-project form: the text of each field (name, path, URL,
/// branch, mirror URL, dependencies) and the field that has the focus.
#[derive(Debug, Clone)]
pub struct AddForm {
    pub fields: Vec<String>,
    pub focused: usize,
}

impl AddForm {
    /// A form has six fields and the focus is on one of them.
    pub open spec fn wf(&self) -> bool {
        &&& self.fields@.len() == 6
        &&& self.focused < 6
    }

    /// The texts of the fields.
    pub open spec fn texts(&self) -> Seq<Seq<char>> {
        views(self.fields@)
    }

    /// An empty form, but for the branch, which is `main`; the focus on
    /// the name.
    pub fn new() -> (r: AddForm)
        ensures
            r.wf(),
            r.texts() == seq![Seq::empty(), Seq::empty(), Seq::empty(), "main"@, Seq::empty(), Seq::empty()],
            r.focused == 0,
    {
        let mut fields: Vec<String> = Vec::new();
        fields.push(String::new());
        fields.push(String::new());
        fields.push(String::new());
        fields.push(String::from_str("main"));
        fields.push(String::new());
        fields.push(String::new());
        let r = AddForm { fields, focused: 0 };
        assert(r.texts() =~= seq![Seq::empty(), Seq::empty(), Seq::empty(), "main"@, Seq::empty(), Seq::empty()]);
        r
    }
}

/// A key as the UI sees it.
#[derive(Debug, Clone, Copy, PartialEq, Eq, Structural)]
pub enum Key {
    Char(char),
    Enter,
    Esc,
    Tab,
    BackTab,
    Up,
    Down,
    Backspace,
    Delete,
    Other,
}

/// `s` with one more character at the end.
pub fn push_char(s: &mut String, c: char)
    ensures
        final(s)@ == old(s)@.push(c),
{
    let mut v = crate::text::chars_of(s.as_str());
    v.push(c);
    *s = string_of(&v);
}

/// `s` without its last character, as `String::pop` leaves it.
pub open spec fn drop_last_char(s: Seq<char>) -> Seq<char> {
    if s.len() == 0 {
        s
    } else {
        s.drop_last()
    }
}

/// Removes the last character of `s`, if any.
pub fn pop_char(s: &mut String)
    ensures
        final(s)@ == drop_last_char(old(s)@),
{
    let mut v = crate::text::chars_of(s.as_str());
    if v.len() > 0 {
        v.pop();
        assert(v@ =~= old(s)@.drop_last());
    }
    *s = string_of(&v);
}

/// The selection one row up, wrapping from the first row to the last; an
/// empty table keeps its selection.
pub open spec fn move_up_spec(sel: Option<usize>, len: usize) -> Option<usize> {
    if len == 0 {
        sel
    } else {
        let i = match sel {
            Some(i) => i,
            None => 0,
        };
        Some(if i == 0 {
            (len - 1) as usize
        } else {
            (i - 1) as usize
        })
    }
}

/// The selection one row down, wrapping from the last row to the first; an
/// empty table keeps its selection.
pub open spec fn move_down_spec(sel: Option<usize>, len: usize) -> Option<usize> {
    if len == 0 {
        sel
    } else {
        let i = match sel {
            Some(i) => i,
            None => 0,
        };
        Some(((i + 1) % (len as int)) as usize)
    }
}

/// Moves a table's selection one row up.
pub fn move_up(sel: Option<usize>, len: usize) -> (r: Option<usize>)
    ensures
        r == move_up_spec(sel, len),
{
    if len == 0 {
        return sel;
    }
    let i = match sel {
        Some(i) => i,
        None => 0,
    };
    Some(if i == 0 {
        len - 1
    } else {
        i - 1
    })
}

/// Moves a table's selection one row down.
pub fn move_down(sel: Option<usize>, len: usize) -> (r: Option<usize>)
    ensures
        r == move_down_spec(sel, len),
{
    if len == 0 {
        return sel;
    }
    let i = match sel {
        Some(i) => i,
        None => 0,
    };
    let j = i % len;
    proof {
        vstd::arithmetic::div_mod::lemma_add_mod_noop_right(1, i as int, len as int);
        if j + 1 == len {
            vstd::arithmetic::div_mod::lemma_mod_self_0(len as int);
        } else {
            vstd::arithmetic::div_mod::lemma_small_mod((j + 1) as nat, len as nat);
        }
    }
    Some(if j + 1 == len {
        0
    } else {
        j + 1
    })
}

/// On a table of at least one row, moving down then up returns to a
/// selected row; and both keep the selection within the table.
pub proof fn law_move_down_up(i: usize, len: usize)
    requires
        i < len,
    ensures
        move_up_spec(move_down_spec(Some(i), len), len) == Some(i),
        move_down_spec(Some(i), len) matches Some(j) && j < len,
        move_up_spec(Some(i), len) matches Some(j) && j < len,
{
    if i + 1 == len {
        assert((i + 1) % (len as int) == 0) by {
            vstd::arithmetic::div_mod::lemma_mod_self_0(len as int);
        }
    } else {
        assert((i + 1) % (len as int) == i + 1) by {
            vstd::arithmetic::div_mod::lemma_small_mod((i + 1) as nat, len as nat);
        }
    }
}

} // verus!
