//! Status lines and the outcomes of external commands, as plain values.
use vstd::prelude::*;

verus! {

/// How a status line is shown: a green check, a red cross, a yellow
/// triangle or a blue arrow.
#[derive(Debug, Clone, Copy, PartialEq, Eq)]
pub enum Level {
    Pass,
    Fail,
    Warn,
    Info,
}

/// One line of user-facing status output.
#[derive(Debug, Clone)]
pub struct Report {
    pub level: Level,
    pub text: String,
}

/// How an external command ended: it could not be started (with the
/// reason), or it exited.
#[derive(Debug, Clone)]
pub enum Outcome {
    NotRun(String),
    Exited(Exit),
}

/// The exit of an external command, its output decoded as text.
#[derive(Debug, Clone)]
pub struct Exit {
    pub success: bool,
    pub code: Option<i32>,
    pub stdout: String,
    pub stderr: String,
}

impl View for Report {
    type V = (Level, Seq<char>);

    open spec fn view(&self) -> (Level, Seq<char>) {
        (self.level, self.text@)
    }
}

/// The models of a sequence of reports.
pub open spec fn reports(v: Seq<Report>) -> Seq<(Level, Seq<char>)> {
    v.map_values(|r: Report| r@)
}

/// Appends a report to a list of reports.
pub fn add_report(v: &mut Vec<Report>, level: Level, text: String)
    ensures
        reports(final(v)@) == reports(old(v)@).push((level, text@)),
{
    let ghost before = v@;
    v.push(Report { level, text });
    assert(reports(v@) =~= reports(before).push((level, text@)));
}

/// A report of the given level and text.
pub fn report(level: Level, text: String) -> (r: Report)
    ensures
        r.level == level,
        r.text@ == text@,
{
    Report { level, text }
}

} // verus!
