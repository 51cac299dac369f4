//! The lock that keeps git operations of several polyws processes apart,
//! and the plain-terminal table renderer.
use vstd::prelude::*;

use crate::parse::{lines, lines_of, parse_u32, parse_u32_spec};
use crate::text::{cat, join, join_strings, trim, trim_str, u64_to_decimal, decimal};
use crate::vm::ssh::views;

verus! {

// ---------------------------------------------------------------------------
// The git lock
// ---------------------------------------------------------------------------

/// The file whose presence means a git operation is running.
pub fn git_lock_file() -> (r: &'static str)
    ensures
        r@ == ".polyws/git.lock"@,
{
    ".polyws/git.lock"
}

/// A held git lock: the lock file, removed when the holder is done.
#[derive(Debug)]
pub struct RepoLock {
    pub path: String,
}

impl RepoLock {
    /// The lock held through the usual lock file.
    pub fn new() -> (r: RepoLock)
        ensures
            r.path@ == ".polyws/git.lock"@,
    {
        RepoLock { path: String::from_str(git_lock_file()) }
    }
}

/// What a lock file holds: the holder's process id and a label, one per line.
pub open spec fn lock_content(pid: u32, label: Seq<char>) -> Seq<char> {
    "pid="@ + decimal(pid as nat) + "\n"@ + "label="@ + label + "\n"@
}

/// The text written into a new lock file.
pub fn lock_file_content(pid: u32, label: &str) -> (r: String)
    ensures
        r@ == lock_content(pid, label@),
{
    let mut r = String::from_str("pid=");
    let d = u64_to_decimal(pid as u64);
    r.append(d.as_str());
    r.append("\n");
    r.append("label=");
    r.append(label);
    r.append("\n");
    r
}

/// `line` starts with `pid=`.
pub open spec fn is_pid_line(line: Seq<char>) -> bool {
    line.len() >= 4 && line.take(4) == "pid="@
}

/// The first line from the `i`-th on that reads `pid=` and a number.
pub open spec fn pid_in(ls: Seq<Seq<char>>, i: int) -> Option<u32>
    decreases ls.len() - i,
{
    if i < 0 || i >= ls.len() {
        None
    } else if is_pid_line(ls[i]) && parse_u32_spec(trim(ls[i].skip(4))) is Some {
        parse_u32_spec(trim(ls[i].skip(4)))
    } else {
        pid_in(ls, i + 1)
    }
}

/// The process id recorded in a lock file: the first line `pid=N` (with
/// `N` read after trimming), if any.
pub open spec fn lock_pid(content: Seq<char>) -> Option<u32> {
    pid_in(lines_of(content), 0)
}

fn pid_prefix(line: &Vec<char>) -> (b: bool)
    ensures
        b == is_pid_line(line@),
{
    if line.len() >= 4 && line[0] == 'p' && line[1] == 'i' && line[2] == 'd' && line[3] == '=' {
        assert(line@.take(4) =~= "pid="@) by {
            reveal_strlit("pid=");
        }
        true
    } else {
        proof {
            reveal_strlit("pid=");
            if line@.len() >= 4 && line@.take(4) == "pid="@ {
                assert(line@[0] == line@.take(4)[0]);
                assert(line@[1] == line@.take(4)[1]);
                assert(line@[2] == line@.take(4)[2]);
                assert(line@[3] == line@.take(4)[3]);
            }
        }
        false
    }
}

/// Reads the process id out of a lock file's text.
pub fn read_lock_pid(content: &str) -> (r: Option<u32>)
    ensures
        r == lock_pid(content@),
{
    let ls = lines(content);
    let mut i: usize = 0;
    while i < ls.len()
        invariant
            i <= ls.len(),
            views(ls@) == lines_of(content@),
            pid_in(views(ls@), i as int) == pid_in(views(ls@), 0),
        decreases ls.len() - i,
    {
        let line = crate::text::chars_of(ls[i].as_str());
        assert(views(ls@)[i as int] == ls@[i as int]@);
        if pid_prefix(&line) {
            let mut rest: Vec<char> = Vec::new();
            let mut k: usize = 4;
            while k < line.len()
                invariant
                    4 <= k <= line.len(),
                    rest@ == line@.subrange(4, k as int),
                decreases line.len() - k,
            {
                rest.push(line[k]);
                assert(line@.subrange(4, k + 1) =~= line@.subrange(4, k as int).push(line@[k as int]));
                k += 1;
            }
            assert(rest@ =~= line@.skip(4));
            let t = trim_str(crate::text::string_of(&rest).as_str());
            let n = parse_u32(t.as_str());
            if n.is_some() {
                return n;
            }
        }
        i += 1;
    }
    None
}

/// A lock file read back gives the process id that was written into it.
pub proof fn law_lock_pid_round_trip(pid: u32, label: Seq<char>)
    ensures
        lock_pid(lock_content(pid, label)) == Some(pid),
{
    reveal_strlit("pid=");
    reveal_strlit("\n");
    reveal_strlit("label=");
    let d = decimal(pid as nat);
    crate::parse::law_parse_decimal(pid);
    crate::parse::lemma_decimal_digits(pid as nat);
    let c = lock_content(pid, label);
    let first = "pid="@ + d;
    assert(c == first + ("\n"@ + ("label="@ + label + "\n"@))) by {
        assert(c =~= first + ("\n"@ + ("label="@ + label + "\n"@)));
    }
    assert forall|k: int| 0 <= k < first.len() implies #[trigger] c[k] != '\n' by {
        if k >= 4 {
            assert(c[k] == d[k - 4]);
            assert(crate::parse::is_digit(d[k - 4]));
        }
    }
    assert(c[first.len() as int] == '\n');
    crate::text::lemma_first_newline(c, first.len() as int);
    assert(c.subrange(0, first.len() as int) =~= first);
    assert(first.last() != '\r') by {
        assert(crate::parse::is_digit(d[d.len() - 1]));
        assert(first.last() == d[d.len() - 1]);
    }
    let ls = lines_of(c);
    assert(ls[0] == first);
    assert(first.skip(4) =~= d);
    assert(is_pid_line(first)) by {
        assert(first.take(4) =~= "pid="@);
    }
    lemma_trim_digits(d);
}

proof fn lemma_trim_digits(d: Seq<char>)
    requires
        crate::parse::all_digits(d),
    ensures
        trim(d) == d,
{
    assert(!crate::text::is_space(d[0]));
    assert(!crate::text::is_space(d.last())) by {
        assert(d.last() == d[d.len() - 1]);
    }
    crate::text::lemma_trim_unspaced(d);
}

// ---------------------------------------------------------------------------
// Tables
// ---------------------------------------------------------------------------

/// The length of a text in bytes of UTF-8, what `str::len` counts.
pub open spec fn byte_len(s: Seq<char>) -> nat {
    vstd::utf8::encode_utf8(s).len()
}

/// `s` repeated `n` times.
pub open spec fn rep(s: Seq<char>, n: nat) -> Seq<char>
    decreases n,
{
    if n == 0 {
        Seq::empty()
    } else {
        rep(s, (n - 1) as nat) + s
    }
}

/// The width of column `i`: the longest of its header and of the cells
/// the rows have in that column, in bytes.
pub open spec fn col_width(h: Seq<char>, rows: Seq<Seq<Seq<char>>>, i: int) -> nat
    decreases rows.len(),
{
    if rows.len() == 0 {
        byte_len(h)
    } else {
        let w = col_width(h, rows.drop_last(), i);
        let r = rows.last();
        if 0 <= i < r.len() && byte_len(r[i]) > w {
            byte_len(r[i])
        } else {
            w
        }
    }
}

/// The column widths of a table.
pub open spec fn widths(hs: Seq<Seq<char>>, rows: Seq<Seq<Seq<char>>>) -> Seq<nat> {
    Seq::new(hs.len(), |i: int| col_width(hs[i], rows, i))
}

/// A text padded with spaces to `w` characters, as `{:<w}` formats it.
pub open spec fn pad(s: Seq<char>, w: nat) -> Seq<char> {
    if s.len() < w {
        s + rep(" "@, (w - s.len()) as nat)
    } else {
        s
    }
}

/// A cell of the header row, in bold.
pub open spec fn header_cell(h: Seq<char>, w: nat) -> Seq<char> {
    " \x1b[1m"@ + pad(h, w) + "\x1b[0m "@
}

/// A cell of a body row: padded, or in the column's color and padded
/// after the color ends.
pub open spec fn body_cell(cell: Seq<char>, color: Seq<char>, w: nat) -> Seq<char> {
    if color.len() == 0 {
        " "@ + pad(cell, w) + " "@
    } else {
        " \x1b["@ + color + "m"@ + cell + "\x1b[0m"@ + rep(" "@, if w > byte_len(cell) {
            (w - byte_len(cell)) as nat
        } else {
            0
        }) + " "@
    }
}

/// The `i`-th element of `v`, or the empty text past its end.
pub open spec fn at_or_empty(v: Seq<Seq<char>>, i: int) -> Seq<char> {
    if 0 <= i < v.len() {
        v[i]
    } else {
        Seq::empty()
    }
}

/// A horizontal rule: `left`, a run of `─` over each column joined by
/// `mid`, then `right`.
pub open spec fn rule(ws: Seq<nat>, left: Seq<char>, mid: Seq<char>, right: Seq<char>) -> Seq<char> {
    left + join(Seq::new(ws.len(), |i: int| rep("\u{2500}"@, ws[i] + 2)), mid) + right
}

/// The header line of a table.
pub open spec fn header_line(hs: Seq<Seq<char>>, ws: Seq<nat>) -> Seq<char> {
    "\u{2502}"@ + join(Seq::new(hs.len(), |i: int| header_cell(hs[i], ws[i])), "\u{2502}"@) + "\u{2502}"@
}

/// The line of one body row of a table with `n` columns.
pub open spec fn row_line(row: Seq<Seq<char>>, colors: Seq<Seq<char>>, ws: Seq<nat>, n: nat) -> Seq<char> {
    "\u{2502}"@ + join(
        Seq::new(n, |i: int| body_cell(at_or_empty(row, i), at_or_empty(colors, i), ws[i])),
        "\u{2502}"@,
    ) + "\u{2502}"@
}

/// The lines of an aligned table: top rule, header, rule, one line per
/// row, bottom rule.
pub open spec fn table_spec(hs: Seq<Seq<char>>, rows: Seq<Seq<Seq<char>>>, colors: Seq<Seq<char>>) -> Seq<Seq<char>> {
    let ws = widths(hs, rows);
    seq![rule(ws, "\u{250C}"@, "\u{252C}"@, "\u{2510}"@), header_line(hs, ws), rule(ws, "\u{251C}"@, "\u{253C}"@, "\u{2524}"@)]
        + rows.map_values(|r: Seq<Seq<char>>| row_line(r, colors, ws, hs.len()))
        + seq![rule(ws, "\u{2514}"@, "\u{2534}"@, "\u{2518}"@)]
}

/// The models of table rows.
pub open spec fn rows_view(rows: Seq<Vec<String>>) -> Seq<Seq<Seq<char>>> {
    rows.map_values(|r: Vec<String>| views(r@))
}

/// The models of string slices.
pub open spec fn strs_of(v: Seq<&str>) -> Seq<Seq<char>> {
    v.map_values(|s: &str| s@)
}

fn repeat(s: &str, n: usize) -> (r: String)
    ensures
        r@ == rep(s@, n as nat),
{
    let mut r = String::new();
    let mut k: usize = 0;
    while k < n
        invariant
            k <= n,
            r@ == rep(s@, k as nat),
        decreases n - k,
    {
        r.append(s);
        k += 1;
    }
    r
}

fn pad_to(s: &str, w: usize) -> (r: String)
    ensures
        r@ == pad(s@, w as nat),
{
    let n = crate::text::chars_of(s).len();
    if n < w {
        let sp = repeat(" ", w - n);
        cat(s, sp.as_str())
    } else {
        String::from_str(s)
    }
}

/// The widths of the columns, as `print_table` computes them.
fn column_widths(headers: &[&str], rows: &[Vec<String>]) -> (ws: Vec<usize>)
    requires
        forall|i: int| 0 <= i < headers@.len() ==> byte_len(#[trigger] headers@[i]@) <= isize::MAX,
        forall|k: int, i: int| 0 <= k < rows@.len() && 0 <= i < rows@[k]@.len() ==> byte_len(
            #[trigger] rows@[k]@[i]@,
        ) <= isize::MAX,
    ensures
        ws@.len() == headers@.len(),
        forall|i: int| 0 <= i < ws@.len() ==> ws@[i] as nat == col_width(headers@[i]@, rows_view(rows@), i),
        forall|i: int| 0 <= i < ws@.len() ==> ws@[i] <= isize::MAX,
{
    let ghost rv = rows_view(rows@);
    let ghost hs = strs_of(headers@);
    let mut ws: Vec<usize> = Vec::new();
    let mut i: usize = 0;
    while i < headers.len()
        invariant
            i <= headers@.len(),
            ws@.len() == i,
            forall|c: int| 0 <= c < i ==> ws@[c] as nat == col_width(headers@[c]@, rv.take(0), c),
            forall|c: int| 0 <= c < headers@.len() ==> byte_len(#[trigger] headers@[c]@) <= isize::MAX,
        decreases headers@.len() - i,
    {
        ws.push(headers[i].len());
        i += 1;
    }
    let mut k: usize = 0;
    while k < rows.len()
        invariant
            k <= rows@.len(),
            rv == rows_view(rows@),
            ws@.len() == headers@.len(),
            forall|c: int| 0 <= c < ws@.len() ==> ws@[c] as nat == col_width(headers@[c]@, rv.take(k as int), c),
            forall|c: int| 0 <= c < ws@.len() ==> ws@[c] <= isize::MAX,
            forall|q: int, c: int| 0 <= q < rows@.len() && 0 <= c < rows@[q]@.len() ==> byte_len(
                #[trigger] rows@[q]@[c]@,
            ) <= isize::MAX,
        decreases rows@.len() - k,
    {
        let row = &rows[k];
        assert(rv.take(k + 1).drop_last() =~= rv.take(k as int));
        assert(rv.take(k + 1).last() == views(row@));
        let mut c: usize = 0;
        while c < row.len()
            invariant
                c <= row@.len(),
                k < rows@.len(),
                *row == rows@[k as int],
                rv == rows_view(rows@),
                rv.take(k + 1).drop_last() == rv.take(k as int),
                rv.take(k + 1).last() == views(row@),
                rv.take(k + 1).len() > 0,
                ws@.len() == headers@.len(),
                forall|d: int| 0 <= d < c && d < ws@.len() ==> ws@[d] as nat == col_width(headers@[d]@, rv.take(k + 1), d),
                forall|d: int| c <= d < ws@.len() ==> ws@[d] as nat == col_width(headers@[d]@, rv.take(k as int), d),
                forall|d: int| 0 <= d < ws@.len() ==> ws@[d] <= isize::MAX,
                forall|q: int, d: int| 0 <= q < rows@.len() && 0 <= d < rows@[q]@.len() ==> byte_len(
                    #[trigger] rows@[q]@[d]@,
                ) <= isize::MAX,
            decreases row@.len() - c,
        {
            if c < ws.len() {
                let l = row[c].as_str().len();
                assert(l as nat == byte_len(rows@[k as int]@[c as int]@));
                assert(views(row@)[c as int] == row@[c as int]@);
                if l > ws[c] {
                    ws.set(c, l);
                }
                assert(ws@[c as int] as nat == col_width(headers@[c as int]@, rv.take(k + 1), c as int));
            }
            c += 1;
        }
        assert forall|d: int| 0 <= d < ws@.len() implies ws@[d] as nat == col_width(headers@[d]@, rv.take(k + 1), d) by {
            if d >= row@.len() {
            }
        }
        k += 1;
    }
    assert(rv.take(rows@.len() as int) =~= rv);
    ws
}

fn rule_line(ws: &Vec<usize>, left: &str, mid: &str, right: &str) -> (r: String)
    requires
        forall|i: int| 0 <= i < ws@.len() ==> ws@[i] <= isize::MAX,
    ensures
        r@ == rule(ws@.map_values(|w: usize| w as nat), left@, mid@, right@),
{
    let ghost wn = ws@.map_values(|w: usize| w as nat);
    let mut parts: Vec<String> = Vec::new();
    let mut i: usize = 0;
    while i < ws.len()
        invariant
            i <= ws@.len(),
            wn == ws@.map_values(|w: usize| w as nat),
            forall|j: int| 0 <= j < ws@.len() ==> ws@[j] <= isize::MAX,
            views(parts@) == Seq::new(i as nat, |j: int| rep("\u{2500}"@, wn[j] + 2)),
        decreases ws@.len() - i,
    {
        let ghost before = views(parts@);
        parts.push(repeat("\u{2500}", ws[i] + 2));
        assert(wn[i as int] == ws@[i as int] as nat);
        assert(views(parts@) =~= before.push(rep("\u{2500}"@, wn[i as int] + 2)));
        assert(views(parts@) =~= Seq::new((i + 1) as nat, |j: int| rep("\u{2500}"@, wn[j] + 2)));
        i += 1;
    }
    let body = join_strings(&parts, mid);
    assert(parts@.map_values(|s: String| s@) =~= Seq::new(wn.len(), |j: int| rep("\u{2500}"@, wn[j] + 2)));
    let mut r = cat(left, body.as_str());
    r.append(right);
    r
}

/// The lines of an aligned table (what `print_table` prints): columns as
/// wide as their widest header or cell, in bytes; `colors` gives an ANSI
/// color code per column, the empty string for none.
pub fn table_lines(headers: &[&str], rows: &[Vec<String>], colors: &[&str]) -> (r: Vec<String>)
    requires
        forall|i: int| 0 <= i < headers@.len() ==> byte_len(#[trigger] headers@[i]@) <= isize::MAX,
        forall|k: int, i: int| 0 <= k < rows@.len() && 0 <= i < rows@[k]@.len() ==> byte_len(
            #[trigger] rows@[k]@[i]@,
        ) <= isize::MAX,
    ensures
        views(r@) == table_spec(strs_of(headers@), rows_view(rows@), strs_of(colors@)),
{
    let ghost hs = strs_of(headers@);
    let ghost rv = rows_view(rows@);
    let ghost cs = strs_of(colors@);
    let ws = column_widths(headers, rows);
    let ghost wn = ws@.map_values(|w: usize| w as nat);
    assert(wn =~= widths(hs, rv));
    let n = headers.len();
    let mut out: Vec<String> = Vec::new();
    out.push(rule_line(&ws, "\u{250C}", "\u{252C}", "\u{2510}"));
    // header
    let mut hcells: Vec<String> = Vec::new();
    let mut i: usize = 0;
    while i < n
        invariant
            i <= n,
            n == headers@.len(),
            ws@.len() == n,
            wn == ws@.map_values(|w: usize| w as nat),
            hs == strs_of(headers@),
            views(hcells@) == Seq::new(i as nat, |j: int| header_cell(hs[j], wn[j])),
        decreases n - i,
    {
        let p = pad_to(headers[i], ws[i]);
        let mut cell = String::from_str(" \x1b[1m");
        cell.append(p.as_str());
        cell.append("\x1b[0m ");
        assert(hs[i as int] == headers@[i as int]@);
        let ghost before = views(hcells@);
        hcells.push(cell);
        assert(wn[i as int] == ws@[i as int] as nat);
        assert(views(hcells@) =~= before.push(header_cell(hs[i as int], wn[i as int])));
        assert(views(hcells@) =~= Seq::new((i + 1) as nat, |j: int| header_cell(hs[j], wn[j])));
        i += 1;
    }
    let hj = join_strings(&hcells, "\u{2502}");
    assert(hcells@.map_values(|s: String| s@) =~= Seq::new(hs.len(), |j: int| header_cell(hs[j], wn[j])));
    let mut header = cat("\u{2502}", hj.as_str());
    header.append("\u{2502}");
    out.push(header);
    out.push(rule_line(&ws, "\u{251C}", "\u{253C}", "\u{2524}"));
    // rows
    let mut k: usize = 0;
    while k < rows.len()
        invariant
            k <= rows@.len(),
            n == headers@.len(),
            ws@.len() == n,
            wn == ws@.map_values(|w: usize| w as nat),
            rv == rows_view(rows@),
            cs == strs_of(colors@),
            forall|j: int| 0 <= j < ws@.len() ==> ws@[j] <= isize::MAX,
            forall|q: int, d: int| 0 <= q < rows@.len() && 0 <= d < rows@[q]@.len() ==> byte_len(
                #[trigger] rows@[q]@[d]@,
            ) <= isize::MAX,
            views(out@) == seq![
                rule(wn, "\u{250C}"@, "\u{252C}"@, "\u{2510}"@),
                header_line(hs, wn),
                rule(wn, "\u{251C}"@, "\u{253C}"@, "\u{2524}"@),
            ] + rv.take(k as int).map_values(|r: Seq<Seq<char>>| row_line(r, cs, wn, n as nat)),
        decreases rows@.len() - k,
    {
        let row = &rows[k];
        let ghost rw = views(row@);
        assert(rv[k as int] == rw);
        let mut cells: Vec<String> = Vec::new();
        let mut c: usize = 0;
        while c < n
            invariant
                c <= n,
                ws@.len() == n,
                wn == ws@.map_values(|w: usize| w as nat),
                rw == views(row@),
                cs == strs_of(colors@),
                k < rows@.len(),
                *row == rows@[k as int],
                forall|q: int, d: int| 0 <= q < rows@.len() && 0 <= d < rows@[q]@.len() ==> byte_len(
                    #[trigger] rows@[q]@[d]@,
                ) <= isize::MAX,
                forall|j: int| 0 <= j < ws@.len() ==> ws@[j] <= isize::MAX,
                views(cells@) == Seq::new(c as nat, |j: int| body_cell(at_or_empty(rw, j), at_or_empty(cs, j), wn[j])),
            decreases n - c,
        {
            let cell: &str = if c < row.len() {
                row[c].as_str()
            } else {
                ""
            };
            let color: &str = if c < colors.len() {
                colors[c]
            } else {
                ""
            };
            proof {
                reveal_strlit("");
                if c < row@.len() {
                    assert(rw[c as int] == row@[c as int]@);
                }
                if c < colors@.len() {
                    assert(cs[c as int] == colors@[c as int]@);
                }
            }
            assert(cell@ == at_or_empty(rw, c as int));
            assert(byte_len(cell@) <= isize::MAX) by {
                if c < row@.len() {
                    assert(byte_len(rows@[k as int]@[c as int]@) <= isize::MAX);
                }
            }
            assert(color@ == at_or_empty(cs, c as int));
            let text = if color.is_empty() {
                let p = pad_to(cell, ws[c]);
                let mut t = cat(" ", p.as_str());
                t.append(" ");
                t
            } else {
                let l = cell.len();
                let gap = if ws[c] > l {
                    ws[c] - l
                } else {
                    0
                };
                let sp = repeat(" ", gap);
                let mut t = cat(" \x1b[", color);
                t.append("m");
                t.append(cell);
                t.append("\x1b[0m");
                t.append(sp.as_str());
                t.append(" ");
                t
            };
            let ghost before = views(cells@);
            cells.push(text);
            assert(wn[c as int] == ws@[c as int] as nat);
            assert(views(cells@) =~= before.push(body_cell(at_or_empty(rw, c as int), at_or_empty(cs, c as int), wn[c as int])));
            assert(views(cells@) =~= Seq::new((c + 1) as nat, |j: int| body_cell(at_or_empty(rw, j), at_or_empty(cs, j), wn[j])));
            c += 1;
        }
        let j = join_strings(&cells, "\u{2502}");
        assert(cells@.map_values(|s: String| s@) =~= Seq::new(n as nat, |q: int| body_cell(at_or_empty(rw, q), at_or_empty(cs, q), wn[q])));
        let mut line = cat("\u{2502}", j.as_str());
        line.append("\u{2502}");
        let ghost before = views(out@);
        out.push(line);
        assert(rv.take(k + 1) =~= rv.take(k as int).push(rw));
        assert(views(out@) =~= before.push(row_line(rw, cs, wn, n as nat)));
        assert(views(out@) =~= seq![
            rule(wn, "\u{250C}"@, "\u{252C}"@, "\u{2510}"@),
            header_line(hs, wn),
            rule(wn, "\u{251C}"@, "\u{253C}"@, "\u{2524}"@),
        ] + rv.take(k + 1).map_values(|r: Seq<Seq<char>>| row_line(r, cs, wn, n as nat)));
        k += 1;
    }
    out.push(rule_line(&ws, "\u{2514}", "\u{2534}", "\u{2518}"));
    assert(rv.take(rows@.len() as int) =~= rv);
    assert(views(out@) =~= table_spec(hs, rv, cs));
    out
}

} // verus!
