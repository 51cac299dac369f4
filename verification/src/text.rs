//! Character-level helpers: every text decision of the library is made on
//! `Seq<char>` models, and these functions move between `str`/`String` and
//! vectors of characters.
use vstd::prelude::*;

verus! {

/// Appends one character to a `String` (std's `String::push`).
#[verifier::external_body]
fn string_push(s: &mut String, c: char)
    ensures
        final(s)@ == old(s)@.push(c),
{
    s.push(c);
}

/// The characters of a string slice, in order.
pub fn chars_of(s: &str) -> (v: Vec<char>)
    ensures
        v@ == s@,
{
    let mut v: Vec<char> = Vec::new();
    for c in it: s.chars()
        invariant
            v@ == it.seq().take(it.index() as int),
            it.seq() == s@,
    {
        v.push(c);
    }
    v
}

/// A `String` holding exactly the given characters.
pub fn string_of(v: &Vec<char>) -> (s: String)
    ensures
        s@ == v@,
{
    let mut s = String::new();
    let mut i: usize = 0;
    while i < v.len()
        invariant
            i <= v.len(),
            s@ == v@.take(i as int),
        decreases v.len() - i,
    {
        string_push(&mut s, v[i]);
        assert(v@.take(i + 1) == v@.take(i as int).push(v@[i as int]));
        i += 1;
    }
    assert(v@.take(v.len() as int) == v@);
    s
}


/// `needle` occurs in `hay` as a contiguous run of characters.
pub open spec fn seq_contains(hay: Seq<char>, needle: Seq<char>) -> bool {
    exists|i: int| 0 <= i && i + needle.len() <= hay.len() && #[trigger] hay.subrange(i, i + needle.len()) == needle
}

/// `needle` occurs in `hay` starting at position `i`.
pub open spec fn occurs_at(hay: Seq<char>, needle: Seq<char>, i: int) -> bool {
    0 <= i && i + needle.len() <= hay.len() && hay.subrange(i, i + needle.len()) == needle
}

fn occurs_at_exec(hay: &Vec<char>, needle: &Vec<char>, i: usize) -> (b: bool)
    requires
        i + needle.len() <= hay.len(),
    ensures
        b == occurs_at(hay@, needle@, i as int),
{
    let mut j: usize = 0;
    while j < needle.len()
        invariant
            i + needle.len() <= hay.len(),
            j <= needle.len(),
            forall|k: int| 0 <= k < j ==> hay@[i + k] == needle@[k],
        decreases needle.len() - j,
    {
        if hay[i + j] != needle[j] {
            assert(hay@.subrange(i as int, i + needle.len())[j as int] != needle@[j as int]);
            return false;
        }
        j += 1;
    }
    assert(hay@.subrange(i as int, i + needle.len()) =~= needle@);
    true
}

/// Whether `needle` occurs in `hay`.
pub fn contains(hay: &Vec<char>, needle: &Vec<char>) -> (b: bool)
    ensures
        b == seq_contains(hay@, needle@),
{
    if needle.len() == 0 {
        assert(hay@.subrange(0int, 0int + needle@.len()) =~= needle@);
        return true;
    }
    if needle.len() > hay.len() {
        return false;
    }
    let last = hay.len() - needle.len();
    let mut i: usize = 0;
    while i <= last
        invariant
            last + needle.len() == hay.len(),
            needle.len() > 0,
            i <= last + 1,
            forall|k: int| 0 <= k < i ==> !occurs_at(hay@, needle@, k),
        decreases last + 1 - i,
    {
        if occurs_at_exec(hay, needle, i) {
            assert(occurs_at(hay@, needle@, i as int));
            return true;
        }
        i += 1;
    }
    assert forall|k: int| 0 <= k && k + needle@.len() <= hay@.len()
        implies #[trigger] hay@.subrange(k, k + needle@.len()) != needle@ by {
        assert(!occurs_at(hay@, needle@, k));
    }
    false
}

/// Whether `needle` occurs in the string `hay`.
pub fn str_contains(hay: &str, needle: &str) -> (b: bool)
    ensures
        b == seq_contains(hay@, needle@),
{
    let h = chars_of(hay);
    let n = chars_of(needle);
    contains(&h, &n)
}

/// Character-wise equality of two strings.
pub fn str_eq(a: &str, b: &str) -> (r: bool)
    ensures
        r == (a@ == b@),
{
    let x = chars_of(a);
    let y = chars_of(b);
    if x.len() != y.len() {
        return false;
    }
    let mut i: usize = 0;
    while i < x.len()
        invariant
            x.len() == y.len(),
            x@ == a@,
            y@ == b@,
            i <= x.len(),
            forall|k: int| 0 <= k < i ==> x@[k] == y@[k],
        decreases x.len() - i,
    {
        if x[i] != y[i] {
            assert(x@[i as int] != y@[i as int]);
            return false;
        }
        i += 1;
    }
    assert(x@ =~= y@);
    true
}

/// Unicode `White_Space`, the property that `char::is_whitespace` and
/// `str::trim` use.
pub open spec fn is_space(c: char) -> bool {
    ||| ('\t' <= c && c <= '\r')
    ||| c == ' '
    ||| c == '\u{85}'
    ||| c == '\u{A0}'
    ||| c == '\u{1680}'
    ||| ('\u{2000}' <= c && c <= '\u{200A}')
    ||| c == '\u{2028}'
    ||| c == '\u{2029}'
    ||| c == '\u{202F}'
    ||| c == '\u{205F}'
    ||| c == '\u{3000}'
}

pub fn is_space_exec(c: char) -> (b: bool)
    ensures
        b == is_space(c),
{
    ('\t' <= c && c <= '\r') || c == ' ' || c == '\u{85}' || c == '\u{A0}' || c == '\u{1680}'
        || ('\u{2000}' <= c && c <= '\u{200A}') || c == '\u{2028}' || c == '\u{2029}'
        || c == '\u{202F}' || c == '\u{205F}' || c == '\u{3000}'
}

/// Number of leading white-space characters.
pub open spec fn lead_space(s: Seq<char>) -> nat
    decreases s.len(),
{
    if s.len() > 0 && is_space(s[0]) {
        1 + lead_space(s.drop_first())
    } else {
        0
    }
}

/// Number of trailing white-space characters.
pub open spec fn trail_space(s: Seq<char>) -> nat
    decreases s.len(),
{
    if s.len() > 0 && is_space(s.last()) {
        1 + trail_space(s.drop_last())
    } else {
        0
    }
}

/// `s` without leading and trailing white space (`str::trim`).
pub open spec fn trim(s: Seq<char>) -> Seq<char> {
    let t = s.subrange(lead_space(s) as int, s.len() as int);
    t.subrange(0, t.len() - trail_space(t))
}

proof fn lemma_lead_space_bound(s: Seq<char>)
    ensures
        lead_space(s) <= s.len(),
        forall|k: int| 0 <= k < lead_space(s) ==> is_space(#[trigger] s[k]),
        lead_space(s) < s.len() ==> !is_space(s[lead_space(s) as int]),
    decreases s.len(),
{
    if s.len() > 0 && is_space(s[0]) {
        lemma_lead_space_bound(s.drop_first());
        assert forall|k: int| 0 <= k < lead_space(s) implies is_space(#[trigger] s[k]) by {
            if k > 0 {
                assert(s[k] == s.drop_first()[k - 1]);
            }
        }
    }
}

proof fn lemma_lead_space_step(s: Seq<char>, i: int)
    requires
        0 <= i <= s.len(),
        forall|k: int| 0 <= k < i ==> is_space(#[trigger] s[k]),
    ensures
        i == s.len() || !is_space(s[i]) ==> lead_space(s) == i,
    decreases i,
{
    if i > 0 {
        assert(is_space(s[0]));
        let t = s.drop_first();
        assert forall|k: int| 0 <= k < i - 1 implies is_space(#[trigger] t[k]) by {
            assert(t[k] == s[k + 1]);
        }
        lemma_lead_space_step(t, i - 1);
    } else {
        assert(i == s.len() || !is_space(s[0]) ==> lead_space(s) == 0);
    }
}

proof fn lemma_trail_space_step(s: Seq<char>, n: int)
    requires
        0 <= n <= s.len(),
        forall|k: int| s.len() - n <= k < s.len() ==> is_space(#[trigger] s[k]),
    ensures
        n == s.len() || !is_space(s[s.len() - n - 1]) ==> trail_space(s) == n,
    decreases n,
{
    if n > 0 {
        assert(is_space(s.last()));
        let t = s.drop_last();
        assert forall|k: int| t.len() - (n - 1) <= k < t.len() implies is_space(#[trigger] t[k]) by {
            assert(t[k] == s[k]);
        }
        lemma_trail_space_step(t, n - 1);
        if n - 1 < t.len() {
            assert(t[t.len() - (n - 1) - 1] == s[s.len() - n - 1]);
        }
    }
}

/// A text that neither starts nor ends with white space is its own trim.
pub proof fn lemma_trim_unspaced(s: Seq<char>)
    requires
        s.len() > 0,
        !is_space(s[0]),
        !is_space(s.last()),
    ensures
        trim(s) == s,
{
    assert(lead_space(s) == 0);
    let t = s.subrange(0, s.len() as int);
    assert(t =~= s);
    assert(trail_space(t) == 0);
    assert(t.subrange(0, t.len() as int) =~= s);
}

proof fn lemma_trail_space_bound(s: Seq<char>)
    ensures
        trail_space(s) <= s.len(),
        forall|k: int| s.len() - trail_space(s) <= k < s.len() ==> is_space(#[trigger] s[k]),
    decreases s.len(),
{
    if s.len() > 0 && is_space(s.last()) {
        let t = s.drop_last();
        lemma_trail_space_bound(t);
        assert forall|k: int| s.len() - trail_space(s) <= k < s.len() implies is_space(#[trigger] s[k]) by {
            if k < s.len() - 1 {
                assert(s[k] == t[k]);
            }
        }
    }
}

/// A text trims to nothing exactly when every character of it is white
/// space.
pub proof fn lemma_trim_blank(s: Seq<char>)
    ensures
        trim(s).len() == 0 <==> (forall|i: int| 0 <= i < s.len() ==> is_space(#[trigger] s[i])),
{
    lemma_lead_space_bound(s);
    if forall|i: int| 0 <= i < s.len() ==> is_space(#[trigger] s[i]) {
        lemma_lead_space_step(s, s.len() as int);
    } else {
        let i = choose|i: int| 0 <= i < s.len() && !is_space(#[trigger] s[i]);
        let l = lead_space(s) as int;
        assert(l <= i);
        let t = s.subrange(l, s.len() as int);
        lemma_trail_space_bound(t);
        assert(t[0] == s[l]);
        if trail_space(t) == t.len() {
            assert(is_space(t[0]));
        }
        assert(trim(s).len() == t.len() - trail_space(t));
    }
}

/// `str::trim` on a character vector.
pub fn trim_chars(v: &Vec<char>) -> (r: Vec<char>)
    ensures
        r@ == trim(v@),
{
    let mut a: usize = 0;
    while a < v.len() && is_space_exec(v[a])
        invariant
            a <= v.len(),
            forall|k: int| 0 <= k < a ==> is_space(#[trigger] v@[k]),
        decreases v.len() - a,
    {
        a += 1;
    }
    proof {
        lemma_lead_space_step(v@, a as int);
    }
    let mut b: usize = v.len();
    while b > a && is_space_exec(v[b - 1])
        invariant
            a <= b <= v.len(),
            forall|k: int| b <= k < v.len() ==> is_space(#[trigger] v@[k]),
        decreases b,
    {
        b -= 1;
    }
    let ghost t = v@.subrange(a as int, v.len() as int);
    proof {
        let n = v.len() - b;
        assert forall|k: int| t.len() - n <= k < t.len() implies is_space(#[trigger] t[k]) by {
            assert(t[k] == v@[k + a]);
        }
        if n < t.len() {
            assert(t[t.len() - n - 1] == v@[b - 1]);
        }
        lemma_trail_space_step(t, n as int);
    }
    let mut r: Vec<char> = Vec::new();
    let mut i: usize = a;
    while i < b
        invariant
            a <= i <= b <= v.len(),
            r@ == v@.subrange(a as int, i as int),
        decreases b - i,
    {
        r.push(v[i]);
        assert(v@.subrange(a as int, i + 1) == v@.subrange(a as int, i as int).push(v@[i as int]));
        i += 1;
    }
    assert(r@ =~= trim(v@));
    r
}

/// `str::trim`, returned as an owned string.
pub fn trim_str(s: &str) -> (r: String)
    ensures
        r@ == trim(s@),
{
    let v = chars_of(s);
    let t = trim_chars(&v);
    string_of(&t)
}

/// Index of the first `'\n'` in `s`, or `s.len()` when there is none.
pub open spec fn first_newline(s: Seq<char>) -> int
    decreases s.len(),
{
    if s.len() == 0 {
        0
    } else if s[0] == '\n' {
        0
    } else {
        1 + first_newline(s.drop_first())
    }
}

/// Where the first `'\n'` is, from a position that holds one with none before.
pub proof fn lemma_first_newline(s: Seq<char>, i: int)
    requires
        0 <= i <= s.len(),
        forall|k: int| 0 <= k < i ==> #[trigger] s[k] != '\n',
        i == s.len() || s[i] == '\n',
    ensures
        first_newline(s) == i,
    decreases i,
{
    if i > 0 {
        let t = s.drop_first();
        assert forall|k: int| 0 <= k < i - 1 implies #[trigger] t[k] != '\n' by {
            assert(t[k] == s[k + 1]);
        }
        assert(s[0] != '\n');
        lemma_first_newline(t, i - 1);
    }
}

/// The first item of `str::lines`: `None` for the empty string; otherwise
/// the text before the first `'\n'`, without a `'\r'` that ends it when a
/// `'\n'` follows.
pub open spec fn first_line(s: Seq<char>) -> Option<Seq<char>> {
    if s.len() == 0 {
        None
    } else {
        let n = first_newline(s);
        let line = s.subrange(0, n);
        if n < s.len() && line.len() > 0 && line.last() == '\r' {
            Some(line.drop_last())
        } else {
            Some(line)
        }
    }
}

/// The first line of `s` as `str::lines().next()` yields it.
pub fn first_line_chars(s: &Vec<char>) -> (r: Option<Vec<char>>)
    ensures
        r matches Some(l) ==> first_line(s@) == Some(l@),
        r is None <==> first_line(s@) is None,
{
    if s.len() == 0 {
        return None;
    }
    let mut n: usize = 0;
    while n < s.len() && s[n] != '\n'
        invariant
            n <= s.len(),
            forall|k: int| 0 <= k < n ==> #[trigger] s@[k] != '\n',
        decreases s.len() - n,
    {
        n += 1;
    }
    proof {
        lemma_first_newline(s@, n as int);
    }
    let mut end = n;
    if n < s.len() && n > 0 && s[n - 1] == '\r' {
        end = n - 1;
    }
    let mut line: Vec<char> = Vec::new();
    let mut i: usize = 0;
    while i < end
        invariant
            end <= n <= s.len(),
            i <= end,
            line@ == s@.subrange(0, i as int),
        decreases end - i,
    {
        line.push(s[i]);
        assert(s@.subrange(0, i + 1) == s@.subrange(0, i as int).push(s@[i as int]));
        i += 1;
    }
    assert(line@ =~= first_line(s@)->0);
    Some(line)
}

/// Number of `'\n'` characters in `s`.
pub open spec fn newline_count(s: Seq<char>) -> nat
    decreases s.len(),
{
    if s.len() == 0 {
        0
    } else {
        newline_count(s.drop_last()) + if s.last() == '\n' { 1nat } else { 0nat }
    }
}

/// `str::lines().count()`: one line per `'\n'`, plus a last line that has no
/// `'\n'` after it.
pub open spec fn line_count(s: Seq<char>) -> nat {
    if s.len() == 0 {
        0
    } else if s.last() == '\n' {
        newline_count(s)
    } else {
        newline_count(s) + 1
    }
}

proof fn lemma_newline_count_bound(s: Seq<char>)
    ensures
        newline_count(s) <= s.len(),
    decreases s.len(),
{
    if s.len() > 0 {
        lemma_newline_count_bound(s.drop_last());
    }
}

/// Counts lines the way `str::lines().count()` does.
pub fn count_lines(s: &str) -> (n: usize)
    ensures
        n == line_count(s@),
{
    let v = chars_of(s);
    let mut i: usize = 0;
    let mut n: usize = 0;
    while i < v.len()
        invariant
            i <= v.len(),
            n == newline_count(v@.take(i as int)),
            n <= i,
        decreases v.len() - i,
    {
        assert(v@.take(i + 1).drop_last() == v@.take(i as int));
        if v[i] == '\n' {
            n += 1;
        }
        i += 1;
    }
    assert(v@.take(v.len() as int) == v@);
    if v.len() > 0 && v[v.len() - 1] != '\n' {
        proof {
            lemma_newline_count_bound(v@.drop_last());
        }
        n + 1
    } else {
        n
    }
}

/// `char::to_ascii_lowercase`.
pub open spec fn ascii_lower(c: char) -> char {
    if 'A' <= c && c <= 'Z' {
        ((c as u32) + 32) as char
    } else {
        c
    }
}

/// `str::to_ascii_lowercase` on a character vector.
pub fn ascii_lower_chars(v: &Vec<char>) -> (r: Vec<char>)
    ensures
        r@ == v@.map_values(|c: char| ascii_lower(c)),
{
    let mut r: Vec<char> = Vec::new();
    let mut i: usize = 0;
    while i < v.len()
        invariant
            i <= v.len(),
            r@ == v@.take(i as int).map_values(|c: char| ascii_lower(c)),
        decreases v.len() - i,
    {
        let c = v[i];
        let l = if 'A' <= c && c <= 'Z' {
            let b: u8 = c as u8;
            assert(b as u32 == c as u32);
            (b + 32) as char
        } else {
            c
        };
        r.push(l);
        assert(v@.take(i + 1).map_values(|c: char| ascii_lower(c)) =~= v@.take(
            i as int,
        ).map_values(|c: char| ascii_lower(c)).push(ascii_lower(c)));
        i += 1;
    }
    assert(v@.take(v.len() as int) == v@);
    r
}


/// The decimal digit of `d < 10`.
pub open spec fn digit(d: nat) -> char {
    (d + 48) as char
}

/// The decimal representation of a natural number, without leading zeros.
pub open spec fn decimal(n: nat) -> Seq<char>
    decreases n,
{
    if n < 10 {
        seq![digit(n)]
    } else {
        decimal(n / 10) + seq![digit(n % 10)]
    }
}

/// The decimal representation of an integer, `-` before a negative one.
pub open spec fn decimal_int(n: int) -> Seq<char> {
    if n < 0 {
        seq!['-'] + decimal((-n) as nat)
    } else {
        decimal(n as nat)
    }
}

fn digit_char(d: u64) -> (c: char)
    requires
        d < 10,
    ensures
        c == digit(d as nat),
{
    let b: u8 = d as u8;
    (b + 48) as char
}

/// Decimal text of an unsigned number (what `to_string` prints).
pub fn u64_to_decimal(n: u64) -> (s: String)
    ensures
        s@ == decimal(n as nat),
{
    // digits from least to most significant
    let mut rev: Vec<char> = Vec::new();
    let mut m: u64 = n;
    let ghost mut tail: Seq<char> = Seq::empty();
    assert(decimal(n as nat) =~= decimal(m as nat) + tail);
    while m >= 10
        invariant
            decimal(n as nat) == decimal(m as nat) + tail,
            rev@.len() == tail.len(),
            forall|i: int| 0 <= i < tail.len() ==> rev@[i] == tail[tail.len() - 1 - i],
        decreases m,
    {
        let d = m % 10;
        rev.push(digit_char(d));
        proof {
            assert(decimal(m as nat) == decimal((m / 10) as nat) + seq![digit((m % 10) as nat)]);
            assert(decimal(n as nat) =~= decimal((m / 10) as nat) + (seq![digit(d as nat)] + tail));
            tail = seq![digit(d as nat)] + tail;
        }
        m = m / 10;
    }
    rev.push(digit_char(m));
    proof {
        assert(decimal(m as nat) == seq![digit(m as nat)]);
        tail = seq![digit(m as nat)] + tail;
    }
    assert(decimal(n as nat) =~= tail);
    let mut out: Vec<char> = Vec::new();
    let mut i: usize = rev.len();
    while i > 0
        invariant
            i <= rev.len(),
            rev@.len() == tail.len(),
            forall|k: int| 0 <= k < tail.len() ==> rev@[k] == tail[tail.len() - 1 - k],
            out@ == tail.take(tail.len() - i),
        decreases i,
    {
        i -= 1;
        out.push(rev[i]);
        assert(out@ =~= tail.take(tail.len() - i));
    }
    assert(tail.take(tail.len() as int) =~= tail);
    string_of(&out)
}

/// Decimal text of a signed number (what `to_string` prints).
pub fn i64_to_decimal(n: i64) -> (s: String)
    ensures
        s@ == decimal_int(n as int),
{
    if n < 0 {
        let m: u64 = if n == i64::MIN {
            9223372036854775808u64
        } else {
            (-n) as u64
        };
        assert(m as int == -(n as int));
        let mut r = String::from_str("-");
        proof {
            reveal_strlit("-");
        }
        let d = u64_to_decimal(m);
        r.append(d.as_str());
        r
    } else {
        u64_to_decimal(n as u64)
    }
}

/// `a; b; …` — the parts joined with `sep`.
pub open spec fn join(parts: Seq<Seq<char>>, sep: Seq<char>) -> Seq<char>
    decreases parts.len(),
{
    if parts.len() == 0 {
        Seq::empty()
    } else if parts.len() == 1 {
        parts[0]
    } else {
        join(parts.drop_last(), sep) + sep + parts.last()
    }
}

/// Joins strings with a separator.
pub fn join_strings(parts: &Vec<String>, sep: &str) -> (r: String)
    ensures
        r@ == join(parts@.map_values(|s: String| s@), sep@),
{
    let mut r = String::new();
    let mut i: usize = 0;
    while i < parts.len()
        invariant
            i <= parts.len(),
            r@ == join(parts@.map_values(|s: String| s@).take(i as int), sep@),
        decreases parts.len() - i,
    {
        assert(parts@.map_values(|s: String| s@).take(i + 1).drop_last() =~= parts@.map_values(|s: String| s@).take(i as int));
        if i > 0 {
            r.append(sep);
        }
        r.append(parts[i].as_str());
        proof {
            if i == 0 {
                assert(parts@.map_values(|s: String| s@).take(1) =~= seq![parts@[0]@]);
            }
        }
        i += 1;
    }
    assert(parts@.map_values(|s: String| s@).take(parts.len() as int) =~= parts@.map_values(|s: String| s@));
    r
}

/// `a` followed by `b`.
pub fn cat(a: &str, b: &str) -> (r: String)
    ensures
        r@ == a@ + b@,
{
    let mut r = String::from_str(a);
    r.append(b);
    r
}

/// `a`, `b` and `c`, one after another.
pub fn cat3(a: &str, b: &str, c: &str) -> (r: String)
    ensures
        r@ == a@ + b@ + c@,
{
    let mut r = String::from_str(a);
    r.append(b);
    r.append(c);
    r
}

/// `a`, `b`, `c` and `d`, one after another.
pub fn cat4(a: &str, b: &str, c: &str, d: &str) -> (r: String)
    ensures
        r@ == a@ + b@ + c@ + d@,
{
    let mut r = String::from_str(a);
    r.append(b);
    r.append(c);
    r.append(d);
    r
}

/// `a` to `e`, one after another.
pub fn cat5(a: &str, b: &str, c: &str, d: &str, e: &str) -> (r: String)
    ensures
        r@ == a@ + b@ + c@ + d@ + e@,
{
    let mut r = String::from_str(a);
    r.append(b);
    r.append(c);
    r.append(d);
    r.append(e);
    r
}

} // verus!
