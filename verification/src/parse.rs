//! Reading text back: lines as `str::lines` yields them, and unsigned
//! numbers as `u32::from_str` reads them.
use vstd::prelude::*;

use crate::text::{chars_of, decimal, digit, first_line, first_newline, string_of};
use crate::vm::ssh::views;

verus! {

/// An ASCII decimal digit.
pub open spec fn is_digit(c: char) -> bool {
    '0' <= c && c <= '9'
}

/// The number written by the decimal digits `s` (leading zeros allowed).
pub open spec fn digits_value(s: Seq<char>) -> nat
    decreases s.len(),
{
    if s.len() == 0 {
        0
    } else {
        digits_value(s.drop_last()) * 10 + ((s.last() as int) - 48) as nat
    }
}

/// `s` is one or more decimal digits.
pub open spec fn all_digits(s: Seq<char>) -> bool {
    s.len() > 0 && forall|i: int| 0 <= i < s.len() ==> is_digit(#[trigger] s[i])
}

/// What `u32::from_str` reads: an optional `+`, then decimal digits whose
/// value fits in 32 bits; nothing else.
pub open spec fn parse_u32_spec(s: Seq<char>) -> Option<u32> {
    let body = if s.len() > 0 && s[0] == '+' {
        s.drop_first()
    } else {
        s
    };
    if all_digits(body) && digits_value(body) <= u32::MAX {
        Some(digits_value(body) as u32)
    } else {
        None
    }
}

/// The value of digits, or 2^32 once it would exceed `u32::MAX`.
pub open spec fn capped(s: Seq<char>) -> nat {
    if digits_value(s) > u32::MAX {
        0x1_0000_0000
    } else {
        digits_value(s)
    }
}

/// Reads an unsigned 32-bit number the way `str::parse::<u32>` does.
pub fn parse_u32(s: &str) -> (r: Option<u32>)
    ensures
        r == parse_u32_spec(s@),
{
    let v = chars_of(s);
    let start: usize = if v.len() > 0 && v[0] == '+' {
        1
    } else {
        0
    };
    let ghost body = if v@.len() > 0 && v@[0] == '+' {
        v@.drop_first()
    } else {
        v@
    };
    assert(body =~= v@.subrange(start as int, v.len() as int));
    if start >= v.len() {
        return None;
    }
    let mut acc: u64 = 0;
    let mut i: usize = start;
    assert(body.take(0) =~= Seq::<char>::empty());
    while i < v.len()
        invariant
            start <= i <= v.len(),
            v@ == s@,
            body == (if v@.len() > 0 && v@[0] == '+' {
                v@.drop_first()
            } else {
                v@
            }),
            body == v@.subrange(start as int, v.len() as int),
            acc as nat == capped(body.take(i - start)),
            forall|k: int| 0 <= k < i - start ==> is_digit(#[trigger] body[k]),
        decreases v.len() - i,
    {
        let c = v[i];
        if c < '0' || c > '9' {
            assert(body[i - start] == c);
            return None;
        }
        let d: u64 = (c as u32 - 48) as u64;
        let ghost pre = body.take(i - start);
        assert(body.take(i - start + 1) =~= pre.push(c));
        assert(pre.push(c).drop_last() =~= pre);
        assert(digits_value(pre.push(c)) == digits_value(pre) * 10 + d);
        if acc > 0xFFFF_FFFF {
            acc = 0x1_0000_0000;
        } else {
            let n = acc * 10 + d;
            acc = if n > 0xFFFF_FFFF {
                0x1_0000_0000
            } else {
                n
            };
        }
        i += 1;
    }
    assert(body.take(v.len() - start) =~= body);
    if acc > 0xFFFF_FFFF {
        None
    } else {
        Some(acc as u32)
    }
}

/// The digits of a number's decimal form read back give the number.
pub proof fn lemma_decimal_digits(n: nat)
    ensures
        all_digits(decimal(n)),
        digits_value(decimal(n)) == n,
        decimal(n)[0] != '+',
    decreases n,
{
    assert(digit(n % 10) as int == n % 10 + 48);
    if n < 10 {
        assert(decimal(n) == seq![digit(n)]);
        assert(decimal(n).drop_last() =~= Seq::<char>::empty());
        assert(n % 10 == n);
        assert(digits_value(decimal(n)) == digits_value(decimal(n).drop_last()) * 10 + ((decimal(n).last() as int) - 48) as nat);
    } else {
        lemma_decimal_digits(n / 10);
        let a = decimal(n / 10);
        let s = decimal(n);
        assert(s == a + seq![digit(n % 10)]);
        assert(s.drop_last() =~= a);
        assert(s.last() == digit(n % 10));
        assert(digits_value(s) == digits_value(s.drop_last()) * 10 + ((s.last() as int) - 48) as nat);
        assert forall|i: int| 0 <= i < s.len() implies is_digit(#[trigger] s[i]) by {
            if i < a.len() {
                assert(s[i] == a[i]);
            }
        }
        assert(s[0] == a[0]);
        assert((n / 10) * 10 + n % 10 == n) by (nonlinear_arith);
    }
}

/// `u32::from_str` reads back the decimal form of any `u32`.
pub proof fn law_parse_decimal(n: u32)
    ensures
        parse_u32_spec(decimal(n as nat)) == Some(n),
{
    lemma_decimal_digits(n as nat);
}

// ---------------------------------------------------------------------------
// lines
// ---------------------------------------------------------------------------

proof fn lemma_first_newline_range(s: Seq<char>)
    ensures
        0 <= first_newline(s) <= s.len(),
        first_newline(s) < s.len() ==> s[first_newline(s)] == '\n',
        forall|k: int| 0 <= k < first_newline(s) ==> #[trigger] s[k] != '\n',
    decreases s.len(),
{
    if s.len() > 0 && s[0] != '\n' {
        lemma_first_newline_range(s.drop_first());
        let t = s.drop_first();
        assert forall|k: int| 0 <= k < first_newline(s) implies #[trigger] s[k] != '\n' by {
            if k > 0 {
                assert(s[k] == t[k - 1]);
            }
        }
    }
}

/// The lines of `s` as `str::lines` yields them: split after each `'\n'`,
/// a `'\r'` before that `'\n'` dropped, no empty line after a final `'\n'`.
pub open spec fn lines_of(s: Seq<char>) -> Seq<Seq<char>>
    decreases s.len(),
{
    if s.len() == 0 {
        Seq::empty()
    } else {
        let n = first_newline(s);
        if 0 <= n < s.len() {
            seq![first_line(s)->0] + lines_of(s.subrange(n + 1, s.len() as int))
        } else {
            seq![s]
        }
    }
}

/// The lines of a text, as `str::lines` yields them.
pub fn lines(s: &str) -> (r: Vec<String>)
    ensures
        views(r@) == lines_of(s@),
{
    let v = chars_of(s);
    let mut out: Vec<String> = Vec::new();
    let mut j: usize = 0;
    assert(v@.subrange(0, v.len() as int) =~= v@);
    while j < v.len()
        invariant
            j <= v.len(),
            v@ == s@,
            views(out@) + lines_of(v@.subrange(j as int, v.len() as int)) == lines_of(v@),
        decreases v.len() - j,
    {
        let ghost rest = v@.subrange(j as int, v.len() as int);
        let mut n: usize = j;
        while n < v.len() && v[n] != '\n'
            invariant
                j <= n <= v.len(),
                forall|k: int| j <= k < n ==> #[trigger] v@[k] != '\n',
            decreases v.len() - n,
        {
            n += 1;
        }
        proof {
            lemma_first_newline_range(rest);
            assert forall|k: int| 0 <= k < n - j implies #[trigger] rest[k] != '\n' by {
                assert(rest[k] == v@[k + j]);
            }
            if n < v.len() {
                assert(rest[n - j] == v@[n as int]);
            }
            if first_newline(rest) < n - j {
                assert(rest[first_newline(rest)] == v@[first_newline(rest) + j]);
            }
            if first_newline(rest) > n - j {
                assert(rest[n - j] == v@[n as int]);
            }
        }
        assert(first_newline(rest) == n - j);
        let mut end = n;
        if n < v.len() && n > j && v[n - 1] == '\r' {
            end = n - 1;
        }
        let mut line: Vec<char> = Vec::new();
        let mut i: usize = j;
        while i < end
            invariant
                j <= i <= end <= n <= v.len(),
                line@ == v@.subrange(j as int, i as int),
            decreases end - i,
        {
            line.push(v[i]);
            assert(v@.subrange(j as int, i + 1) == v@.subrange(j as int, i as int).push(v@[i as int]));
            i += 1;
        }
        let ghost before = views(out@);
        let text = string_of(&line);
        out.push(text);
        assert(views(out@) =~= before.push(line@));
        if n < v.len() {
            assert(rest.subrange(0, n - j) =~= v@.subrange(j as int, n as int));
            if n > j && v[n - 1] == '\r' {
                assert(line@ =~= rest.subrange(0, n - j).drop_last());
            } else {
                assert(line@ =~= rest.subrange(0, n - j));
            }
            assert(rest.subrange(n - j + 1, rest.len() as int) =~= v@.subrange(n + 1, v.len() as int));
            assert(lines_of(rest) == seq![line@] + lines_of(v@.subrange(n + 1, v.len() as int)));
            assert(views(out@) + lines_of(v@.subrange(n + 1, v.len() as int)) =~= before + lines_of(rest));
            j = n + 1;
        } else {
            assert(line@ =~= rest);
            assert(lines_of(rest) == seq![rest]);
            assert(v@.subrange(v.len() as int, v.len() as int) =~= Seq::<char>::empty());
            assert(views(out@) + lines_of(v@.subrange(v.len() as int, v.len() as int)) =~= before + lines_of(rest));
            j = v.len();
        }
    }
    assert(v@.subrange(j as int, v.len() as int) =~= Seq::<char>::empty());
    assert(views(out@) =~= views(out@) + lines_of(Seq::<char>::empty()));
    out
}

} // verus!
