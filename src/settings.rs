//! Settings read at startup: the admission ceiling and the user-agent list.
use crate::state::DEFAULT_LIMIT;
use crate::text::{chars_of, is_space, is_space_char};
use vstd::prelude::*;

verus! {

/// An ASCII decimal digit.
pub open spec fn is_digit(c: char) -> bool {
    '0' <= c <= '9'
}

/// The number that a run of decimal digits writes.
pub open spec fn digits_value(s: Seq<char>) -> int
    decreases s.len(),
{
    if s.len() == 0 {
        0
    } else {
        10 * digits_value(s.drop_last()) + (s.last() as int - '0' as int)
    }
}

/// Every character of `s` is a decimal digit.
pub open spec fn all_digits(s: Seq<char>) -> bool {
    forall|i: int| 0 <= i < s.len() ==> is_digit(#[trigger] s[i])
}

/// `s` begins with a sign.
pub open spec fn has_sign(s: Seq<char>) -> bool {
    s.len() > 0 && (s[0] == '-' || s[0] == '+')
}

/// `s` without its sign, if it has one.
pub open spec fn unsigned_part(s: Seq<char>) -> Seq<char> {
    if has_sign(s) {
        s.drop_first()
    } else {
        s
    }
}

/// The integer that `s` writes in decimal, with an optional leading `+` or
/// `-` and at least one digit; `None` for any other text.
pub open spec fn decimal_value(s: Seq<char>) -> Option<int> {
    let body = unsigned_part(s);
    if body.len() > 0 && all_digits(body) {
        Some(
            if s[0] == '-' {
                -digits_value(body)
            } else {
                digits_value(body)
            },
        )
    } else {
        None
    }
}

/// `s` read as an `i64` the way `str::parse::<i64>` reads it: `None` where
/// the text is no decimal integer or the value does not fit.
pub open spec fn i64_of(s: Seq<char>) -> Option<int> {
    match decimal_value(s) {
        Some(v) => if i64::MIN <= v <= i64::MAX {
            Some(v)
        } else {
            None
        },
        None => None,
    }
}

proof fn lemma_digits_nonneg(s: Seq<char>)
    requires
        forall|i: int| 0 <= i < s.len() ==> is_digit(#[trigger] s[i]),
    ensures
        digits_value(s) >= 0,
    decreases s.len(),
{
    if s.len() > 0 {
        lemma_digits_nonneg(s.drop_last());
    }
}

/// Reads a decimal `i64`, with an optional sign.
pub fn parse_i64(text: &str) -> (r: Option<i64>)
    ensures
        r matches Some(v) ==> i64_of(text@) == Some(v as int),
        r is None ==> i64_of(text@) is None,
{
    let s = chars_of(text);
    let n = s.len();
    let signed = n > 0 && (s[0] == '-' || s[0] == '+');
    let negative = n > 0 && s[0] == '-';
    let start: usize = if signed {
        1
    } else {
        0
    };
    let ghost body = if signed {
        s@.drop_first()
    } else {
        s@
    };
    assert(signed == (text@.len() > 0 && (text@[0] == '-' || text@[0] == '+')));
    assert(body == s@.subrange(start as int, n as int));
    assert(body == unsigned_part(text@));
    if start >= n {
        return None;
    }
    let bound: u64 = 9223372036854775808;
    let mut acc: u64 = 0;
    let mut over = false;
    let mut i: usize = start;
    while i < n
        invariant
            s@ == text@,
            n == s@.len(),
            start <= i <= n,
            body == s@.subrange(start as int, n as int),
            body == unsigned_part(text@),
            bound == 9223372036854775808u64,
            forall|j: int| 0 <= j < i - start ==> is_digit(#[trigger] body[j]),
            !over ==> acc == digits_value(body.take(i - start)) && 0 <= acc <= bound,
            over ==> digits_value(body.take(i - start)) > bound,
        decreases n - i,
    {
        let c = s[i];
        assert(body[i - start] == c);
        if !('0' <= c && c <= '9') {
            assert(!is_digit(body[i - start]));
            return None;
        }
        let ghost k = i - start;
        assert(c as int >= '0' as int);
        assert(body.take(k + 1).drop_last() == body.take(k));
        assert(body.take(k + 1).last() == c);
        proof {
            lemma_digits_nonneg(body.take(k));
        }
        assert(digits_value(body.take(k + 1)) == 10 * digits_value(body.take(k)) + (c as int
            - '0' as int));
        if !over {
            let d = (c as u32 - '0' as u32) as u64;
            assert(d as int == c as int - '0' as int);
            if acc > 922337203685477580 {
                over = true;
            } else {
                let next = acc * 10 + d;
                if next > bound {
                    over = true;
                } else {
                    acc = next;
                }
            }
        }
        i = i + 1;
    }
    assert(body.take(n - start) == body);
    proof {
        lemma_digits_nonneg(body);
    }
    if over {
        return None;
    }
    if negative {
        if acc == bound {
            Some(i64::MIN)
        } else {
            Some(-(acc as i64))
        }
    } else if acc < bound {
        Some(acc as i64)
    } else {
        None
    }
}

/// The admission ceiling: the setting read as an `i64`, or the default
/// where it is missing or unreadable.
pub fn limit_from_setting(setting: Option<&str>) -> (r: i64)
    ensures
        r == match setting {
            Some(s) => match i64_of(s@) {
                Some(v) => v,
                None => DEFAULT_LIMIT as int,
            },
            None => DEFAULT_LIMIT as int,
        },
{
    match setting {
        Some(s) => match parse_i64(s) {
            Some(v) => v,
            None => DEFAULT_LIMIT,
        },
        None => DEFAULT_LIMIT,
    }
}

/// Every character of `p` is whitespace.
pub open spec fn is_blank(p: Seq<char>) -> bool {
    forall|i: int| 0 <= i < p.len() ==> is_space(#[trigger] p[i])
}

/// `p` without one trailing carriage return.
pub open spec fn without_cr(p: Seq<char>) -> Seq<char> {
    if p.len() > 0 && p.last() == '\r' {
        p.drop_last()
    } else {
        p
    }
}

/// The line `p`, unless it is blank.
pub open spec fn kept(p: Seq<char>) -> Seq<Seq<char>> {
    if is_blank(p) {
        seq![]
    } else {
        seq![p]
    }
}

/// The non-blank lines of `cur + s`, where `cur` is the part of the current
/// line read so far. A line ends at a newline, which drops one carriage
/// return before it; the text after the last newline is a line as it is.
pub open spec fn lines_from(cur: Seq<char>, s: Seq<char>) -> Seq<Seq<char>>
    decreases s.len(),
{
    if s.len() == 0 {
        kept(cur)
    } else if s[0] == '\n' {
        kept(without_cr(cur)) + lines_from(seq![], s.drop_first())
    } else {
        lines_from(cur.push(s[0]), s.drop_first())
    }
}

/// The non-blank lines of `s`.
pub open spec fn agent_lines_of(s: Seq<char>) -> Seq<Seq<char>> {
    lines_from(seq![], s)
}

/// The views of a list of strings.
pub open spec fn views(v: Seq<String>) -> Seq<Seq<char>> {
    v.map_values(|x: String| x@)
}

/// Whether `cs[a..b]` is all whitespace.
fn blank_range(cs: &Vec<char>, a: usize, b: usize) -> (r: bool)
    requires
        a <= b <= cs@.len(),
    ensures
        r == is_blank(cs@.subrange(a as int, b as int)),
{
    let mut i: usize = a;
    while i < b
        invariant
            a <= i <= b <= cs@.len(),
            forall|j: int| a <= j < i ==> is_space(#[trigger] cs@[j]),
        decreases b - i,
    {
        if !is_space_char(cs[i]) {
            assert(!is_space(cs@.subrange(a as int, b as int)[i - a]));
            return false;
        }
        i = i + 1;
    }
    assert(forall|j: int| 0 <= j < b - a ==> cs@.subrange(a as int, b as int)[j] == cs@[a + j]);
    true
}

/// The user-agent list held in a text: its lines, each without a line
/// ending, leaving out those that are blank.
pub fn agent_lines(content: &str) -> (r: Vec<String>)
    ensures
        views(r@) == agent_lines_of(content@),
{
    let cs = chars_of(content);
    let n = cs.len();
    let mut out: Vec<String> = Vec::new();
    let mut start: usize = 0;
    let mut i: usize = 0;
    assert(views(out@) =~= Seq::<Seq<char>>::empty());
    assert(cs@.subrange(0, 0) =~= Seq::<char>::empty());
    assert(cs@.subrange(0, n as int) =~= cs@);
    assert(views(out@) + agent_lines_of(content@) =~= agent_lines_of(content@));
    while i < n
        invariant
            cs@ == content@,
            n == cs@.len(),
            start <= i <= n,
            views(out@) + lines_from(cs@.subrange(start as int, i as int), cs@.subrange(
                i as int,
                n as int,
            )) == agent_lines_of(content@),
            forall|j: int| start <= j < i ==> cs@[j] != '\n',
        decreases n - i,
    {
        let ghost cur = cs@.subrange(start as int, i as int);
        let ghost rest = cs@.subrange(i as int, n as int);
        assert(rest[0] == cs@[i as int]);
        assert(rest.drop_first() == cs@.subrange(i + 1, n as int));
        if cs[i] == '\n' {
            let end: usize = if i > start && cs[i - 1] == '\r' {
                i - 1
            } else {
                i
            };
            assert(cs@.subrange(start as int, end as int) == without_cr(cur));
            let ghost before = out@;
            if !blank_range(&cs, start, end) {
                let line = content.substring_char(start, end).to_owned();
                out.push(line);
                assert(views(out@) == views(before) + seq![line@]);
            }
            assert(views(out@) == views(before) + kept(without_cr(cur)));
            assert(cs@.subrange(i + 1, i + 1) == Seq::<char>::empty());
            start = i + 1;
        } else {
            assert(cs@.subrange(start as int, i + 1) == cur.push(cs@[i as int]));
        }
        i = i + 1;
    }
    let ghost before = out@;
    let ghost cur = cs@.subrange(start as int, n as int);
    assert(cs@.subrange(n as int, n as int).len() == 0);
    if !blank_range(&cs, start, n) {
        let line = content.substring_char(start, n).to_owned();
        out.push(line);
        assert(views(out@) == views(before) + seq![line@]);
    }
    assert(views(out@) == views(before) + kept(cur));
    out
}

} // verus!
