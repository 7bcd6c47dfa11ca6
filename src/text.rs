//! Text helpers over characters: whitespace trimming, extra header lines
//! and substring search.
use vstd::prelude::*;

verus! {

/// A character with the Unicode `White_Space` property.
pub open spec fn is_space(c: char) -> bool {
    let n = c as u32;
    (0x9 <= n <= 0xd) || n == 0x20 || n == 0x85 || n == 0xa0 || n == 0x1680 || (0x2000 <= n
        <= 0x200a) || n == 0x2028 || n == 0x2029 || n == 0x202f || n == 0x205f || n == 0x3000
}

/// `r` is `s` with its leading and trailing whitespace removed.
pub open spec fn trims_to(s: Seq<char>, r: Seq<char>) -> bool {
    exists|a: int, b: int|
        0 <= a <= b <= s.len() && r == s.subrange(a, b) && (forall|i: int|
            0 <= i < a ==> is_space(#[trigger] s[i])) && (forall|i: int|
            b <= i < s.len() ==> is_space(#[trigger] s[i])) && (a < b ==> !is_space(s[a])
            && !is_space(s[b - 1]))
}

/// Whether `c` is whitespace, as `char::is_whitespace` decides it.
pub fn is_space_char(c: char) -> (r: bool)
    ensures
        r == is_space(c),
{
    let n = c as u32;
    (0x9 <= n && n <= 0xd) || n == 0x20 || n == 0x85 || n == 0xa0 || n == 0x1680 || (0x2000 <= n
        && n <= 0x200a) || n == 0x2028 || n == 0x2029 || n == 0x202f || n == 0x205f || n == 0x3000
}

/// `s` without its leading and trailing whitespace.
pub fn trim<'a>(s: &'a str) -> (r: &'a str)
    ensures
        trims_to(s@, r@),
{
    let cs = chars_of(s);
    let n = cs.len();
    let mut a: usize = 0;
    while a < n && is_space_char(cs[a])
        invariant
            a <= n,
            cs@ == s@,
            n == s@.len(),
            forall|i: int| 0 <= i < a ==> is_space(#[trigger] s@[i]),
        decreases n - a,
    {
        a = a + 1;
    }
    let mut b: usize = n;
    while b > a && is_space_char(cs[b - 1])
        invariant
            a <= b <= n,
            cs@ == s@,
            n == s@.len(),
            forall|i: int| b <= i < n ==> is_space(#[trigger] s@[i]),
        decreases b - a,
    {
        b = b - 1;
    }
    let r = s.substring_char(a, b);
    assert(0 <= a <= b <= s@.len() && r@ == s@.subrange(a as int, b as int));
    r
}

/// `k` is the position of the first `c` in `s`.
pub open spec fn first_at(s: Seq<char>, c: char, k: int) -> bool {
    0 <= k < s.len() && s[k] == c && forall|j: int| 0 <= j < k ==> s[j] != c
}

/// The position of the first `c` in `s`, if it has one.
pub fn find_char(s: &str, c: char) -> (r: Option<usize>)
    ensures
        r.is_none() <==> !s@.contains(c),
        r matches Some(k) ==> first_at(s@, c, k as int),
{
    let cs = chars_of(s);
    let n = cs.len();
    let mut i: usize = 0;
    while i < n
        invariant
            i <= n,
            cs@ == s@,
            n == s@.len(),
            forall|j: int| 0 <= j < i ==> s@[j] != c,
        decreases n - i,
    {
        if cs[i] == c {
            return Some(i);
        }
        i = i + 1;
    }
    None
}

/// One header of a request: a name and a value.
#[derive(Clone, Debug)]
pub struct Header {
    pub name: String,
    pub value: String,
}

/// `h` is what the line `s` holds: the text before its first colon and
/// the text after it, each trimmed.
pub open spec fn header_of_line(s: Seq<char>, h: Header) -> bool {
    exists|k: int|
        first_at(s, ':', k) && trims_to(s.subrange(0, k), h.name@) && trims_to(
            s.subrange(k + 1, s.len() as int),
            h.value@,
        )
}

/// `hs` holds, in order, the header of each of `lines` that has a colon;
/// the lines without one are left out.
pub open spec fn headers_of_lines(lines: Seq<String>, hs: Seq<Header>) -> bool
    decreases lines.len(),
{
    if lines.len() == 0 {
        hs.len() == 0
    } else if lines.last()@.contains(':') {
        hs.len() > 0 && header_of_line(lines.last()@, hs.last()) && headers_of_lines(
            lines.drop_last(),
            hs.drop_last(),
        )
    } else {
        headers_of_lines(lines.drop_last(), hs)
    }
}

/// Reads an extra header line of the form `name: value`. The line is split
/// at its first colon and both sides are trimmed; a line without a colon
/// gives `None`.
pub fn parse_header_line(line: &str) -> (r: Option<Header>)
    ensures
        r.is_none() <==> !line@.contains(':'),
        r matches Some(h) ==> header_of_line(line@, h),
{
    match find_char(line, ':') {
        None => None,
        Some(k) => {
            let n = line.unicode_len();
            let before = line.substring_char(0, k);
            let after = line.substring_char(k + 1, n);
            let name = trim(before);
            let value = trim(after);
            let h = Header { name: name.to_owned(), value: value.to_owned() };
            assert(header_of_line(line@, h)) by {
                assert(first_at(line@, ':', k as int));
            }
            Some(h)
        },
    }
}

/// The headers of those `lines` that have a colon, in order.
pub fn parse_headers(lines: &Vec<String>) -> (r: Vec<Header>)
    ensures
        headers_of_lines(lines@, r@),
{
    let mut out: Vec<Header> = Vec::new();
    let mut i: usize = 0;
    while i < lines.len()
        invariant
            i <= lines@.len(),
            headers_of_lines(lines@.take(i as int), out@),
        decreases lines@.len() - i,
    {
        let ghost prev = out@;
        assert(lines@.take(i + 1).drop_last() == lines@.take(i as int));
        assert(lines@.take(i + 1).last() == lines@[i as int]);
        match parse_header_line(lines[i].as_str()) {
            Some(h) => {
                out.push(h);
                assert(out@.drop_last() == prev);
            },
            None => {},
        }
        i = i + 1;
    }
    assert(lines@.take(lines@.len() as int) == lines@);
    out
}

/// `needle` occurs in `hay` as a contiguous run of characters.
pub open spec fn occurs_in(needle: Seq<char>, hay: Seq<char>) -> bool {
    exists|k: int| 0 <= k && k + needle.len() <= hay.len() && #[trigger] hay.subrange(k, k + needle.len()) == needle
}

/// The characters of `s`, in a vector.
pub(crate) fn chars_of(s: &str) -> (r: Vec<char>)
    ensures
        r@ == s@,
{
    let mut out: Vec<char> = Vec::new();
    for c in it: s.chars()
        invariant
            it.seq() == s@,
            out@ == it.seq().take(it.index() as int),
    {
        out.push(c);
    }
    out
}

/// Whether `needle` occurs in `hay`.
pub fn contains_text(hay: &str, needle: &str) -> (r: bool)
    ensures
        r == occurs_in(needle@, hay@),
{
    let h = chars_of(hay);
    let nd = chars_of(needle);
    let hn = h.len();
    let nn = nd.len();
    if nn > hn {
        assert(!occurs_in(needle@, hay@));
        return false;
    }
    let mut k: usize = 0;
    while k <= hn - nn
        invariant
            h@ == hay@,
            nd@ == needle@,
            hn == h@.len(),
            nn == nd@.len(),
            nn <= hn,
            k <= hn - nn + 1,
            forall|j: int| 0 <= j < k ==> #[trigger] hay@.subrange(j, j + nn) != needle@,
        decreases hn - k,
    {
        let mut m: usize = 0;
        let mut same = true;
        while m < nn
            invariant
                h@ == hay@,
                nd@ == needle@,
                hn == h@.len(),
                nn == nd@.len(),
                k + nn <= hn,
                m <= nn,
                same == forall|x: int| 0 <= x < m ==> h@[k + x] == nd@[x],
            decreases nn - m,
        {
            if h[k + m] != nd[m] {
                same = false;
            }
            m = m + 1;
        }
        if same {
            assert(hay@.subrange(k as int, k + nn) =~= needle@);
            return true;
        }
        assert(hay@.subrange(k as int, k + nn) != needle@) by {
            let x = choose|x: int| 0 <= x < nn && h@[k + x] != nd@[x];
            assert(hay@.subrange(k as int, k + nn)[x] != needle@[x]);
        }
        k = k + 1;
    }
    assert(!occurs_in(needle@, hay@));
    false
}

} // verus!
