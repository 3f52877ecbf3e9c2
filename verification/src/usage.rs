//! The process's resident memory, read from the status text the kernel
//! reports (`/proc/self/status` on Linux).

use vstd::prelude::*;
use crate::duration_text::{parse_u64, parse_u64_at};
use crate::text::chars_of;

verus! {

/// `char::is_whitespace`: the characters with the Unicode `White_Space` property.
pub open spec fn is_white_space(c: char) -> bool {
    ||| '\t' <= c <= '\r'
    ||| c == ' '
    ||| c == '\u{85}'
    ||| c == '\u{a0}'
    ||| c == '\u{1680}'
    ||| '\u{2000}' <= c <= '\u{200a}'
    ||| c == '\u{2028}'
    ||| c == '\u{2029}'
    ||| c == '\u{202f}'
    ||| c == '\u{205f}'
    ||| c == '\u{3000}'
}

/// The first position at or after `i` that is not white space (or the end).
pub open spec fn skip_space(c: Seq<char>, i: int) -> int
    decreases c.len() - i,
{
    if 0 <= i < c.len() && is_white_space(c[i]) {
        skip_space(c, i + 1)
    } else {
        i
    }
}

/// The first position at or after `i` that is white space (or the end).
pub open spec fn skip_word(c: Seq<char>, i: int) -> int
    decreases c.len() - i,
{
    if 0 <= i < c.len() && !is_white_space(c[i]) {
        skip_word(c, i + 1)
    } else {
        i
    }
}

/// The second of the words `str::split_whitespace` finds in `line`, if any.
pub open spec fn second_word(line: Seq<char>) -> Option<Seq<char>> {
    let s1 = skip_space(line, 0);
    let e1 = skip_word(line, s1);
    let s2 = skip_space(line, e1);
    let e2 = skip_word(line, s2);
    if s2 < line.len() {
        Some(line.subrange(s2, e2))
    } else {
        None
    }
}

/// The end of the line that starts at `i`: the next `'\n'` or the end.
pub open spec fn line_end(c: Seq<char>, i: int) -> int
    decreases c.len() - i,
{
    if 0 <= i < c.len() && c[i] != '\n' {
        line_end(c, i + 1)
    } else {
        i
    }
}

/// `line` begins with `prefix`.
pub open spec fn starts_with(line: Seq<char>, prefix: Seq<char>) -> bool {
    line.len() >= prefix.len() && line.take(prefix.len() as int) == prefix
}

/// The resident memory a status line reports: a line that begins with
/// `VmRSS:` and whose second word is a number.
pub open spec fn rss_of_line(line: Seq<char>) -> Option<u64> {
    if starts_with(line, "VmRSS:"@) {
        match second_word(line) {
            Some(w) => parse_u64(w),
            None => None,
        }
    } else {
        None
    }
}

/// A line ends at or after where it starts, and within the text.
pub proof fn lemma_line_end_bounds(c: Seq<char>, i: int)
    requires
        0 <= i <= c.len(),
    ensures
        i <= line_end(c, i) <= c.len(),
    decreases c.len() - i,
{
    if i < c.len() && c[i] != '\n' {
        lemma_line_end_bounds(c, i + 1);
    }
}

/// The resident memory, in kB, the status text reports from position `i`
/// on: that of the first line (lines end at `'\n'`) that reports it, or 0.
/// A `'\r'` before a `'\n'` is white space, which the words ignore.
pub open spec fn rss_from(c: Seq<char>, i: int) -> u64
    decreases c.len() - i,
{
    if i < 0 || i >= c.len() {
        0
    } else {
        let e = line_end(c, i);
        proof {
            lemma_line_end_bounds(c, i);
        }
        match rss_of_line(c.subrange(i, e)) {
            Some(v) => v,
            None => if e < c.len() {
                rss_from(c, e + 1)
            } else {
                0
            },
        }
    }
}

/// `skip_space` on `c` from `i`.
fn skip_space_of(c: &Vec<char>, i: usize) -> (r: usize)
    requires
        i <= c@.len(),
    ensures
        r == skip_space(c@, i as int),
        i <= r <= c@.len(),
    decreases c@.len() - i,
{
    if i < c.len() && is_white_space_char(c[i]) {
        skip_space_of(c, i + 1)
    } else {
        i
    }
}

/// `skip_word` on `c` from `i`.
fn skip_word_of(c: &Vec<char>, i: usize) -> (r: usize)
    requires
        i <= c@.len(),
    ensures
        r == skip_word(c@, i as int),
        i <= r <= c@.len(),
    decreases c@.len() - i,
{
    if i < c.len() && !is_white_space_char(c[i]) {
        skip_word_of(c, i + 1)
    } else {
        i
    }
}

/// Whether `ch` is white space, as `is_white_space` defines it.
fn is_white_space_char(ch: char) -> (b: bool)
    ensures
        b == is_white_space(ch),
{
    ('\t' <= ch && ch <= '\r') || ch == ' ' || ch == '\u{85}' || ch == '\u{a0}' || ch == '\u{1680}'
        || ('\u{2000}' <= ch && ch <= '\u{200a}') || ch == '\u{2028}' || ch == '\u{2029}' || ch
        == '\u{202f}' || ch == '\u{205f}' || ch == '\u{3000}'
}

/// The resident memory a single line reports, as `rss_of_line` reads it.
fn rss_of_line_exec(line: &Vec<char>) -> (r: Option<u64>)
    ensures
        r == rss_of_line(line@),
{
    proof {
        reveal_strlit("VmRSS:");
    }
    let n = line.len();
    if !(n >= 6 && line[0] == 'V' && line[1] == 'm' && line[2] == 'R' && line[3] == 'S' && line[4]
        == 'S' && line[5] == ':') {
        proof {
            if starts_with(line@, "VmRSS:"@) {
                let t = line@.take(6);
                assert(t[0] == 'V' && t[1] == 'm' && t[2] == 'R');
                assert(t[3] == 'S' && t[4] == 'S' && t[5] == ':');
            }
        }
        return None;
    }
    proof {
        assert(line@.take(6) =~= "VmRSS:"@);
    }
    let s1 = skip_space_of(line, 0);
    let e1 = skip_word_of(line, s1);
    let s2 = skip_space_of(line, e1);
    let e2 = skip_word_of(line, s2);
    if s2 < n {
        parse_u64_at(line, s2, e2)
    } else {
        None
    }
}

/// The resident memory in kB that a process status text reports: the
/// number after `VmRSS:` on the first line that has one, or 0 when no
/// line does.
pub fn memory_usage_from_status(status: &str) -> (kb: u64)
    ensures
        kb == rss_from(status@, 0),
{
    let c = chars_of(status);
    let n = c.len();
    let mut i: usize = 0;
    while i < n
        invariant
            c@ == status@,
            n == c@.len(),
            0 <= i <= n,
            rss_from(c@, i as int) == rss_from(c@, 0),
        decreases n - i,
    {
        let mut line: Vec<char> = Vec::new();
        let mut e: usize = i;
        while e < n && c[e] != '\n'
            invariant
                n == c@.len(),
                i <= e <= n,
                line@ == c@.subrange(i as int, e as int),
                line_end(c@, i as int) == line_end(c@, e as int),
            decreases n - e,
        {
            line.push(c[e]);
            e += 1;
            proof {
                assert(line@ =~= c@.subrange(i as int, e as int));
            }
        }
        proof {
            assert(line_end(c@, e as int) == e);
        }
        match rss_of_line_exec(&line) {
            Some(v) => {
                return v;
            },
            None => {},
        }
        if e >= n {
            return 0;
        }
        i = e + 1;
    }
    0
}

} // verus!
