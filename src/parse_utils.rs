//! Line primitives shared by the grammar: the rest of a line, a line end,
//! a run of blank lines and a block of free-text lines.
//!
//! Each rule reads a text `s` from position `p`. It either consumes some
//! number of characters, or fails at a position of the text.

use vstd::prelude::*;

verus! {

/// Whether `c` may stand inside a line.
pub open spec fn is_line_char(c: char) -> bool {
    c != '\n' && c != '\r'
}

/// Whether the character at `p` is `c`.
pub open spec fn char_at(s: Seq<char>, p: int, c: char) -> bool {
    0 <= p < s.len() && s[p] == c
}

/// How many line characters stand from `p` on, up to the first line break
/// or the end of the text.
pub open spec fn line_len(s: Seq<char>, p: int) -> nat
    decreases s.len() - p,
{
    if 0 <= p < s.len() && is_line_char(s[p]) {
        1 + line_len(s, p + 1)
    } else {
        0
    }
}

/// How many newlines follow one another from `p` on.
pub open spec fn newline_count(s: Seq<char>, p: int) -> nat
    decreases s.len() - p,
{
    if char_at(s, p, '\n') {
        1 + newline_count(s, p + 1)
    } else {
        0
    }
}

/// A line end: one newline, or nothing at the end of the text.
pub open spec fn spec_eol(s: Seq<char>, p: int) -> Result<nat, int> {
    if p == s.len() {
        Ok(0)
    } else if char_at(s, p, '\n') {
        Ok(1)
    } else {
        Err(p)
    }
}

/// One or more line characters, then a line end. On success gives the
/// number of line characters and the number of characters consumed.
pub open spec fn spec_until_eol(s: Seq<char>, p: int) -> Result<(nat, nat), int> {
    let k = line_len(s, p);
    if k == 0 {
        Err(p)
    } else {
        match spec_eol(s, p + k) {
            Ok(e) => Ok((k, k + e)),
            Err(x) => Err(x),
        }
    }
}

/// A run of one or more newlines.
pub open spec fn spec_blank_lines(s: Seq<char>, p: int) -> Result<nat, int> {
    if char_at(s, p, '\n') {
        Ok(newline_count(s, p))
    } else {
        Err(p)
    }
}

/// A block of zero or more non-blank lines. Gives the length of the block's
/// text (its lines and the line breaks between them, not the last one) and
/// the number of characters consumed.
pub open spec fn spec_line_block(s: Seq<char>, p: int) -> (nat, nat)
    decreases s.len() - p,
{
    match spec_until_eol(s, p) {
        Ok((k, n)) => {
            let (tk, tn) = spec_line_block(s, p + n);
            if tn == 0 {
                (k, n)
            } else {
                (n + tk, n + tn)
            }
        },
        Err(_) => (0, 0),
    }
}

/// Whether `c` may stand inside a line: neither `\n` nor `\r`.
pub fn non_newline(c: char) -> (r: bool)
    ensures
        r == is_line_char(c),
{
    c != '\n' && c != '\r'
}

/// The number of line characters from `p` on.
pub fn line_length(s: &Vec<char>, p: usize) -> (k: usize)
    requires
        p <= s.len(),
    ensures
        k == line_len(s@, p as int),
        p + k <= s.len(),
{
    let mut i: usize = p;
    while i < s.len() && non_newline(s[i])
        invariant
            p <= i <= s.len(),
            line_len(s@, p as int) == (i - p) + line_len(s@, i as int),
        decreases s.len() - i,
    {
        i += 1;
    }
    i - p
}

/// The number of newlines that follow one another from `p` on.
pub fn newline_run(s: &Vec<char>, p: usize) -> (k: usize)
    requires
        p <= s.len(),
    ensures
        k == newline_count(s@, p as int),
        p + k <= s.len(),
{
    let mut i: usize = p;
    while i < s.len() && s[i] == '\n'
        invariant
            p <= i <= s.len(),
            newline_count(s@, p as int) == (i - p) + newline_count(s@, i as int),
        decreases s.len() - i,
    {
        i += 1;
    }
    i - p
}

/// Parse a newline or the end of the text; gives the number of characters
/// consumed.
pub fn eol(s: &Vec<char>, p: usize) -> (r: Result<usize, usize>)
    requires
        p <= s.len(),
    ensures
        match (r, spec_eol(s@, p as int)) {
            (Ok(n), Ok(m)) => n == m,
            (Err(x), Err(y)) => x == y,
            _ => false,
        },
{
    if p == s.len() {
        Ok(0)
    } else if s[p] == '\n' {
        Ok(1)
    } else {
        Err(p)
    }
}

/// Parse one or more characters up to the end of line, then the line end.
/// Gives the number of characters before the line end and the number
/// consumed.
pub fn until_eol(s: &Vec<char>, p: usize) -> (r: Result<(usize, usize), usize>)
    requires
        p <= s.len(),
    ensures
        match (r, spec_until_eol(s@, p as int)) {
            (Ok((k, n)), Ok((k2, n2))) => k == k2 && n == n2 && p + n <= s.len(),
            (Err(x), Err(y)) => x == y,
            _ => false,
        },
{
    let k = line_length(s, p);
    if k == 0 {
        return Err(p);
    }
    match eol(s, p + k) {
        Ok(e) => Ok((k, k + e)),
        Err(x) => Err(x),
    }
}

/// Parse a run of one or more newlines; gives its length.
pub fn blank_lines(s: &Vec<char>, p: usize) -> (r: Result<usize, usize>)
    requires
        p <= s.len(),
    ensures
        match (r, spec_blank_lines(s@, p as int)) {
            (Ok(n), Ok(m)) => n == m && p + n <= s.len(),
            (Err(x), Err(y)) => x == y,
            _ => false,
        },
{
    if p < s.len() && s[p] == '\n' {
        Ok(newline_run(s, p))
    } else {
        Err(p)
    }
}

/// Parse a block of non-blank lines. Gives the length of its text, which
/// keeps the line breaks between the lines but not the last one, and the
/// number of characters consumed.
pub fn line_block(s: &Vec<char>, p: usize) -> (r: (usize, usize))
    requires
        p <= s.len(),
    ensures
        (r.0 as nat, r.1 as nat) == spec_line_block(s@, p as int),
        r.0 <= r.1,
        p + r.1 <= s.len(),
    decreases s.len() - p,
{
    match until_eol(s, p) {
        Ok((k, n)) => {
            let (tk, tn) = line_block(s, p + n);
            if tn == 0 {
                (k, n)
            } else {
                (n + tk, n + tn)
            }
        },
        Err(_) => (0, 0),
    }
}

} // verus!
