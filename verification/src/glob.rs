//! Glob patterns over relative paths.
//!
//! A pattern is read character by character:
//! - `?` stands for one character other than `/`;
//! - `*` stands for any run of characters other than `/`;
//! - `**/` at the start of a path component stands for any number of whole
//!   directories, none included; any other `**` stands for any run of
//!   characters;
//! - `[...]` stands for one character other than `/` out of a class: single
//!   characters and ranges `a-z`, negated by a leading `!` or `^`; a `]`
//!   right after the opening stands for itself;
//! - every other character stands for itself.
//! A `[` that is never closed makes the pattern invalid.

use crate::error::Error;
use crate::text::chars_of;
use vstd::prelude::*;

verus! {

/// Where the items of the class that opens at `open` begin.
pub open spec fn class_begin(p: Seq<char>, open: int) -> int {
    if open + 1 < p.len() && (p[open + 1] == '!' || p[open + 1] == '^') {
        open + 2
    } else {
        open + 1
    }
}

/// Whether the class that opens at `open` is negated.
pub open spec fn class_negated(p: Seq<char>, open: int) -> bool {
    open + 1 < p.len() && (p[open + 1] == '!' || p[open + 1] == '^')
}

/// `close` is where the class that opens at `open` ends: the first `]` after
/// the first item.
pub open spec fn is_class_end(p: Seq<char>, open: int, close: int) -> bool {
    &&& class_begin(p, open) < close < p.len()
    &&& p[close] == ']'
    &&& forall|t: int| class_begin(p, open) < t < close ==> p[t] != ']'
}

/// The class that opens at `open` is closed somewhere.
pub open spec fn class_closed(p: Seq<char>, open: int) -> bool {
    exists|close: int| is_class_end(p, open, close)
}

/// Where the class that opens at `open` ends.
pub open spec fn class_end(p: Seq<char>, open: int) -> int {
    choose|close: int| is_class_end(p, open, close)
}

/// Whether the items `p[at..close]` of a class hold `c`.
pub open spec fn class_holds(p: Seq<char>, at: int, close: int, c: char) -> bool
    decreases close - at,
{
    if at >= close || at < 0 || close > p.len() {
        false
    } else if at + 2 < close && p[at + 1] == '-' {
        (p[at] <= c && c <= p[at + 2]) || class_holds(p, at + 3, close, c)
    } else {
        p[at] == c || class_holds(p, at + 1, close, c)
    }
}

/// Whether the class that opens at `open` and ends at `close` accepts `c`.
pub open spec fn class_accepts(p: Seq<char>, open: int, close: int, c: char) -> bool {
    c != '/' && (class_holds(p, class_begin(p, open), close, c) != class_negated(p, open))
}

/// Whether `p[i..]` matches `s[j..]`.
pub open spec fn matches_from(p: Seq<char>, i: int, s: Seq<char>, j: int) -> bool
    decreases p.len() - i, s.len() - j, 1int,
{
    if i < 0 || j < 0 || j > s.len() {
        false
    } else if i >= p.len() {
        j == s.len()
    } else if p[i] == '*' {
        if i + 1 < p.len() && p[i + 1] == '*' {
            if (i == 0 || p[i - 1] == '/') && i + 2 < p.len() && p[i + 2] == '/' {
                matches_from(p, i + 3, s, j) || skips_directory(p, i, s, j)
            } else {
                matches_from(p, i + 2, s, j) || (j < s.len() && matches_from(p, i, s, j + 1))
            }
        } else {
            matches_from(p, i + 1, s, j) || (j < s.len() && s[j] != '/' && matches_from(
                p,
                i,
                s,
                j + 1,
            ))
        }
    } else if p[i] == '?' {
        j < s.len() && s[j] != '/' && matches_from(p, i + 1, s, j + 1)
    } else if p[i] == '[' {
        class_closed(p, i) && j < s.len() && class_accepts(p, i, class_end(p, i), s[j])
            && matches_from(p, class_end(p, i) + 1, s, j + 1)
    } else {
        j < s.len() && s[j] == p[i] && matches_from(p, i + 1, s, j + 1)
    }
}

/// Whether `s[j..]` begins with the rest of a directory's name and its `/`,
/// and what follows matches `p[i..]`, where `p[i..]` begins with `**/`.
pub open spec fn skips_directory(p: Seq<char>, i: int, s: Seq<char>, j: int) -> bool
    decreases p.len() - i, s.len() - j, 0int,
{
    if i < 0 || j < 0 || j >= s.len() {
        false
    } else if s[j] == '/' {
        matches_from(p, i, s, j + 1)
    } else {
        skips_directory(p, i, s, j + 1)
    }
}

/// Whether every class of `p[i..]` is closed.
pub open spec fn valid_from(p: Seq<char>, i: int) -> bool
    decreases p.len() - i,
{
    if i < 0 || i >= p.len() {
        true
    } else if p[i] == '[' {
        class_closed(p, i) && valid_from(p, class_end(p, i) + 1)
    } else {
        valid_from(p, i + 1)
    }
}

/// Whether `pattern` is a valid glob.
pub open spec fn glob_valid(pattern: Seq<char>) -> bool {
    valid_from(pattern, 0)
}

/// Whether the glob `pattern` matches the whole of `path`.
pub open spec fn glob_matches(pattern: Seq<char>, path: Seq<char>) -> bool {
    matches_from(pattern, 0, path, 0)
}

/// A class ends in one place only.
pub proof fn lemma_class_end_unique(p: Seq<char>, open: int, close: int)
    requires
        is_class_end(p, open, close),
    ensures
        class_closed(p, open),
        class_end(p, open) == close,
{
    let other = class_end(p, open);
    assert(is_class_end(p, open, other));
    if other < close {
        assert(p[other] != ']');
    }
    if close < other {
        assert(p[close] != ']');
    }
}

/// Where the class that opens at `open` ends, if it is closed.
fn find_class_end(p: &Vec<char>, open: usize) -> (r: Option<usize>)
    requires
        open < p.len(),
    ensures
        match r {
            Some(close) => is_class_end(p@, open as int, close as int) && class_end(
                p@,
                open as int,
            ) == close,
            None => !class_closed(p@, open as int),
        },
{
    let begin: usize = if open + 1 < p.len() && (p[open + 1] == '!' || p[open + 1] == '^') {
        open + 2
    } else {
        open + 1
    };
    if begin >= p.len() {
        return None;
    }
    let mut t: usize = begin + 1;
    while t < p.len()
        invariant
            begin < t <= p.len(),
            begin == class_begin(p@, open as int),
            forall|u: int| begin < u < t ==> p@[u] != ']',
        decreases p.len() - t,
    {
        if p[t] == ']' {
            proof {
                lemma_class_end_unique(p@, open as int, t as int);
            }
            return Some(t);
        }
        t += 1;
    }
    proof {
        if class_closed(p@, open as int) {
            let close = class_end(p@, open as int);
            assert(is_class_end(p@, open as int, close));
            assert(p@[close] != ']');
        }
    }
    None
}

/// Whether the items `p[at..close]` of a class hold `c`.
fn class_contains(p: &Vec<char>, at: usize, close: usize, c: char) -> (r: bool)
    requires
        close <= p.len(),
    ensures
        r == class_holds(p@, at as int, close as int, c),
{
    let mut t: usize = at;
    while t < close
        invariant
            close <= p.len(),
            class_holds(p@, at as int, close as int, c) == class_holds(p@, t as int, close as int, c),
        decreases close - t,
    {
        if close - t > 2 && p[t + 1] == '-' {
            if p[t] <= c && c <= p[t + 2] {
                return true;
            }
            t += 3;
        } else {
            if p[t] == c {
                return true;
            }
            t += 1;
        }
    }
    false
}

/// Whether `p[i..]` matches `s[j..]`.
fn matches_at(p: &Vec<char>, i: usize, s: &Vec<char>, j: usize) -> (r: bool)
    requires
        j <= s.len(),
    ensures
        r == matches_from(p@, i as int, s@, j as int),
    decreases p.len() - i, s.len() - j, 1int,
{
    if i >= p.len() {
        return j == s.len();
    }
    let head: char = p[i];
    if head == '*' {
        if i + 1 < p.len() && p[i + 1] == '*' {
            if (i == 0 || p[i - 1] == '/') && i + 2 < p.len() && p[i + 2] == '/' {
                matches_at(p, i + 3, s, j) || skips_directory_at(p, i, s, j)
            } else {
                matches_at(p, i + 2, s, j) || (j < s.len() && matches_at(p, i, s, j + 1))
            }
        } else {
            matches_at(p, i + 1, s, j) || (j < s.len() && s[j] != '/' && matches_at(
                p,
                i,
                s,
                j + 1,
            ))
        }
    } else if head == '?' {
        j < s.len() && s[j] != '/' && matches_at(p, i + 1, s, j + 1)
    } else if head == '[' {
        match find_class_end(p, i) {
            Some(close) => {
                if j >= s.len() || s[j] == '/' {
                    return false;
                }
                let negated = i + 1 < p.len() && (p[i + 1] == '!' || p[i + 1] == '^');
                let begin: usize = if negated {
                    i + 2
                } else {
                    i + 1
                };
                class_contains(p, begin, close, s[j]) != negated && matches_at(
                    p,
                    close + 1,
                    s,
                    j + 1,
                )
            },
            None => false,
        }
    } else {
        j < s.len() && s[j] == head && matches_at(p, i + 1, s, j + 1)
    }
}

/// Whether `s[j..]` begins with the rest of a directory's name and its `/`,
/// and what follows matches `p[i..]`.
fn skips_directory_at(p: &Vec<char>, i: usize, s: &Vec<char>, j: usize) -> (r: bool)
    requires
        j <= s.len(),
        i < p.len(),
    ensures
        r == skips_directory(p@, i as int, s@, j as int),
    decreases p.len() - i, s.len() - j, 0int,
{
    if j >= s.len() {
        false
    } else if s[j] == '/' {
        matches_at(p, i, s, j + 1)
    } else {
        skips_directory_at(p, i, s, j + 1)
    }
}

/// Whether every class of `p[i..]` is closed.
fn valid_at(p: &Vec<char>, i: usize) -> (r: bool)
    ensures
        r == valid_from(p@, i as int),
{
    let mut t: usize = i;
    while t < p.len()
        invariant
            valid_from(p@, i as int) == valid_from(p@, t as int),
        decreases p.len() - t,
    {
        if p[t] == '[' {
            match find_class_end(p, t) {
                Some(close) => {
                    t = close + 1;
                },
                None => {
                    return false;
                },
            }
        } else {
            t += 1;
        }
    }
    true
}

/// A valid glob pattern.
#[derive(Debug)]
pub struct Glob {
    pattern: Vec<char>,
}

impl View for Glob {
    type V = Seq<char>;

    closed spec fn view(&self) -> Seq<char> {
        self.pattern@
    }
}

impl Glob {
    #[verifier::type_invariant]
    spec fn is_valid(self) -> bool {
        glob_valid(self.pattern@)
    }

    /// Reads a glob from `pattern`; a pattern with an unclosed class is a
    /// parse error.
    pub fn new(pattern: &str) -> (r: Result<Glob, Error>)
        ensures
            match r {
                Ok(glob) => glob_valid(pattern@) && glob@ == pattern@,
                Err(e) => !glob_valid(pattern@) && e == Error::Parse,
            },
    {
        let chars = chars_of(pattern);
        if valid_at(&chars, 0) {
            Ok(Glob { pattern: chars })
        } else {
            Err(Error::Parse)
        }
    }

    /// Whether the glob matches the whole of `path`.
    pub fn matches(&self, path: &str) -> (r: bool)
        ensures
            r == glob_matches(self@, path@),
    {
        let chars = chars_of(path);
        matches_at(&self.pattern, 0, &chars, 0)
    }

    /// Whether the glob matches the whole of `path`, given as characters.
    pub fn matches_chars(&self, path: &Vec<char>) -> (r: bool)
        ensures
            r == glob_matches(self@, path@),
    {
        matches_at(&self.pattern, 0, path, 0)
    }
}

} // verus!
