//! Key patterns: `*` stands for any run of bytes, `?` for any one byte,
//! `[...]` for one byte out of a set (with `a-z` ranges, and `^` first to
//! negate), and `\x` for the byte `x` itself.

use vstd::prelude::*;

verus! {

/// `*`
pub const STAR: u8 = 42;

/// `?`
pub const QUESTION: u8 = 63;

/// `[`
pub const OPEN: u8 = 91;

/// `]`
pub const CLOSE: u8 = 93;

/// `\`
pub const ESCAPE: u8 = 92;

/// `^`
pub const CARET: u8 = 94;

/// `-`
pub const DASH: u8 = 45;

/// Position of the `]` that closes a set whose items start at `from`,
/// if the set is closed. An escaped byte is never the closing one.
pub open spec fn set_end(pattern: Seq<u8>, from: int) -> Option<int>
    decreases pattern.len() - from,
{
    if from < 0 || from >= pattern.len() {
        None
    } else if pattern[from] == CLOSE {
        Some(from)
    } else if pattern[from] == ESCAPE {
        if from + 1 < pattern.len() {
            set_end(pattern, from + 2)
        } else {
            None
        }
    } else {
        set_end(pattern, from + 1)
    }
}

/// Whether `byte` lies between `a` and `b`, whichever of them is lower.
pub open spec fn in_range(a: u8, b: u8, byte: u8) -> bool {
    (a <= byte <= b) || (b <= byte <= a)
}

/// Whether one of the items of a set, written in `pattern` from `from`
/// up to `end`, admits `byte`.
pub open spec fn set_has(pattern: Seq<u8>, from: int, end: int, byte: u8) -> bool
    decreases end - from,
{
    if from < 0 || from >= end || end > pattern.len() {
        false
    } else if pattern[from] == ESCAPE && from + 1 < end {
        byte == pattern[from + 1] || set_has(pattern, from + 2, end, byte)
    } else if from + 2 < end && pattern[from + 1] == DASH {
        in_range(pattern[from], pattern[from + 2], byte) || set_has(pattern, from + 3, end, byte)
    } else {
        byte == pattern[from] || set_has(pattern, from + 1, end, byte)
    }
}

/// Where the items of the set opened at `at` start: after the `[` and
/// after a `^` that follows it.
pub open spec fn set_start(pattern: Seq<u8>, at: int) -> int {
    if at + 1 < pattern.len() && pattern[at + 1] == CARET {
        at + 2
    } else {
        at + 1
    }
}

/// Whether the set opened at `at` and closed at `end` admits `byte`.
pub open spec fn set_admits(pattern: Seq<u8>, at: int, end: int, byte: u8) -> bool {
    let negated = at + 1 < pattern.len() && pattern[at + 1] == CARET;
    set_has(pattern, set_start(pattern, at), end, byte) != negated
}

/// Whether the pattern from position `i` on matches the text from
/// position `j` on.
pub open spec fn matches_from(pattern: Seq<u8>, i: int, text: Seq<u8>, j: int) -> bool
    decreases pattern.len() - i, text.len() - j,
{
    if i < 0 || j < 0 || i > pattern.len() || j > text.len() {
        false
    } else if i == pattern.len() {
        j == text.len()
    } else if pattern[i] == STAR {
        matches_from(pattern, i + 1, text, j) || (j < text.len() && matches_from(
            pattern,
            i,
            text,
            j + 1,
        ))
    } else if j == text.len() {
        false
    } else if pattern[i] == QUESTION {
        matches_from(pattern, i + 1, text, j + 1)
    } else if pattern[i] == OPEN {
        match set_end(pattern, set_start(pattern, i)) {
            Some(end) => if i < end < pattern.len() {
                set_admits(pattern, i, end, text[j]) && matches_from(pattern, end + 1, text, j + 1)
            } else {
                false
            },
            None => false,
        }
    } else if pattern[i] == ESCAPE {
        i + 1 < pattern.len() && text[j] == pattern[i + 1] && matches_from(
            pattern,
            i + 2,
            text,
            j + 1,
        )
    } else {
        text[j] == pattern[i] && matches_from(pattern, i + 1, text, j + 1)
    }
}

/// Whether `pattern` matches the whole of `text`.
pub open spec fn glob_matches(pattern: Seq<u8>, text: Seq<u8>) -> bool {
    matches_from(pattern, 0, text, 0)
}

/// Whether the pattern from position `i` on is well formed: every set is
/// closed and every escape has a byte to escape.
pub open spec fn well_formed_from(pattern: Seq<u8>, i: int) -> bool
    decreases pattern.len() - i,
{
    if i < 0 || i >= pattern.len() {
        true
    } else if pattern[i] == OPEN {
        match set_end(pattern, set_start(pattern, i)) {
            Some(end) => i < end < pattern.len() && well_formed_from(pattern, end + 1),
            None => false,
        }
    } else if pattern[i] == ESCAPE {
        i + 1 < pattern.len() && well_formed_from(pattern, i + 2)
    } else {
        well_formed_from(pattern, i + 1)
    }
}

/// Whether `pattern` is well formed.
pub open spec fn glob_valid(pattern: Seq<u8>) -> bool {
    well_formed_from(pattern, 0)
}

/// Finds the `]` that closes a set whose items start at `from`.
fn find_set_end(pattern: &[u8], from: usize) -> (end: Option<usize>)
    ensures
        match end {
            Some(e) => set_end(pattern@, from as int) == Some(e as int) && from <= e
                < pattern.len(),
            None => set_end(pattern@, from as int) is None,
        },
{
    let mut at: usize = from;
    while at < pattern.len()
        invariant
            from <= at,
            set_end(pattern@, from as int) == set_end(pattern@, at as int),
        decreases pattern.len() - at,
    {
        if pattern[at] == CLOSE {
            return Some(at);
        } else if pattern[at] == ESCAPE {
            if at + 1 < pattern.len() {
                at += 2;
            } else {
                return None;
            }
        } else {
            at += 1;
        }
    }
    None
}

/// Decides whether one of the items of a set admits `byte`.
fn set_contains(pattern: &[u8], from: usize, end: usize, byte: u8) -> (found: bool)
    requires
        end <= pattern.len(),
    ensures
        found == set_has(pattern@, from as int, end as int, byte),
{
    let mut at: usize = from;
    while at < end
        invariant
            from <= at,
            end <= pattern.len(),
            set_has(pattern@, from as int, end as int, byte) == set_has(
                pattern@,
                at as int,
                end as int,
                byte,
            ),
        decreases end - at,
    {
        if pattern[at] == ESCAPE && end - at > 1 {
            if byte == pattern[at + 1] {
                return true;
            }
            at += 2;
        } else if end - at > 2 && pattern[at + 1] == DASH {
            let a = pattern[at];
            let b = pattern[at + 2];
            if (a <= byte && byte <= b) || (b <= byte && byte <= a) {
                return true;
            }
            at += 3;
        } else {
            if byte == pattern[at] {
                return true;
            }
            at += 1;
        }
    }
    false
}

/// Decides whether the pattern from `i` on matches the text from `j` on.
fn match_from(pattern: &[u8], i: usize, text: &[u8], j: usize) -> (matched: bool)
    requires
        i <= pattern.len(),
        j <= text.len(),
    ensures
        matched == matches_from(pattern@, i as int, text@, j as int),
    decreases pattern.len() - i, text.len() - j,
{
    if i == pattern.len() {
        return j == text.len();
    }
    let p = pattern[i];
    if p == STAR {
        if match_from(pattern, i + 1, text, j) {
            return true;
        }
        return j < text.len() && match_from(pattern, i, text, j + 1);
    }
    if j == text.len() {
        return false;
    }
    if p == QUESTION {
        match_from(pattern, i + 1, text, j + 1)
    } else if p == OPEN {
        let negated = i + 1 < pattern.len() && pattern[i + 1] == CARET;
        let start: usize = if negated {
            i + 2
        } else {
            i + 1
        };
        match find_set_end(pattern, start) {
            Some(end) => {
                let found = set_contains(pattern, start, end, text[j]);
                found != negated && match_from(pattern, end + 1, text, j + 1)
            },
            None => false,
        }
    } else if p == ESCAPE {
        i + 1 < pattern.len() && text[j] == pattern[i + 1] && match_from(
            pattern,
            i + 2,
            text,
            j + 1,
        )
    } else {
        text[j] == p && match_from(pattern, i + 1, text, j + 1)
    }
}

/// Decides whether `pattern` matches the whole of `text`.
pub fn glob_match(pattern: &[u8], text: &[u8]) -> (matched: bool)
    ensures
        matched == glob_matches(pattern@, text@),
{
    match_from(pattern, 0, text, 0)
}

/// Decides whether `pattern` is well formed.
pub fn is_valid_pattern(pattern: &[u8]) -> (valid: bool)
    ensures
        valid == glob_valid(pattern@),
{
    let mut i: usize = 0;
    while i < pattern.len()
        invariant
            i <= pattern.len(),
            glob_valid(pattern@) == well_formed_from(pattern@, i as int),
        decreases pattern.len() - i,
    {
        if pattern[i] == OPEN {
            let start: usize = if i + 1 < pattern.len() && pattern[i + 1] == CARET {
                i + 2
            } else {
                i + 1
            };
            match find_set_end(pattern, start) {
                Some(end) => {
                    i = end + 1;
                },
                None => {
                    return false;
                },
            }
        } else if pattern[i] == ESCAPE {
            if i + 1 < pattern.len() {
                i += 2;
            } else {
                return false;
            }
        } else {
            i += 1;
        }
    }
    true
}

} // verus!
