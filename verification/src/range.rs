//! Inclusive index ranges with counting from the end, as the range
//! queries on strings, lists and sorted sets understand them.

use vstd::prelude::*;

verus! {

/// First position covered by a range that starts at `start`, in a
/// sequence of `len` items. A negative `start` counts back from the end.
pub open spec fn span_start(len: int, start: int) -> int {
    let from = if start < 0 {
        len + start
    } else {
        start
    };
    if from < 0 {
        0
    } else if from > len {
        len
    } else {
        from
    }
}

/// One past the last position covered by a range whose inclusive end is
/// `stop`. A negative `stop` counts back from the end.
pub open spec fn span_end(len: int, stop: int) -> int {
    let until = if stop < 0 {
        len + stop + 1
    } else {
        stop + 1
    };
    if until < 0 {
        0
    } else if until > len {
        len
    } else {
        until
    }
}

/// The half-open index interval selected by `start..=stop`; empty when
/// the two ends cross.
pub open spec fn span(len: int, start: int, stop: int) -> (int, int) {
    let lo = span_start(len, start);
    let hi = span_end(len, stop);
    if lo < hi {
        (lo, hi)
    } else {
        (lo, lo)
    }
}

/// The part of `items` selected by `start..=stop`.
pub open spec fn slice_of<T>(items: Seq<T>, start: int, stop: int) -> Seq<T> {
    let (lo, hi) = span(items.len() as int, start, stop);
    items.subrange(lo, hi)
}

/// Position in a sequence of `len` items that a signed index names, if
/// it names one.
pub open spec fn resolve_index(len: int, index: int) -> Option<int> {
    let at = if index < 0 {
        len + index
    } else {
        index
    };
    if 0 <= at < len {
        Some(at)
    } else {
        None
    }
}

/// Computes the half-open interval that `start..=stop` selects.
pub fn resolve_span(len: usize, start: isize, stop: isize) -> (bounds: (usize, usize))
    ensures
        (bounds.0 as int, bounds.1 as int) == span(len as int, start as int, stop as int),
        bounds.0 <= bounds.1 <= len,
{
    let n: i128 = len as i128;
    let from: i128 = if start < 0 {
        n + start as i128
    } else {
        start as i128
    };
    let lo: i128 = if from < 0 {
        0
    } else if from > n {
        n
    } else {
        from
    };
    let until: i128 = if stop < 0 {
        n + stop as i128 + 1
    } else {
        stop as i128 + 1
    };
    let hi: i128 = if until < 0 {
        0
    } else if until > n {
        n
    } else {
        until
    };
    if lo < hi {
        (lo as usize, hi as usize)
    } else {
        (lo as usize, lo as usize)
    }
}

/// Computes the position that a signed index names.
pub fn resolve_position(len: usize, index: isize) -> (at: Option<usize>)
    ensures
        match at {
            Some(i) => resolve_index(len as int, index as int) == Some(i as int),
            None => resolve_index(len as int, index as int) is None,
        },
{
    let n: i128 = len as i128;
    let at: i128 = if index < 0 {
        n + index as i128
    } else {
        index as i128
    };
    if 0 <= at && at < n {
        Some(at as usize)
    } else {
        None
    }
}

} // verus!
