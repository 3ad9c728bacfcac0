//! Signed 64-bit integers as decimal text, and back.

use vstd::prelude::*;

verus! {

/// The ASCII digit for `d`.
pub open spec fn digit_byte(d: int) -> u8 {
    (48 + d) as u8
}

/// Whether `b` is an ASCII digit.
pub open spec fn is_digit(b: u8) -> bool {
    48 <= b <= 57
}

/// The decimal digits of `n`, most significant first, without leading
/// zeros.
pub open spec fn digits(n: nat) -> Seq<u8>
    decreases n,
{
    if n < 10 {
        seq![digit_byte(n as int)]
    } else {
        digits(n / 10).push(digit_byte((n % 10) as int))
    }
}

/// The decimal text of `n`: its digits, after a minus sign if it is
/// negative.
pub open spec fn decimal(n: int) -> Seq<u8> {
    if n < 0 {
        seq![45u8] + digits((-n) as nat)
    } else {
        digits(n as nat)
    }
}

/// Whether `text` holds nothing but digits.
pub open spec fn all_digits(text: Seq<u8>) -> bool {
    forall|i: int| 0 <= i < text.len() ==> is_digit(#[trigger] text[i])
}

/// The number that a string of digits denotes.
pub open spec fn digits_value(text: Seq<u8>) -> nat
    decreases text.len(),
{
    if text.len() == 0 {
        0
    } else {
        (digits_value(text.drop_last()) * 10 + (text.last() - 48)) as nat
    }
}

/// The integer that `text` denotes: one or more digits, after an
/// optional `+` or `-`. Nothing else is a number.
pub open spec fn parse_decimal(text: Seq<u8>) -> Option<int> {
    if text.len() > 0 && (text[0] == 45u8 || text[0] == 43u8) {
        let body = text.skip(1);
        if body.len() > 0 && all_digits(body) {
            if text[0] == 45u8 {
                Some(-(digits_value(body) as int))
            } else {
                Some(digits_value(body) as int)
            }
        } else {
            None
        }
    } else if text.len() > 0 && all_digits(text) {
        Some(digits_value(text) as int)
    } else {
        None
    }
}

/// The signed 64-bit integer that `text` denotes, if it denotes one.
pub open spec fn parse_i64_spec(text: Seq<u8>) -> Option<i64> {
    match parse_decimal(text) {
        Some(v) => if i64::MIN <= v <= i64::MAX {
            Some(v as i64)
        } else {
            None
        },
        None => None,
    }
}

/// The digits of a number are digits, and denote that number.
pub proof fn lemma_digits(n: nat)
    ensures
        digits(n).len() > 0,
        all_digits(digits(n)),
        digits_value(digits(n)) == n,
    decreases n,
{
    let whole = digits(n);
    if n >= 10 {
        lemma_digits(n / 10);
        let front = digits(n / 10);
        assert(whole.drop_last() =~= front);
        assert(whole.last() == digit_byte((n % 10) as int));
        assert forall|i: int| 0 <= i < whole.len() implies is_digit(#[trigger] whole[i]) by {
            if i < front.len() {
                assert(whole[i] == front[i]);
            }
        }
        assert(digits_value(whole) == digits_value(front) * 10 + (whole.last() - 48));
        assert(digits_value(whole) == n) by (nonlinear_arith)
            requires
                digits_value(whole) == (n / 10) * 10 + (n % 10),
        ;
    } else {
        assert(whole.drop_last() =~= Seq::<u8>::empty());
        assert(whole.last() == digit_byte(n as int));
        assert(digits_value(whole.drop_last()) == 0);
        assert(digits_value(whole) == digits_value(whole.drop_last()) * 10 + (whole.last() - 48));
    }
}

/// Reading back the decimal text of an integer gives the integer.
pub proof fn lemma_parse_decimal_round_trip(n: int)
    ensures
        parse_decimal(decimal(n)) == Some(n),
{
    if n < 0 {
        lemma_digits((-n) as nat);
        assert(decimal(n).skip(1) =~= digits((-n) as nat));
    } else {
        lemma_digits(n as nat);
        assert(is_digit(digits(n as nat)[0]));
    }
}

/// Appends the digits of `n` to `out`.
fn push_digits(n: u64, out: &mut Vec<u8>)
    ensures
        final(out)@ == old(out)@ + digits(n as nat),
    decreases n,
{
    if n >= 10 {
        push_digits(n / 10, out);
    }
    out.push(48u8 + (n % 10) as u8);
    assert(out@ =~= old(out)@ + digits(n as nat));
}

/// The decimal text of `n`.
pub fn format_i64(n: i64) -> (text: Vec<u8>)
    ensures
        text@ == decimal(n as int),
{
    let mut text: Vec<u8> = Vec::new();
    if n < 0 {
        text.push(45u8);
        let magnitude: u64 = (-(n as i128)) as u64;
        push_digits(magnitude, &mut text);
        assert(text@ =~= decimal(n as int));
    } else {
        push_digits(n as u64, &mut text);
        assert(text@ =~= decimal(n as int));
    }
    text
}

/// Reads a string of digits; `None` if it is empty, holds anything but
/// digits, or denotes more than `limit`.
fn parse_digits(text: &[u8], from: usize, limit: u64) -> (value: Option<u64>)
    requires
        from <= text.len(),
        9 <= limit <= 0x8000_0000_0000_0000,
    ensures
        match value {
            Some(v) => text@.skip(from as int).len() > 0 && all_digits(text@.skip(from as int))
                && v == digits_value(text@.skip(from as int)) && v <= limit,
            None => !(text@.skip(from as int).len() > 0 && all_digits(text@.skip(from as int))
                && digits_value(text@.skip(from as int)) <= limit),
        },
{
    let ghost body = text@.skip(from as int);
    if from == text.len() {
        return None;
    }
    let mut acc: u64 = 0;
    let mut over = false;
    let mut i: usize = from;
    assert(body.take(0) =~= Seq::<u8>::empty());
    while i < text.len()
        invariant
            from <= i <= text.len(),
            body == text@.skip(from as int),
            9 <= limit <= 0x8000_0000_0000_0000,
            all_digits(body.take(i - from)),
            !over ==> acc == digits_value(body.take(i - from)) && acc <= limit,
            over ==> digits_value(body.take(i - from)) > limit,
        decreases text.len() - i,
    {
        let b = text[i];
        let ghost seen = body.take(i - from);
        let ghost next = body.take(i - from + 1);
        proof {
            assert(next.drop_last() =~= seen);
            assert(next.last() == b);
        }
        if b < 48 || b > 57 {
            proof {
                assert(body[i - from] == b);
                assert(!is_digit(body[i - from]));
            }
            return None;
        }
        proof {
            assert forall|j: int| 0 <= j < next.len() implies is_digit(#[trigger] next[j]) by {
                if j < seen.len() {
                    assert(next[j] == seen[j]);
                }
            }
        }
        if !over {
            let d: u64 = (b - 48) as u64;
            if acc > (limit - d) / 10 {
                over = true;
                assert(digits_value(next) > limit) by (nonlinear_arith)
                    requires
                        digits_value(next) == acc * 10 + d,
                        acc > (limit - d) / 10,
                        d <= 9,
                        limit >= d,
                ;
            } else {
                assert(acc * 10 + d <= limit) by (nonlinear_arith)
                    requires
                        acc <= (limit - d) / 10,
                        d <= 9,
                        limit >= d,
                ;
                acc = acc * 10 + d;
            }
        } else {
            assert(digits_value(next) >= digits_value(seen)) by (nonlinear_arith)
                requires
                    digits_value(next) == digits_value(seen) * 10 + (b - 48),
                    b >= 48,
            ;
        }
        i += 1;
    }
    assert(body.take(i - from) =~= body);
    if over {
        None
    } else {
        Some(acc)
    }
}

/// Reads a signed 64-bit integer from its decimal text.
pub fn parse_i64(text: &[u8]) -> (value: Option<i64>)
    ensures
        value == parse_i64_spec(text@),
{
    if text.len() == 0 {
        return None;
    }
    let first = text[0];
    if first == 45u8 {
        match parse_digits(text, 1, 0x8000_0000_0000_0000u64) {
            Some(v) => {
                if v == 0x8000_0000_0000_0000u64 {
                    Some(i64::MIN)
                } else {
                    Some(-(v as i64))
                }
            },
            None => None,
        }
    } else if first == 43u8 {
        match parse_digits(text, 1, 0x7fff_ffff_ffff_ffffu64) {
            Some(v) => Some(v as i64),
            None => None,
        }
    } else {
        assert(text@.skip(0) =~= text@);
        match parse_digits(text, 0, 0x7fff_ffff_ffff_ffffu64) {
            Some(v) => Some(v as i64),
            None => None,
        }
    }
}

} // verus!
