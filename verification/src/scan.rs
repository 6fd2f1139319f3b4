//! Reading whitespace-separated decimal numbers out of a byte buffer.
//!
//! The caller owns the bytes (a line of input, a buffered stream) and a
//! cursor; `read` skips leading whitespace, takes the next token
//! together with the single whitespace byte that ends it, and parses the
//! token as an unsigned 32-bit decimal number, with an optional leading
//! plus sign. `sum_tokens` folds a whole buffer that way.

use vstd::prelude::*;

use crate::http_tunnel_codec::is_digit;

verus! {

/// Whitespace, for bytes read as Latin-1 characters: ASCII whitespace
/// (space, tab, line feed, vertical tab, form feed, carriage return)
/// together with the next line and no-break space characters.
pub open spec fn is_ws(b: u8) -> bool {
    b == 32 || (9 <= b <= 13) || b == 0x85 || b == 0xa0
}

/// The first position at or after `i` holding a non-whitespace byte, or
/// the end of the buffer.
pub open spec fn skip_ws_from(s: Seq<u8>, i: int) -> int
    decreases s.len() - i,
{
    if 0 <= i < s.len() && is_ws(s[i]) {
        skip_ws_from(s, i + 1)
    } else {
        i
    }
}

/// The first position at or after `i` holding a whitespace byte, or the
/// end of the buffer.
pub open spec fn token_end_from(s: Seq<u8>, i: int) -> int
    decreases s.len() - i,
{
    if 0 <= i < s.len() && !is_ws(s[i]) {
        token_end_from(s, i + 1)
    } else {
        i
    }
}

/// The decimal value of a digit string.
pub open spec fn decimal_value(t: Seq<u8>) -> int
    decreases t.len(),
{
    if t.len() == 0 {
        0
    } else {
        decimal_value(t.drop_last()) * 10 + (t.last() - 48)
    }
}

pub open spec fn all_digits(t: Seq<u8>) -> bool {
    forall|i: int| 0 <= i < t.len() ==> is_digit(t[i])
}

/// The digits of a token: everything after an optional leading plus
/// sign.
pub open spec fn token_digits(tok: Seq<u8>) -> Seq<u8> {
    if tok.len() > 0 && tok[0] == 43 {
        tok.drop_first()
    } else {
        tok
    }
}

/// What `read` parses out of the buffer at this cursor: the next
/// whitespace-separated token as a decimal `u32` with an optional
/// leading plus sign, if it is one.
pub open spec fn spec_read_value(s: Seq<u8>, start: int) -> Option<u32> {
    let t0 = skip_ws_from(s, start);
    let t1 = token_end_from(s, t0);
    let digits = token_digits(s.subrange(t0, t1));
    if digits.len() > 0 && all_digits(digits) && decimal_value(digits) <= u32::MAX {
        Some(decimal_value(digits) as u32)
    } else {
        None
    }
}

/// Where the cursor stands after one read: past the token and past the
/// one whitespace byte that ended it, when there is one.
pub open spec fn spec_next_cursor(s: Seq<u8>, start: int) -> int {
    let t1 = token_end_from(s, skip_ws_from(s, start));
    if t1 < s.len() {
        t1 + 1
    } else {
        t1
    }
}

pub proof fn lemma_skip_ws_bounds(s: Seq<u8>, i: int)
    requires
        0 <= i <= s.len(),
    ensures
        i <= skip_ws_from(s, i) <= s.len(),
    decreases s.len() - i,
{
    if i < s.len() && is_ws(s[i]) {
        lemma_skip_ws_bounds(s, i + 1);
    }
}

pub proof fn lemma_token_end_bounds(s: Seq<u8>, i: int)
    requires
        0 <= i <= s.len(),
    ensures
        i <= token_end_from(s, i) <= s.len(),
    decreases s.len() - i,
{
    if i < s.len() && !is_ws(s[i]) {
        lemma_token_end_bounds(s, i + 1);
    }
}

/// A read that yields a value has consumed at least one byte: the
/// cursor strictly advances.
pub proof fn lemma_next_cursor_advances(s: Seq<u8>, start: int)
    requires
        0 <= start <= s.len(),
        spec_read_value(s, start) is Some,
    ensures
        start < spec_next_cursor(s, start) <= s.len(),
{
    lemma_skip_ws_bounds(s, start);
    let t0 = skip_ws_from(s, start);
    lemma_token_end_bounds(s, t0);
}

proof fn lemma_decimal_value_nonneg(t: Seq<u8>)
    requires
        all_digits(t),
    ensures
        decimal_value(t) >= 0,
    decreases t.len(),
{
    if t.len() > 0 {
        assert(all_digits(t.drop_last()));
        lemma_decimal_value_nonneg(t.drop_last());
    }
}

/// Appending digits can only grow the value.
proof fn lemma_decimal_value_prefix(t: Seq<u8>, k: int)
    requires
        all_digits(t),
        0 <= k <= t.len(),
    ensures
        decimal_value(t) >= decimal_value(t.subrange(0, k)),
    decreases t.len() - k,
{
    if k == t.len() {
        assert(t.subrange(0, k) =~= t);
    } else {
        lemma_decimal_value_prefix(t, k + 1);
        let u = t.subrange(0, k + 1);
        assert(all_digits(u));
        assert(u.drop_last() =~= t.subrange(0, k));
        lemma_decimal_value_nonneg(u.drop_last());
    }
}

/// Read the next whitespace-separated token starting at `start` and
/// parse it as a decimal `u32` with an optional leading plus sign.
/// Returns the parsed value — `None` for an empty, non-numeric or
/// overflowing token — and the cursor past the token and its one
/// closing whitespace byte, if any.
pub fn read(input: &[u8], start: usize) -> (r: (Option<u32>, usize))
    requires
        start <= input@.len(),
    ensures
        r.1 == spec_next_cursor(input@, start as int),
        start <= r.1 <= input@.len(),
        r.0 == spec_read_value(input@, start as int),
{
    let n = input.len();
    let mut i: usize = start;
    while i < n
        invariant
            n == input@.len(),
            start <= i <= n,
            skip_ws_from(input@, start as int) == skip_ws_from(input@, i as int),
        ensures
            i == skip_ws_from(input@, start as int),
        decreases n - i,
    {
        let b = input[i];
        if !(b == 32 || (9 <= b && b <= 13) || b == 0x85 || b == 0xa0) {
            break;
        }
        i = i + 1;
    }
    let t0 = i;
    let mut j: usize = t0;
    while j < n
        invariant
            n == input@.len(),
            t0 <= j <= n,
            token_end_from(input@, t0 as int) == token_end_from(input@, j as int),
        ensures
            j == token_end_from(input@, t0 as int),
        decreases n - j,
    {
        let b = input[j];
        if b == 32 || (9 <= b && b <= 13) || b == 0x85 || b == 0xa0 {
            break;
        }
        j = j + 1;
    }
    let t1 = j;
    let next: usize = if t1 < n {
        t1 + 1
    } else {
        t1
    };
    let ghost tok = input@.subrange(t0 as int, t1 as int);
    if t1 == t0 {
        return (None, next);
    }
    // Skip an optional leading plus sign; what follows must be digits.
    let d0: usize = if input[t0] == 43 {
        t0 + 1
    } else {
        t0
    };
    let ghost digits = input@.subrange(d0 as int, t1 as int);
    proof {
        assert(digits =~= token_digits(tok));
    }
    if d0 == t1 {
        return (None, next);
    }
    let mut value: u64 = 0;
    let mut k: usize = d0;
    while k < t1
        invariant
            n == input@.len(),
            start <= t0,
            t0 == skip_ws_from(input@, start as int),
            t1 == token_end_from(input@, t0 as int),
            next == spec_next_cursor(input@, start as int),
            t0 <= d0 <= k <= t1 <= n,
            d0 < t1,
            digits == input@.subrange(d0 as int, t1 as int),
            digits == token_digits(input@.subrange(t0 as int, t1 as int)),
            all_digits(input@.subrange(d0 as int, k as int)),
            value <= u32::MAX,
            value == decimal_value(input@.subrange(d0 as int, k as int)),
        decreases t1 - k,
    {
        let b = input[k];
        if !(48 <= b && b <= 57) {
            proof {
                assert(!is_digit(digits[k - d0]));
            }
            return (None, next);
        }
        let next_value: u64 = value * 10 + ((b - 48) as u64);
        proof {
            let pre = input@.subrange(d0 as int, k as int);
            let cur = input@.subrange(d0 as int, k as int + 1);
            assert(cur.drop_last() =~= pre);
            assert(cur.last() == b);
        }
        if next_value > (u32::MAX as u64) {
            proof {
                let cur = input@.subrange(d0 as int, k as int + 1);
                if all_digits(digits) {
                    assert(cur =~= digits.subrange(0, k - d0 + 1));
                    lemma_decimal_value_prefix(digits, k - d0 + 1);
                }
            }
            return (None, next);
        }
        value = next_value;
        k = k + 1;
    }
    proof {
        assert(input@.subrange(d0 as int, t1 as int) =~= digits);
        assert(all_digits(digits));
    }
    (Some(value as u32), next)
}

/// The sum of the values of successive reads, stopping at the first
/// token that yields none — the end of the buffer, or a token that is
/// not a number.
pub open spec fn spec_token_sum(s: Seq<u8>, start: int) -> int
    decreases s.len() - start
        when 0 <= start <= s.len()
        via spec_token_sum_decreases
{
    match spec_read_value(s, start) {
        None => 0,
        Some(v) => v + spec_token_sum(s, spec_next_cursor(s, start)),
    }
}

#[via_fn]
proof fn spec_token_sum_decreases(s: Seq<u8>, start: int) {
    if spec_read_value(s, start) is Some {
        lemma_next_cursor_advances(s, start);
    }
}

/// Every token value is nonnegative, so the running sum never shrinks.
pub proof fn lemma_token_sum_nonneg(s: Seq<u8>, start: int)
    requires
        0 <= start <= s.len(),
    ensures
        spec_token_sum(s, start) >= 0,
    decreases s.len() - start,
{
    if spec_read_value(s, start) is Some {
        lemma_next_cursor_advances(s, start);
        lemma_token_sum_nonneg(s, spec_next_cursor(s, start));
    }
}

/// Fold a whole buffer with `read`, accumulating the values until the
/// first read yields none. Reports the exact sum, or nothing when the
/// sum does not fit in 32 bits.
pub fn sum_tokens(input: &[u8]) -> (r: Option<u32>)
    ensures
        match r {
            Some(total) => total == spec_token_sum(input@, 0),
            None => spec_token_sum(input@, 0) > u32::MAX,
        },
{
    let mut acc: u32 = 0;
    let mut pos: usize = 0;
    loop
        invariant
            pos <= input@.len(),
            acc + spec_token_sum(input@, pos as int) == spec_token_sum(input@, 0),
        decreases input@.len() - pos,
    {
        let step = read(input, pos);
        let next: usize = step.1;
        match step.0 {
            None => {
                return Some(acc);
            },
            Some(v) => {
                proof {
                    lemma_next_cursor_advances(input@, pos as int);
                    lemma_token_sum_nonneg(input@, next as int);
                }
                if (acc as u64) + (v as u64) > (u32::MAX as u64) {
                    return None;
                }
                acc = acc + v;
                pos = next;
            },
        }
    }
}

} // verus!
