//! Balances as decimal strings of the smallest on-chain unit, and their
//! reading in whole units (one unit is `10^18` smallest units).
use vstd::prelude::*;

verus! {

/// Smallest units in one whole unit.
pub const UNITS_PER_WHOLE: u128 = 1_000_000_000_000_000_000;

/// Number of decimal places between the smallest unit and a whole unit.
pub const DECIMALS: usize = 18;

/// Balances strictly below this many smallest units (a tenth of a whole
/// unit) are low.
pub const LOW_BALANCE_LIMIT: u128 = 100_000_000_000_000_000;

/// Why a balance string could not be read.
#[derive(Debug, PartialEq, Eq, Structural, Clone, Copy)]
pub enum BalanceError {
    /// The string is empty or holds a character other than `0`..`9`.
    NotADecimalInteger,
}

pub open spec fn is_digit(c: char) -> bool {
    '0' <= c && c <= '9'
}

pub open spec fn digit_value(c: char) -> nat {
    (c as int - '0' as int) as nat
}

/// A non-empty string of decimal digits.
pub open spec fn is_decimal(s: Seq<char>) -> bool {
    s.len() > 0 && forall|i: int| 0 <= i < s.len() ==> is_digit(#[trigger] s[i])
}

/// The number that a string of decimal digits denotes.
pub open spec fn decimal_value(s: Seq<char>) -> nat
    decreases s.len(),
{
    if s.len() == 0 {
        0
    } else {
        decimal_value(s.drop_last()) * 10 + digit_value(s.last())
    }
}

/// A balance of `units` smallest units is low when, read in whole units
/// (`units / 10^18`), it is strictly below `0.1`.
pub open spec fn is_low(units: nat) -> bool {
    units * 10 < UNITS_PER_WHOLE
}

pub open spec fn zeros(n: nat) -> Seq<char> {
    Seq::new(n, |i: int| '0')
}

pub open spec fn strip_leading_zeros(s: Seq<char>) -> Seq<char>
    decreases s.len(),
{
    if s.len() > 0 && s[0] == '0' {
        strip_leading_zeros(s.drop_first())
    } else {
        s
    }
}

pub open spec fn strip_trailing_zeros(s: Seq<char>) -> Seq<char>
    decreases s.len(),
{
    if s.len() > 0 && s.last() == '0' {
        strip_trailing_zeros(s.drop_last())
    } else {
        s
    }
}

/// The whole-unit reading of a balance string: the decimal point moved
/// `DECIMALS` places to the left, with no superfluous zeros on either side
/// (`"50000000000000000"` reads `"0.05"`, `"2000000000000000000"` reads `"2"`).
pub open spec fn whole_units_text(s: Seq<char>) -> Seq<char> {
    let d = strip_leading_zeros(s);
    let whole = if d.len() > DECIMALS {
        d.subrange(0, d.len() - DECIMALS)
    } else {
        seq!['0']
    };
    let frac = if d.len() > DECIMALS {
        d.subrange(d.len() - DECIMALS, d.len() as int)
    } else {
        zeros((DECIMALS - d.len()) as nat) + d
    };
    let f = strip_trailing_zeros(frac);
    if f.len() == 0 {
        whole
    } else {
        whole + seq!['.'] + f
    }
}

proof fn lemma_prefix_step(s: Seq<char>, i: int)
    requires
        0 <= i < s.len(),
    ensures
        s.subrange(0, i + 1).drop_last() == s.subrange(0, i),
        s.subrange(0, i + 1).last() == s[i],
{
    assert(s.subrange(0, i + 1).drop_last() =~= s.subrange(0, i));
}

/// Stripping trailing zeros of a block of zeros followed by a string that
/// starts with a non-zero digit only touches that string.
proof fn lemma_strip_trailing_after_zeros(k: nat, d: Seq<char>)
    requires
        d.len() > 0,
        d[0] != '0',
    ensures
        strip_trailing_zeros(zeros(k) + d) == zeros(k) + strip_trailing_zeros(d),
    decreases d.len(),
{
    let z = zeros(k) + d;
    assert(z.last() == d.last());
    if d.last() == '0' {
        assert(d.len() > 1);
        assert(z.drop_last() =~= zeros(k) + d.drop_last());
        lemma_strip_trailing_after_zeros(k, d.drop_last());
    }
}

/// Checks that `s` is a non-empty string of decimal digits.
pub fn check_decimal(s: &str) -> (r: Result<(), BalanceError>)
    ensures
        r is Ok <==> is_decimal(s@),
{
    let n = s.unicode_len();
    if n == 0 {
        return Err(BalanceError::NotADecimalInteger);
    }
    let mut i: usize = 0;
    while i < n
        invariant
            n == s@.len(),
            i <= n,
            forall|j: int| 0 <= j < i ==> is_digit(#[trigger] s@[j]),
        decreases n - i,
    {
        let c = s.get_char(i);
        if !('0' <= c && c <= '9') {
            return Err(BalanceError::NotADecimalInteger);
        }
        i = i + 1;
    }
    Ok(())
}

/// Decides whether a balance, given as a decimal string of smallest units,
/// is low. Any length of string is read exactly.
pub fn is_low_balance(raw: &str) -> (r: Result<bool, BalanceError>)
    ensures
        r is Err <==> !is_decimal(raw@),
        r matches Ok(low) ==> low == is_low(decimal_value(raw@)),
{
    let n = raw.unicode_len();
    if n == 0 {
        return Err(BalanceError::NotADecimalInteger);
    }
    // `v` is the value of the digits read so far, held at the limit once it
    // reaches it.
    let mut v: u128 = 0;
    let mut i: usize = 0;
    while i < n
        invariant
            n == raw@.len(),
            i <= n,
            forall|j: int| 0 <= j < i ==> is_digit(#[trigger] raw@[j]),
            v <= LOW_BALANCE_LIMIT,
            v == (if decimal_value(raw@.subrange(0, i as int)) < LOW_BALANCE_LIMIT {
                decimal_value(raw@.subrange(0, i as int))
            } else {
                LOW_BALANCE_LIMIT as nat
            }),
        decreases n - i,
    {
        let c = raw.get_char(i);
        if !('0' <= c && c <= '9') {
            return Err(BalanceError::NotADecimalInteger);
        }
        proof {
            lemma_prefix_step(raw@, i as int);
        }
        let d = (c as u32 - '0' as u32) as u128;
        if v < LOW_BALANCE_LIMIT {
            let t = v * 10 + d;
            v = if t < LOW_BALANCE_LIMIT {
                t
            } else {
                LOW_BALANCE_LIMIT
            };
        }
        i = i + 1;
    }
    assert(raw@.subrange(0, n as int) =~= raw@);
    Ok(v < LOW_BALANCE_LIMIT)
}

fn push_zeros(out: &mut String, k: usize)
    ensures
        final(out)@ == old(out)@ + zeros(k as nat),
{
    let mut i: usize = 0;
    while i < k
        invariant
            i <= k,
            out@ == old(out)@ + zeros(i as nat),
        decreases k - i,
    {
        out.append("0");
        proof {
            reveal_strlit("0");
        }
        assert(out@ =~= old(out)@ + zeros((i + 1) as nat));
        i = i + 1;
    }
}

/// Writes a balance, given as a decimal string of smallest units, in whole
/// units.
pub fn whole_units(raw: &str) -> (r: Result<String, BalanceError>)
    ensures
        r is Err <==> !is_decimal(raw@),
        r matches Ok(text) ==> text@ == whole_units_text(raw@),
{
    check_decimal(raw)?;
    let n = raw.unicode_len();
    let ghost s = raw@;
    // Skip leading zeros.
    let mut start: usize = 0;
    assert(s.subrange(0, n as int) =~= s);
    while start < n && raw.get_char(start) == '0'
        invariant
            s == raw@,
            n == s.len(),
            start <= n,
            strip_leading_zeros(s) == strip_leading_zeros(s.subrange(start as int, n as int)),
        decreases n - start,
    {
        assert(s.subrange(start as int, n as int).drop_first() =~= s.subrange(
            start + 1,
            n as int,
        ));
        start = start + 1;
    }
    let ghost d = s.subrange(start as int, n as int);
    assert(strip_leading_zeros(d) == d);
    let len = n - start;
    // The fractional digits that come from the string are `lo..n`.
    let lo: usize = if len > DECIMALS {
        n - DECIMALS
    } else {
        start
    };
    // Drop trailing zeros of the fractional digits.
    let mut end: usize = n;
    while end > lo && raw.get_char(end - 1) == '0'
        invariant
            s == raw@,
            n == s.len(),
            start <= lo <= end <= n,
            (lo < n && s[lo as int] != '0') ==> end > lo,
            strip_trailing_zeros(s.subrange(lo as int, n as int)) == strip_trailing_zeros(
                s.subrange(lo as int, end as int),
            ),
        decreases end,
    {
        assert(s.subrange(lo as int, end as int).drop_last() =~= s.subrange(
            lo as int,
            end - 1,
        ));
        end = end - 1;
    }
    let ghost tail = s.subrange(lo as int, end as int);
    assert(strip_trailing_zeros(tail) == tail);
    let mut out = String::new();
    if len > DECIMALS {
        out.append(raw.substring_char(start, lo));
        assert(d.subrange(0, d.len() - DECIMALS) =~= s.subrange(start as int, lo as int));
        assert(d.subrange(d.len() - DECIMALS, d.len() as int) =~= s.subrange(
            lo as int,
            n as int,
        ));
        if end > lo {
            out.append(".");
            out.append(raw.substring_char(lo, end));
            proof {
                reveal_strlit(".");
            }
            assert(out@ =~= s.subrange(start as int, lo as int) + seq!['.'] + tail);
        }
    } else {
        out.append("0");
        proof {
            reveal_strlit("0");
            reveal_strlit(".");
        }
        if len > 0 {
            proof {
                lemma_strip_trailing_after_zeros((DECIMALS - len) as nat, d);
                assert(s.subrange(lo as int, n as int) == d);
            }
            out.append(".");
            push_zeros(&mut out, DECIMALS - len);
            out.append(raw.substring_char(lo, end));
            assert(out@ =~= seq!['0'] + seq!['.'] + (zeros((DECIMALS - len) as nat) + tail));
        } else {
            proof {
                assert(zeros((DECIMALS - len) as nat) + d =~= zeros(DECIMALS as nat));
                lemma_strip_all_zeros(DECIMALS as nat);
            }
        }
    }
    Ok(out)
}

proof fn lemma_strip_all_zeros(k: nat)
    ensures
        strip_trailing_zeros(zeros(k)).len() == 0,
    decreases k,
{
    if k > 0 {
        assert(zeros(k).drop_last() =~= zeros((k - 1) as nat));
        lemma_strip_all_zeros((k - 1) as nat);
    }
}

} // verus!
