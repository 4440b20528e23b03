//! Decimal text: unsigned and signed integers, fixed-width fields and
//! fixed-point numbers with nine fractional digits, written as ASCII bytes,
//! with the decoding that inverts each of them.
use vstd::prelude::*;

verus! {

/// The ASCII digit of `d`, for `0 <= d < 10`.
pub open spec fn digit(d: int) -> u8 {
    (48 + d) as u8
}

/// The value of one ASCII digit.
pub open spec fn digit_value(b: u8) -> int {
    b - 48
}

/// Whether every byte of `s` is an ASCII digit.
pub open spec fn all_digits(s: Seq<u8>) -> bool {
    forall|i: int| 0 <= i < s.len() ==> 48 <= #[trigger] s[i] <= 57
}

/// `n` in decimal, without leading zeros (`0` is a single digit).
pub open spec fn dec_digits(n: nat) -> Seq<u8>
    decreases n,
{
    if n < 10 {
        seq![digit(n as int)]
    } else {
        dec_digits(n / 10).push(digit((n % 10) as int))
    }
}

/// The last `w` decimal digits of `n`, with leading zeros.
pub open spec fn padded(n: nat, w: nat) -> Seq<u8>
    decreases w,
{
    if w == 0 {
        Seq::empty()
    } else {
        padded(n / 10, (w - 1) as nat).push(digit((n % 10) as int))
    }
}

/// The number that a string of decimal digits spells.
pub open spec fn digits_value(s: Seq<u8>) -> int
    decreases s.len(),
{
    if s.len() == 0 {
        0
    } else {
        digits_value(s.drop_last()) * 10 + digit_value(s.last())
    }
}

/// `10^w`.
pub open spec fn pow10(w: nat) -> nat
    decreases w,
{
    if w == 0 {
        1
    } else {
        10 * pow10((w - 1) as nat)
    }
}

/// The minus sign in front of a negative value, nothing otherwise.
pub open spec fn sign_text(v: int) -> Seq<u8> {
    if v < 0 {
        seq![45u8]
    } else {
        Seq::empty()
    }
}

/// Absolute value.
pub open spec fn abs(v: int) -> nat {
    if v < 0 {
        (-v) as nat
    } else {
        v as nat
    }
}

/// A signed integer in decimal: `-12`, `0`, `305`.
pub open spec fn int_text(v: int) -> Seq<u8> {
    sign_text(v) + dec_digits(abs(v))
}

/// Billionths written as a decimal with nine fractional digits:
/// `1650402930` is `1.650402930`, `-5` is `-0.000000005`.
pub open spec fn fixed9_text(v: int) -> Seq<u8> {
    sign_text(v) + dec_digits(abs(v) / 1_000_000_000) + seq![46u8] + padded(abs(v) % 1_000_000_000, 9)
}

/// Reads back a signed integer written by `int_text`.
pub open spec fn int_value(s: Seq<u8>) -> int {
    if s.len() > 0 && s[0] == 45u8 {
        -digits_value(s.drop_first())
    } else {
        digits_value(s)
    }
}

/// Reads back billionths written by `fixed9_text`: the integer part, a point,
/// and nine fractional digits.
pub open spec fn fixed9_value(s: Seq<u8>) -> int {
    let neg = s.len() > 0 && s[0] == 45u8;
    let body = if neg { s.drop_first() } else { s };
    let mag = digits_value(body.subrange(0, body.len() - 10)) * 1_000_000_000
        + digits_value(body.subrange(body.len() - 9, body.len() as int));
    if neg { -mag } else { mag }
}

proof fn lemma_digit_value(d: int)
    requires
        0 <= d < 10,
    ensures
        digit_value(digit(d)) == d,
        48 <= digit(d) <= 57,
{
}

/// The decimal digits of `n` spell `n` again.
pub proof fn lemma_dec_digits(n: nat)
    ensures
        digits_value(dec_digits(n)) == n,
        all_digits(dec_digits(n)),
        dec_digits(n).len() >= 1,
    decreases n,
{
    lemma_digit_value((n % 10) as int);
    if n < 10 {
        assert(dec_digits(n).drop_last() == Seq::<u8>::empty());
        assert(digits_value(Seq::<u8>::empty()) == 0);
    } else {
        lemma_dec_digits(n / 10);
        let s = dec_digits(n);
        assert(s.drop_last() == dec_digits(n / 10));
        assert forall|i: int| 0 <= i < s.len() implies 48 <= #[trigger] s[i] <= 57 by {
            if i < s.len() - 1 {
                assert(s[i] == dec_digits(n / 10)[i]);
            }
        }
        assert(s.last() == digit((n % 10) as int));
    }
}

/// `w` digits with leading zeros spell `n` again, where `n` has at most `w`
/// digits.
pub proof fn lemma_padded(n: nat, w: nat)
    requires
        n < pow10(w),
    ensures
        digits_value(padded(n, w)) == n,
        all_digits(padded(n, w)),
        padded(n, w).len() == w,
    decreases w,
{
    if w > 0 {
        lemma_digit_value((n % 10) as int);
        assert(n / 10 < pow10((w - 1) as nat));
        lemma_padded(n / 10, (w - 1) as nat);
        let s = padded(n, w);
        assert(s.drop_last() == padded(n / 10, (w - 1) as nat));
        assert forall|i: int| 0 <= i < s.len() implies 48 <= #[trigger] s[i] <= 57 by {
            if i < s.len() - 1 {
                assert(s[i] == padded(n / 10, (w - 1) as nat)[i]);
            }
        }
    }
}

/// Reading back the text of a signed integer gives the integer.
pub proof fn lemma_int_text(v: int)
    ensures
        int_value(int_text(v)) == v,
        all_digits(int_text(v)) || int_text(v)[0] == 45u8,
        !int_text(v).contains(44u8),
{
    lemma_dec_digits(abs(v));
    let t = int_text(v);
    if v < 0 {
        assert(t.drop_first() == dec_digits(abs(v)));
    } else {
        assert(t == dec_digits(abs(v)));
    }
    lemma_no_comma(t);
}

/// Reading back the text of billionths gives the same billionths.
pub proof fn lemma_fixed9_text(v: int)
    ensures
        fixed9_value(fixed9_text(v)) == v,
        !fixed9_text(v).contains(44u8),
{
    let m = abs(v);
    lemma_dec_digits(m / 1_000_000_000);
    reveal_with_fuel(pow10, 10);
    assert(pow10(9) == 1_000_000_000);
    lemma_padded(m % 1_000_000_000, 9);
    let ip = dec_digits(m / 1_000_000_000);
    let fp = padded(m % 1_000_000_000, 9);
    let body = ip + seq![46u8] + fp;
    assert(body.subrange(0, body.len() - 10) == ip);
    assert(body.subrange(body.len() - 9, body.len() as int) == fp);
    let t = fixed9_text(v);
    if v < 0 {
        assert(t.drop_first() == body);
        assert(t[0] == 45u8);
    } else {
        assert(t == body);
        assert(t[0] == ip[0]);
    }
    assert(!t.contains(44u8)) by {
        if t.contains(44u8) {
            let i = choose|i: int| 0 <= i < t.len() && t[i] == 44u8;
            if v < 0 && i == 0 {
            } else {
                let j = if v < 0 { i - 1 } else { i };
                assert(body[j] == 44u8);
                if j < ip.len() {
                    assert(ip[j] == 44u8);
                } else if j > ip.len() {
                    assert(fp[j - ip.len() - 1] == 44u8);
                }
            }
        }
    }
}

/// A string of digits, possibly after a minus sign, holds no comma.
proof fn lemma_no_comma(t: Seq<u8>)
    requires
        t.len() > 0,
        all_digits(t) || (t[0] == 45u8 && all_digits(t.drop_first())),
    ensures
        !t.contains(44u8),
{
    if t.contains(44u8) {
        let i = choose|i: int| 0 <= i < t.len() && t[i] == 44u8;
        if !all_digits(t) && i > 0 {
            assert(t.drop_first()[i - 1] == t[i]);
        }
    }
}

/// Appends `n` in decimal.
pub fn push_decimal(out: &mut Vec<u8>, n: u64)
    ensures
        final(out)@ == old(out)@ + dec_digits(n as nat),
    decreases n,
{
    if n >= 10 {
        push_decimal(out, n / 10);
    }
    out.push(48u8 + (n % 10) as u8);
    proof {
        if n < 10 {
            assert(final(out)@ == old(out)@ + dec_digits(n as nat));
        }
    }
}

/// Appends the last `w` decimal digits of `n`, with leading zeros.
pub fn push_padded(out: &mut Vec<u8>, n: u64, w: u64)
    ensures
        final(out)@ == old(out)@ + padded(n as nat, w as nat),
    decreases w,
{
    if w > 0 {
        push_padded(out, n / 10, w - 1);
        out.push(48u8 + (n % 10) as u8);
    } else {
        assert(old(out)@ + padded(n as nat, 0) == old(out)@);
    }
}

/// The magnitude of a signed value.
fn magnitude(v: i64) -> (r: u64)
    ensures
        r == abs(v as int),
{
    if v < 0 {
        (-(v as i128)) as u64
    } else {
        v as u64
    }
}

/// Appends a signed integer in decimal.
pub fn push_int(out: &mut Vec<u8>, v: i64)
    ensures
        final(out)@ == old(out)@ + int_text(v as int),
{
    if v < 0 {
        out.push(45u8);
    }
    push_decimal(out, magnitude(v));
    assert(final(out)@ == old(out)@ + int_text(v as int));
}

/// Appends billionths as a decimal with nine fractional digits.
pub fn push_fixed9(out: &mut Vec<u8>, v: i64)
    ensures
        final(out)@ == old(out)@ + fixed9_text(v as int),
{
    let m = magnitude(v);
    if v < 0 {
        out.push(45u8);
    }
    push_decimal(out, m / 1_000_000_000);
    out.push(46u8);
    push_padded(out, m % 1_000_000_000, 9);
    assert(final(out)@ == old(out)@ + fixed9_text(v as int));
}

}  // verus!
