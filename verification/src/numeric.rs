use vstd::prelude::*;
use crate::text::{chars_of, find_char, index_of, lemma_index_of_is, string_of};

verus! {

/// Number of scaled units in one whole unit: prices and quantities carry
/// eight decimal digits.
pub const SCALE: u64 = 100_000_000;

/// Number of fractional digits carried by a scaled value.
pub const SCALE_DIGITS: usize = 8;

/// Largest scaled value that parsing admits (2^63 - 1).
pub const MAX_SCALED: u64 = 0x7FFF_FFFF_FFFF_FFFF;

/// Largest whole part whose scaled value can still be admitted.
pub const MAX_WHOLE: u64 = 92_233_720_368;

/// Whether `c` is a decimal digit.
pub open spec fn is_digit(c: char) -> bool {
    '0' <= c && c <= '9'
}

/// The value of a decimal digit.
pub open spec fn digit_value(c: char) -> nat {
    (c as nat - '0' as nat) as nat
}

/// The decimal digit of a value below ten.
pub open spec fn digit_char(d: nat) -> char {
    if d == 0 {
        '0'
    } else if d == 1 {
        '1'
    } else if d == 2 {
        '2'
    } else if d == 3 {
        '3'
    } else if d == 4 {
        '4'
    } else if d == 5 {
        '5'
    } else if d == 6 {
        '6'
    } else if d == 7 {
        '7'
    } else if d == 8 {
        '8'
    } else {
        '9'
    }
}

/// Whether every character of `s` is a decimal digit.
pub open spec fn all_digits(s: Seq<char>) -> bool {
    forall|i: int| 0 <= i < s.len() ==> is_digit(#[trigger] s[i])
}

/// `10^n`.
pub open spec fn pow10(n: nat) -> nat
    decreases n,
{
    if n == 0 {
        1
    } else {
        10 * pow10((n - 1) as nat)
    }
}

/// The number that a string of decimal digits denotes, most significant
/// digit first.
pub open spec fn digits_value(s: Seq<char>) -> nat
    decreases s.len(),
{
    if s.len() == 0 {
        0
    } else {
        10 * digits_value(s.drop_last()) + digit_value(s.last())
    }
}

/// Index of the first `'.'` of `s`, or `s.len()` where it has none.
pub open spec fn first_dot(s: Seq<char>) -> int {
    index_of(s, '.')
}

/// What a fractional digit string contributes to a scaled value: its first
/// eight digits, padded with zeros on the right. Further digits are cut off.
pub open spec fn fraction_value(f: Seq<char>) -> nat {
    if f.len() >= 8 {
        digits_value(f.take(8))
    } else {
        digits_value(f) * pow10((8 - f.len()) as nat)
    }
}

/// The scaled value that a decimal string denotes: digits, optionally
/// followed by a point and more digits. Anything else denotes nothing.
pub open spec fn scaled_value(s: Seq<char>) -> Option<nat> {
    let d = first_dot(s);
    let whole = s.take(d);
    if whole.len() == 0 || !all_digits(whole) {
        None
    } else if d == s.len() {
        Some(digits_value(whole) * SCALE as nat)
    } else {
        let frac = s.skip(d + 1);
        if frac.len() == 0 || !all_digits(frac) {
            None
        } else {
            Some(digits_value(whole) * SCALE as nat + fraction_value(frac))
        }
    }
}

/// The result of [`parse_scaled`]: the denoted scaled value where it is
/// below 2^63.
pub open spec fn parse_scaled_spec(s: Seq<char>) -> Option<u64> {
    match scaled_value(s) {
        Some(v) => if v <= MAX_SCALED as nat {
            Some(v as u64)
        } else {
            None
        },
        None => None,
    }
}

/// The decimal digits of `n`, most significant first, without leading zeros.
pub open spec fn nat_digits(n: nat) -> Seq<char>
    decreases n,
{
    if n < 10 {
        seq![digit_char(n)]
    } else {
        nat_digits(n / 10).push(digit_char(n % 10))
    }
}

/// The last `width` decimal digits of `n`, with leading zeros.
pub open spec fn fixed_digits(n: nat, width: nat) -> Seq<char>
    decreases width,
{
    if width == 0 {
        Seq::empty()
    } else {
        fixed_digits(n / 10, (width - 1) as nat).push(digit_char(n % 10))
    }
}

/// `s` without the zeros at its end.
pub open spec fn trim_zeros(s: Seq<char>) -> Seq<char>
    decreases s.len(),
{
    if s.len() > 0 && s.last() == '0' {
        trim_zeros(s.drop_last())
    } else {
        s
    }
}

/// The decimal form of a scaled value: the whole part, then, where the
/// fraction is not zero, a point and the fraction without trailing zeros.
pub open spec fn decimal_string(v: u64) -> Seq<char> {
    let whole = nat_digits((v / SCALE) as nat);
    let frac = trim_zeros(fixed_digits((v % SCALE) as nat, 8));
    if frac.len() == 0 {
        whole
    } else {
        whole + seq!['.'] + frac
    }
}

/// The powers of ten up to the eighth.
pub proof fn lemma_pow10_values()
    ensures
        pow10(0) == 1,
        pow10(1) == 10,
        pow10(2) == 100,
        pow10(3) == 1_000,
        pow10(4) == 10_000,
        pow10(5) == 100_000,
        pow10(6) == 1_000_000,
        pow10(7) == 10_000_000,
        pow10(8) == 100_000_000,
{
    reveal_with_fuel(pow10, 9);
}

/// `10^(a + b) = 10^a * 10^b`.
pub proof fn lemma_pow10_add(a: nat, b: nat)
    ensures
        pow10(a + b) == pow10(a) * pow10(b),
    decreases a,
{
    if a > 0 {
        lemma_pow10_add((a - 1) as nat, b);
        assert(pow10(a + b) == 10 * pow10((a - 1 + b) as nat));
        assert(10 * (pow10((a - 1) as nat) * pow10(b)) == (10 * pow10((a - 1) as nat)) * pow10(b))
            by (nonlinear_arith);
    } else {
        assert(pow10(a) == 1);
        assert(1 * pow10(b) == pow10(b)) by (nonlinear_arith);
    }
}

/// The powers of ten grow, and none is below one.
pub proof fn lemma_pow10_monotone(a: nat, b: nat)
    requires
        a <= b,
    ensures
        pow10(a) <= pow10(b),
        pow10(a) >= 1,
    decreases b,
{
    if a < b {
        lemma_pow10_monotone(a, (b - 1) as nat);
    } else if a > 0 {
        lemma_pow10_monotone((a - 1) as nat, (a - 1) as nat);
    }
}

/// The first point is where a point stands with none before it.
pub proof fn lemma_first_dot_is(s: Seq<char>, d: int)
    requires
        0 <= d <= s.len(),
        forall|i: int| 0 <= i < d ==> #[trigger] s[i] != '.',
        d < s.len() ==> s[d] == '.',
    ensures
        first_dot(s) == d,
{
    lemma_index_of_is(s, '.', d);
}

/// A digit more multiplies by ten and adds the digit.
proof fn lemma_digits_value_push(s: Seq<char>, c: char)
    ensures
        digits_value(s.push(c)) == 10 * digits_value(s) + digit_value(c),
{
    assert(s.push(c).drop_last() == s);
}


/// A digit string denotes at least what any of its prefixes denotes.
pub proof fn lemma_digits_value_prefix(s: Seq<char>, i: int)
    requires
        0 <= i <= s.len(),
    ensures
        digits_value(s.take(i)) <= digits_value(s),
    decreases s.len(),
{
    if i == s.len() {
        assert(s.take(i) == s);
    } else {
        lemma_digits_value_prefix(s.drop_last(), i);
        assert(s.drop_last().take(i) == s.take(i));
    }
}

/// A string of `n` digits denotes a number below `10^n`.
pub proof fn lemma_digits_value_bound(s: Seq<char>)
    requires
        all_digits(s),
    ensures
        digits_value(s) < pow10(s.len()),
    decreases s.len(),
{
    if s.len() > 0 {
        let t = s.drop_last();
        assert(all_digits(t)) by {
            assert forall|i: int| 0 <= i < t.len() implies is_digit(#[trigger] t[i]) by {
                assert(t[i] == s[i]);
            }
        }
        lemma_digits_value_bound(t);
        assert(is_digit(s[s.len() - 1]));
    }
}

/// A prefix of a digit string is a digit string.
pub proof fn lemma_all_digits_prefix(s: Seq<char>, i: int)
    requires
        all_digits(s),
        0 <= i <= s.len(),
    ensures
        all_digits(s.take(i)),
{
    assert forall|j: int| 0 <= j < i implies is_digit(#[trigger] s.take(i)[j]) by {
        assert(s.take(i)[j] == s[j]);
    }
}

/// The value of `c` where it is a decimal digit.
pub fn digit_of(c: char) -> (r: Option<u8>)
    ensures
        r is Some <==> is_digit(c),
        r matches Some(d) ==> d as nat == digit_value(c) && d <= 9,
{
    if '0' <= c && c <= '9' {
        Some((c as u32 - '0' as u32) as u8)
    } else {
        None
    }
}

/// Whether every character of `cs[from..to]` is a decimal digit.
pub fn all_digits_range(cs: &Vec<char>, from: usize, to: usize) -> (b: bool)
    requires
        from <= to <= cs.len(),
    ensures
        b == all_digits(cs@.subrange(from as int, to as int)),
{
    let ghost r = cs@.subrange(from as int, to as int);
    let mut i: usize = from;
    while i < to
        invariant
            from <= i <= to <= cs.len(),
            r == cs@.subrange(from as int, to as int),
            forall|j: int| 0 <= j < i - from ==> is_digit(#[trigger] r[j]),
        decreases to - i,
    {
        if digit_of(cs[i]).is_none() {
            proof {
                assert(r[i - from] == cs@[i as int]);
            }
            return false;
        }
        proof {
            assert(r[i - from] == cs@[i as int]);
        }
        i += 1;
    }
    true
}

/// The number that the digits `cs[from..to]` denote, or `None` where it is
/// above `cap`.
pub fn digits_value_capped(cs: &Vec<char>, from: usize, to: usize, cap: u64) -> (r: Option<u64>)
    requires
        from <= to <= cs.len(),
        all_digits(cs@.subrange(from as int, to as int)),
        cap <= 1_000_000_000_000_000_000,
    ensures
        match r {
            Some(v) => v as nat == digits_value(cs@.subrange(from as int, to as int)) && v <= cap,
            None => digits_value(cs@.subrange(from as int, to as int)) > cap as nat,
        },
{
    let ghost r = cs@.subrange(from as int, to as int);
    let mut i: usize = from;
    let mut acc: u64 = 0;
    while i < to
        invariant
            from <= i <= to <= cs.len(),
            r == cs@.subrange(from as int, to as int),
            all_digits(r),
            acc as nat == digits_value(r.take(i - from)),
            acc <= cap,
            cap <= 1_000_000_000_000_000_000,
        decreases to - i,
    {
        let ghost k = i - from;
        proof {
            assert(r[k] == cs@[i as int]);
            assert(is_digit(r[k]));
            assert(r.take(k + 1) == r.take(k).push(r[k]));
            lemma_digits_value_push(r.take(k), r[k]);
        }
        let dg = match digit_of(cs[i]) {
            Some(d) => d,
            None => 0,
        };
        let next: u64 = acc * 10 + dg as u64;
        if next > cap {
            proof {
                lemma_digits_value_prefix(r, k + 1);
            }
            return None;
        }
        acc = next;
        i += 1;
    }
    proof {
        assert(r.take(to - from) == r);
    }
    Some(acc)
}

/// `10^k` for `k` up to eight.
pub fn pow10_u64(k: usize) -> (r: u64)
    requires
        k <= 8,
    ensures
        r as nat == pow10(k as nat),
{
    proof {
        lemma_pow10_values();
    }
    if k == 0 {
        1
    } else if k == 1 {
        10
    } else if k == 2 {
        100
    } else if k == 3 {
        1_000
    } else if k == 4 {
        10_000
    } else if k == 5 {
        100_000
    } else if k == 6 {
        1_000_000
    } else if k == 7 {
        10_000_000
    } else {
        100_000_000
    }
}

/// Parses the characters of a decimal string into a scaled value.
pub fn parse_scaled_chars(cs: &Vec<char>) -> (r: Option<u64>)
    ensures
        r == parse_scaled_spec(cs@),
{
    let ghost s = cs@;
    let n = cs.len();
    let d = find_char(cs, 0, '.');
    proof {
        assert(s.skip(0) == s);
    }
    proof {
        assert(s.take(d as int) == s.subrange(0, d as int));
    }
    if d == 0 || !all_digits_range(cs, 0, d) {
        return None;
    }
    let whole = match digits_value_capped(cs, 0, d, MAX_WHOLE) {
        Some(w) => w,
        None => {
            proof {
                assert(digits_value(s.take(d as int)) * SCALE as nat > MAX_SCALED as nat)
                    by (nonlinear_arith)
                    requires
                        digits_value(s.take(d as int)) > MAX_WHOLE as nat,
                        SCALE == 100_000_000,
                        MAX_WHOLE == 92_233_720_368,
                        MAX_SCALED == 0x7FFF_FFFF_FFFF_FFFF,
                ;
            }
            return None;
        },
    };
    proof {
        assert(whole as nat * SCALE as nat <= MAX_WHOLE as nat * SCALE as nat) by (nonlinear_arith)
            requires
                whole <= MAX_WHOLE,
        ;
    }
    if d == n {
        return Some(whole * SCALE);
    }
    let start = d + 1;
    let ghost f = s.skip(start as int);
    proof {
        assert(f == s.subrange(start as int, n as int));
    }
    if start == n || !all_digits_range(cs, start, n) {
        return None;
    }
    let count: usize = if n - start > 8 {
        8
    } else {
        n - start
    };
    proof {
        lemma_all_digits_prefix(f, count as int);
        assert(f.take(count as int) == s.subrange(start as int, start + count));
        lemma_digits_value_bound(f.take(count as int));
        lemma_pow10_values();
        lemma_pow10_monotone(count as nat, 8);
    }
    let head = match digits_value_capped(cs, start, start + count, 99_999_999) {
        Some(v) => v,
        None => 0,
    };
    let pad = pow10_u64(8 - count);
    proof {
        lemma_pow10_monotone((8 - count) as nat, 8);
        assert(pow10(count as nat) * pow10((8 - count) as nat) == pow10(8)) by {
            lemma_pow10_add(count as nat, (8 - count) as nat);
        }
        assert(head as nat * pad as nat <= 99_999_999) by (nonlinear_arith)
            requires
                (head as nat) < pow10(count as nat),
                pad as nat == pow10((8 - count) as nat),
                pow10(count as nat) * pow10((8 - count) as nat) == 100_000_000,
                pad >= 1,
        ;
    }
    let frac: u64 = head * pad;
    proof {
        if f.len() >= 8 {
            assert(pad == 1);
            assert(head * pad == head) by (nonlinear_arith)
                requires
                    pad == 1,
            ;
        } else {
            assert(f.take(count as int) == f);
        }
        assert(frac as nat == fraction_value(f));
    }
    let total: u64 = whole * SCALE + frac;
    if total > MAX_SCALED {
        None
    } else {
        Some(total)
    }
}

/// Parses a decimal string (`digits` or `digits.digits`) into a value scaled
/// by 10^8. Fractional digits beyond the eighth are cut off. A string of any
/// other shape, or one that denotes 2^63 scaled units or more, gives `None`.
pub fn parse_scaled(s: &str) -> (r: Option<u64>)
    ensures
        r == parse_scaled_spec(s@),
{
    let cs = chars_of(s);
    parse_scaled_chars(&cs)
}


/// The unsigned integer that a text of digits denotes, where it fits 64
/// bits.
pub open spec fn unsigned_of(s: Seq<char>) -> Option<u64> {
    if s.len() > 0 && all_digits(s) && digits_value(s) <= u64::MAX {
        Some(digits_value(s) as u64)
    } else {
        None
    }
}

/// The signed integer that a text of digits, with or without a minus sign
/// before them, denotes, where it fits 64 bits.
pub open spec fn signed_of(s: Seq<char>) -> Option<i64> {
    if s.len() > 0 && s[0] == '-' {
        let t = s.skip(1);
        if t.len() > 0 && all_digits(t) && digits_value(t) <= 0x8000_0000_0000_0000 {
            Some((-(digits_value(t) as int)) as i64)
        } else {
            None
        }
    } else if s.len() > 0 && all_digits(s) && digits_value(s) <= i64::MAX {
        Some(digits_value(s) as i64)
    } else {
        None
    }
}

/// The number that the digits `cs[from..]` denote, where all are digits,
/// there is one at least, and the number is at most `cap`.
pub fn parse_digits(cs: &Vec<char>, from: usize, cap: u64) -> (r: Option<u64>)
    requires
        from <= cs.len(),
    ensures
        r == if cs.len() > from && all_digits(cs@.skip(from as int)) && digits_value(
            cs@.skip(from as int),
        ) <= cap {
            Some(digits_value(cs@.skip(from as int)) as u64)
        } else {
            None::<u64>
        },
{
    let ghost t = cs@.skip(from as int);
    if cs.len() == from {
        return None;
    }
    let mut i: usize = from;
    let mut acc: u64 = 0;
    while i < cs.len()
        invariant
            from <= i <= cs.len(),
            t == cs@.skip(from as int),
            all_digits(t.take(i - from)),
            acc as nat == digits_value(t.take(i - from)),
            acc <= cap,
        decreases cs.len() - i,
    {
        let ghost k = i - from;
        proof {
            assert(t[k] == cs@[i as int]);
            assert(t.take(k + 1) == t.take(k).push(t[k]));
            assert(t.take(k + 1).drop_last() == t.take(k));
        }
        let dg = match digit_of(cs[i]) {
            Some(d) => d,
            None => {
                return None;
            },
        };
        proof {
            assert forall|m: int| 0 <= m < k + 1 implies is_digit(#[trigger] t.take(k + 1)[m]) by {
                if m < k {
                    assert(t.take(k)[m] == t[m]);
                }
            }
        }
        let next = match acc.checked_mul(10) {
            Some(x) => x.checked_add(dg as u64),
            None => None,
        };
        match next {
            Some(x) => {
                if x > cap {
                    proof {
                        lemma_digits_value_prefix(t, k + 1);
                    }
                    return None;
                }
                acc = x;
            },
            None => {
                proof {
                    lemma_digits_value_prefix(t, k + 1);
                }
                return None;
            },
        }
        i += 1;
    }
    proof {
        assert(t.take(t.len() as int) == t);
    }
    Some(acc)
}

/// Reads an unsigned integer from a text of digits.
pub fn parse_unsigned(s: &str) -> (r: Option<u64>)
    ensures
        r == unsigned_of(s@),
{
    let cs = chars_of(s);
    proof {
        assert(cs@.skip(0) == cs@);
    }
    parse_digits(&cs, 0, u64::MAX)
}

/// Reads a signed integer from a text of digits with or without a minus
/// sign.
pub fn parse_signed(s: &str) -> (r: Option<i64>)
    ensures
        r == signed_of(s@),
{
    let cs = chars_of(s);
    if cs.len() > 0 && cs[0] == '-' {
        match parse_digits(&cs, 1, 0x8000_0000_0000_0000) {
            Some(v) => {
                if v == 0x8000_0000_0000_0000 {
                    Some(i64::MIN)
                } else {
                    Some(-(v as i64))
                }
            },
            None => None,
        }
    } else {
        proof {
            assert(cs@.skip(0) == cs@);
        }
        match parse_digits(&cs, 0, 0x7FFF_FFFF_FFFF_FFFF) {
            Some(v) => Some(v as i64),
            None => None,
        }
    }
}

/// Digit characters and digit values undo each other.
pub proof fn lemma_digit_char(d: nat)
    requires
        d <= 9,
    ensures
        is_digit(digit_char(d)),
        digit_value(digit_char(d)) == d,
        digit_char(d) != '.',
        (digit_char(d) == '0') == (d == 0),
{
}

/// The decimal digit of a value below ten.
pub fn char_of_digit(d: u8) -> (c: char)
    requires
        d <= 9,
    ensures
        c == digit_char(d as nat),
{
    if d == 0 {
        '0'
    } else if d == 1 {
        '1'
    } else if d == 2 {
        '2'
    } else if d == 3 {
        '3'
    } else if d == 4 {
        '4'
    } else if d == 5 {
        '5'
    } else if d == 6 {
        '6'
    } else if d == 7 {
        '7'
    } else if d == 8 {
        '8'
    } else {
        '9'
    }
}

/// Appends the decimal digits of `n` to `out`.
pub fn push_nat_digits(out: &mut Vec<char>, n: u64)
    ensures
        final(out)@ == old(out)@ + nat_digits(n as nat),
    decreases n,
{
    if n >= 10 {
        push_nat_digits(out, n / 10);
    }
    out.push(char_of_digit((n % 10) as u8));
    proof {
        if n < 10 {
            assert(final(out)@ == old(out)@ + nat_digits(n as nat));
        } else {
            assert((old(out)@ + nat_digits((n / 10) as nat)).push(digit_char((n % 10) as nat))
                == old(out)@ + nat_digits(n as nat));
        }
    }
}

/// Appends the last `width` decimal digits of `n` to `out`.
pub fn push_fixed_digits(out: &mut Vec<char>, n: u64, width: usize)
    ensures
        final(out)@ == old(out)@ + fixed_digits(n as nat, width as nat),
    decreases width,
{
    if width > 0 {
        push_fixed_digits(out, n / 10, width - 1);
        out.push(char_of_digit((n % 10) as u8));
        proof {
            assert((old(out)@ + fixed_digits((n / 10) as nat, (width - 1) as nat)).push(
                digit_char((n % 10) as nat),
            ) == old(out)@ + fixed_digits(n as nat, width as nat));
        }
    } else {
        proof {
            assert(old(out)@ + fixed_digits(n as nat, 0) == old(out)@);
        }
    }
}

/// The characters of the decimal form of a scaled value.
pub fn decimal_chars(v: u64) -> (r: Vec<char>)
    ensures
        r@ == decimal_string(v),
{
    let mut out: Vec<char> = Vec::new();
    push_nat_digits(&mut out, v / SCALE);
    let mut frac: Vec<char> = Vec::new();
    push_fixed_digits(&mut frac, v % SCALE, 8);
    let ghost fixed = fixed_digits((v % SCALE) as nat, 8);
    proof {
        assert(frac@ == fixed);
        assert(out@ == nat_digits((v / SCALE) as nat));
    }
    while frac.len() > 0 && frac[frac.len() - 1] == '0'
        invariant
            trim_zeros(frac@) == trim_zeros(fixed),
        decreases frac.len(),
    {
        frac.pop();
    }
    if frac.len() > 0 {
        out.push('.');
        let mut i: usize = 0;
        let ghost head = out@;
        while i < frac.len()
            invariant
                0 <= i <= frac.len(),
                out@ == head + frac@.take(i as int),
            decreases frac.len() - i,
        {
            out.push(frac[i]);
            i += 1;
        }
        proof {
            assert(frac@.take(frac.len() as int) == frac@);
        }
    }
    out
}

/// The decimal form of a scaled value, without trailing zeros: `150000000`
/// gives `"1.5"`, `10000000000` gives `"100"`.
pub fn to_decimal_string(v: u64) -> (r: String)
    ensures
        r@ == decimal_string(v),
{
    let cs = decimal_chars(v);
    string_of(&cs)
}


/// `nat_digits(n)` is a non-empty digit string that denotes `n`.
pub proof fn lemma_nat_digits(n: nat)
    ensures
        nat_digits(n).len() >= 1,
        all_digits(nat_digits(n)),
        digits_value(nat_digits(n)) == n,
    decreases n,
{
    if n < 10 {
        lemma_digit_char(n);
        let s = nat_digits(n);
        assert(s.drop_last() == Seq::<char>::empty());
        assert(digits_value(s.drop_last()) == 0);
    } else {
        lemma_nat_digits(n / 10);
        lemma_digit_char(n % 10);
        lemma_digits_value_push(nat_digits(n / 10), digit_char(n % 10));
    }
}

/// `fixed_digits(n, w)` is a string of `w` digits that denotes `n mod 10^w`.
pub proof fn lemma_fixed_digits(n: nat, w: nat)
    ensures
        fixed_digits(n, w).len() == w,
        all_digits(fixed_digits(n, w)),
        digits_value(fixed_digits(n, w)) == n % pow10(w),
    decreases w,
{
    if w > 0 {
        lemma_fixed_digits(n / 10, (w - 1) as nat);
        lemma_digit_char(n % 10);
        lemma_digits_value_push(fixed_digits(n / 10, (w - 1) as nat), digit_char(n % 10));
        lemma_pow10_monotone((w - 1) as nat, (w - 1) as nat);
        let p = pow10((w - 1) as nat);
        assert(pow10(w) == 10 * p);
        vstd::arithmetic::div_mod::lemma_mod_breakdown(n as int, 10, p as int);
    }
}

/// Trimming zeros leaves a prefix, and the digits cut off were only a
/// factor of ten each.
pub proof fn lemma_trim_zeros(s: Seq<char>)
    requires
        all_digits(s),
    ensures
        trim_zeros(s).len() <= s.len(),
        trim_zeros(s) == s.take(trim_zeros(s).len() as int),
        all_digits(trim_zeros(s)),
        digits_value(s) == digits_value(trim_zeros(s)) * pow10(
            (s.len() - trim_zeros(s).len()) as nat,
        ),
        trim_zeros(s).len() > 0 ==> trim_zeros(s).last() != '0',
    decreases s.len(),
{
    if s.len() > 0 && s.last() == '0' {
        let t = s.drop_last();
        lemma_all_digits_prefix(s, s.len() - 1);
        assert(t == s.take(s.len() - 1));
        lemma_trim_zeros(t);
        let r = trim_zeros(t);
        assert(r == s.take(r.len() as int));
        let k = (t.len() - r.len()) as nat;
        assert(pow10(k + 1) == 10 * pow10(k));
        assert(digits_value(s) == 10 * digits_value(t));
        assert(10 * (digits_value(r) * pow10(k)) == digits_value(r) * (10 * pow10(k)))
            by (nonlinear_arith);
    } else {
        assert(s.take(s.len() as int) == s);
        assert(pow10(0) == 1);
        assert(digits_value(s) * 1 == digits_value(s)) by (nonlinear_arith);
    }
}

/// Parsing the decimal form of a scaled value below 2^63 gives the value
/// back.
pub proof fn lemma_parse_decimal_string(v: u64)
    requires
        v <= MAX_SCALED,
    ensures
        parse_scaled_spec(decimal_string(v)) == Some(v),
{
    let w = (v / SCALE) as nat;
    let r = (v % SCALE) as nat;
    let whole = nat_digits(w);
    let fixed = fixed_digits(r, 8);
    let frac = trim_zeros(fixed);
    let s = decimal_string(v);
    lemma_nat_digits(w);
    lemma_fixed_digits(r, 8);
    lemma_trim_zeros(fixed);
    lemma_pow10_values();
    assert(r % pow10(8) == r);
    assert forall|i: int| 0 <= i < whole.len() implies #[trigger] s[i] != '.' by {
        assert(s[i] == whole[i]);
        assert(is_digit(whole[i]));
    }
    if frac.len() == 0 {
        assert(s == whole);
        lemma_first_dot_is(s, s.len() as int);
        assert(s.take(s.len() as int) == s);
        assert(digits_value(frac) == 0);
        assert(0 * pow10((fixed.len() - frac.len()) as nat) == 0) by (nonlinear_arith);
        assert(r == 0);
        assert(w * SCALE as nat == v as nat);
    } else {
        let d = whole.len() as int;
        assert(s[d] == '.');
        lemma_first_dot_is(s, d);
        assert(s.take(d) == whole);
        assert(s.skip(d + 1) == frac);
        assert(fraction_value(frac) == r) by {
            if frac.len() >= 8 {
                assert(frac.take(8) == frac);
                assert(pow10(0) == 1);
                assert(digits_value(frac) * 1 == digits_value(frac)) by (nonlinear_arith);
            }
        }
        assert(w * SCALE as nat + r == v as nat);
    }
}

/// Largest magnitude of a mantissa that fits the 96 bits of a
/// `rust_decimal::Decimal`.
pub const MAX_MANTISSA: i128 = 0xFFFF_FFFF_FFFF_FFFF_FFFF_FFFF;

/// Largest scale of a `rust_decimal::Decimal`.
pub const MAX_DECIMAL_SCALE: u32 = 28;

/// The quotient of two decimals, each given by mantissa and scale, as
/// `rust_decimal::Decimal::checked_div` computes it: mantissa and scale of
/// the result, or `None` where it reports none.
pub uninterp spec fn decimal_quotient(num: int, num_scale: nat, den: int, den_scale: nat) -> Option<
    (i128, u32),
>;

/// Divides `num / 10^num_scale` by `den / 10^den_scale` with
/// `rust_decimal::Decimal::checked_div`. The operands are built with
/// `Decimal::from_i128_with_scale`, which takes every mantissa of at most 96
/// bits and every scale up to 28; the quotient is read back with
/// `Decimal::mantissa` and `Decimal::scale`. Nothing is proved of the
/// quotient: the contract only names it.
#[verifier::external_body]
pub(crate) fn decimal_div(num: i128, num_scale: u32, den: i128, den_scale: u32) -> (r: Option<
    (i128, u32),
>)
    requires
        -MAX_MANTISSA <= num <= MAX_MANTISSA,
        -MAX_MANTISSA <= den <= MAX_MANTISSA,
        num_scale <= MAX_DECIMAL_SCALE,
        den_scale <= MAX_DECIMAL_SCALE,
    ensures
        r == decimal_quotient(num as int, num_scale as nat, den as int, den_scale as nat),
{
    let a = rust_decimal::Decimal::from_i128_with_scale(num, num_scale);
    let b = rust_decimal::Decimal::from_i128_with_scale(den, den_scale);
    a.checked_div(b).map(|q| (q.mantissa(), q.scale()))
}

} // verus!
