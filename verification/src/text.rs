//! Small verified operations on strings, by characters.

use vstd::prelude::*;

use vstd::arithmetic::div_mod::{lemma_div_denominator, lemma_fundamental_div_mod};

verus! {

/// Whether `prefix` is a prefix of `s`.
pub open spec fn has_prefix(s: Seq<char>, prefix: Seq<char>) -> bool {
    prefix.len() <= s.len() && s.take(prefix.len() as int) == prefix
}

/// Whether `suffix` is a suffix of `s`.
pub open spec fn has_suffix(s: Seq<char>, suffix: Seq<char>) -> bool {
    suffix.len() <= s.len() && s.skip(s.len() - suffix.len()) == suffix
}

/// Whether `s` begins with `prefix`.
pub fn starts_with(s: &str, prefix: &str) -> (b: bool)
    ensures
        b == has_prefix(s@, prefix@),
{
    let n = s.unicode_len();
    let m = prefix.unicode_len();
    if m > n {
        return false;
    }
    let mut i: usize = 0;
    while i < m
        invariant
            n == s@.len(),
            m == prefix@.len(),
            m <= n,
            i <= m,
            forall|j: int| 0 <= j < i ==> s@[j] == prefix@[j],
        decreases m - i,
    {
        if s.get_char(i) != prefix.get_char(i) {
            assert(s@.take(m as int)[i as int] != prefix@[i as int]);
            return false;
        }
        i = i + 1;
    }
    assert(s@.take(m as int) =~= prefix@);
    true
}

/// Whether `s` ends with `suffix`.
pub fn ends_with(s: &str, suffix: &str) -> (b: bool)
    ensures
        b == has_suffix(s@, suffix@),
{
    let n = s.unicode_len();
    let m = suffix.unicode_len();
    if m > n {
        return false;
    }
    let start = n - m;
    let mut i: usize = 0;
    while i < m
        invariant
            n == s@.len(),
            m == suffix@.len(),
            m <= n,
            start == n - m,
            i <= m,
            forall|j: int| 0 <= j < i ==> s@[start + j] == suffix@[j],
        decreases m - i,
    {
        if s.get_char(start + i) != suffix.get_char(i) {
            assert(s@.skip(start as int)[i as int] != suffix@[i as int]);
            return false;
        }
        i = i + 1;
    }
    assert(s@.skip(start as int) =~= suffix@);
    true
}

/// Whether the two strings hold the same characters.
pub fn str_equal(a: &str, b: &str) -> (r: bool)
    ensures
        r == (a@ == b@),
{
    let n = a.unicode_len();
    if n != b.unicode_len() {
        return false;
    }
    let r = starts_with(a, b);
    proof {
        assert(a@.take(n as int) =~= a@);
    }
    r
}

/// `s` without `prefix` when it begins with it, else `s` unchanged.
pub open spec fn without_prefix(s: Seq<char>, prefix: Seq<char>) -> Seq<char> {
    if has_prefix(s, prefix) {
        s.skip(prefix.len() as int)
    } else {
        s
    }
}

/// `s` without `prefix` when it begins with it, else a copy of `s`.
pub fn strip_prefix_or_self(s: &str, prefix: &str) -> (r: String)
    ensures
        r@ == without_prefix(s@, prefix@),
{
    if starts_with(s, prefix) {
        let n = s.unicode_len();
        let m = prefix.unicode_len();
        String::from_str(s.substring_char(m, n))
    } else {
        String::from_str(s)
    }
}


/// Whether `c` is an ASCII decimal digit.
pub open spec fn is_decimal_digit(c: char) -> bool {
    '0' <= c && c <= '9'
}

/// Whether every character of `s` is a decimal digit.
pub open spec fn all_decimal_digits(s: Seq<char>) -> bool {
    forall|i: int| 0 <= i < s.len() ==> is_decimal_digit(#[trigger] s[i])
}

/// The number the decimal digits `s` spell.
pub open spec fn decimal_value(s: Seq<char>) -> int
    decreases s.len(),
{
    if s.len() == 0 {
        0
    } else {
        decimal_value(s.drop_last()) * 10 + (s.last() as int - '0' as int)
    }
}

/// The magnitude part of a number's text: without a leading `+`, and for a
/// signed number without a leading `-` either.
pub open spec fn unsigned_body(s: Seq<char>) -> Seq<char> {
    if s.len() > 0 && s[0] == '+' {
        s.skip(1)
    } else {
        s
    }
}

/// What the standard library's unsigned integer parsing reads from `s`
/// (before the range check): an optional `+` then one or more decimal
/// digits, and nothing else.
pub open spec fn parsed_unsigned(s: Seq<char>) -> Option<int> {
    let body = unsigned_body(s);
    if body.len() > 0 && all_decimal_digits(body) {
        Some(decimal_value(body))
    } else {
        None
    }
}

/// What the standard library's signed integer parsing reads from `s`
/// (before the range check): an optional sign then one or more decimal
/// digits, and nothing else.
pub open spec fn parsed_signed(s: Seq<char>) -> Option<int> {
    if s.len() > 0 && s[0] == '-' {
        let body = s.skip(1);
        if body.len() > 0 && all_decimal_digits(body) {
            Some(-decimal_value(body))
        } else {
            None
        }
    } else {
        parsed_unsigned(s)
    }
}

proof fn lemma_decimal_value_nonneg(s: Seq<char>)
    requires
        all_decimal_digits(s),
    ensures
        decimal_value(s) >= 0,
    decreases s.len(),
{
    if s.len() > 0 {
        lemma_decimal_value_nonneg(s.drop_last());
    }
}

proof fn lemma_decimal_value_grows(s: Seq<char>, k: int)
    requires
        all_decimal_digits(s),
        0 <= k <= s.len(),
    ensures
        decimal_value(s.take(k)) <= decimal_value(s),
    decreases s.len(),
{
    if k < s.len() {
        assert(s.drop_last().take(k) =~= s.take(k));
        lemma_decimal_value_grows(s.drop_last(), k);
        lemma_decimal_value_nonneg(s.drop_last());
    } else {
        assert(s.take(k) =~= s);
    }
}

/// Reads the digits of `s` from character `start` on; `None` when one is
/// not a digit or the value exceeds `limit`.
fn decimal_digits_up_to(s: &str, start: usize, limit: u64) -> (r: Option<u64>)
    requires
        start < s@.len(),
        9 <= limit,
    ensures
        match r {
            Some(v) => all_decimal_digits(s@.skip(start as int)) && v == decimal_value(
                s@.skip(start as int),
            ) && v <= limit,
            None => !all_decimal_digits(s@.skip(start as int)) || decimal_value(
                s@.skip(start as int),
            ) > limit,
        },
{
    let n = s.unicode_len();
    let ghost body = s@.skip(start as int);
    let mut acc: u64 = 0;
    let mut i: usize = start;
    while i < n
        invariant
            n == s@.len(),
            start <= i <= n,
            body == s@.skip(start as int),
            9 <= limit,
            all_decimal_digits(body.take(i - start)),
            acc == decimal_value(body.take(i - start)),
            acc <= limit,
        decreases n - i,
    {
        let c = s.get_char(i);
        let ghost k: int = i - start;
        assert(body.take(k + 1).drop_last() =~= body.take(k));
        assert(body[k] == c);
        if c < '0' || c > '9' {
            assert(!is_decimal_digit(body[k]));
            return None;
        }
        let d: u64 = (c as u32 - '0' as u32) as u64;
        if acc > (limit - d) / 10 {
            proof {
                assert(all_decimal_digits(body.take(k + 1)));
                assert(decimal_value(body.take(k + 1)) == acc * 10 + d);
                assert(acc * 10 + d > limit) by (nonlinear_arith)
                    requires
                        acc > (limit - d) / 10,
                        d <= 9,
                        9 <= limit,
                ;
                if all_decimal_digits(body) {
                    lemma_decimal_value_grows(body, k + 1);
                }
            }
            return None;
        }
        proof {
            assert(acc * 10 + d <= limit) by (nonlinear_arith)
                requires
                    acc <= (limit - d) / 10,
                    d <= limit,
            ;
        }
        acc = acc * 10 + d;
        i = i + 1;
    }
    assert(body.take(n - start) =~= body);
    Some(acc)
}

/// Parses an unsigned decimal number as `str::parse::<usize>` does.
pub fn parse_usize(s: &str) -> (r: Option<usize>)
    ensures
        r == (match parsed_unsigned(s@) {
            Some(v) => if v <= usize::MAX {
                Some(v as usize)
            } else {
                None::<usize>
            },
            None => None,
        }),
{
    let n = s.unicode_len();
    if n == 0 {
        return None;
    }
    let start: usize = if s.get_char(0) == '+' {
        1
    } else {
        0
    };
    assert(unsigned_body(s@) == s@.skip(start as int));
    if start >= n {
        return None;
    }
    match decimal_digits_up_to(s, start, usize::MAX as u64) {
        Some(v) => Some(v as usize),
        None => None,
    }
}

/// Parses a signed decimal number as `str::parse::<i32>` does.
pub fn parse_i32(s: &str) -> (r: Option<i32>)
    ensures
        r == (match parsed_signed(s@) {
            Some(v) => if i32::MIN <= v <= i32::MAX {
                Some(v as i32)
            } else {
                None::<i32>
            },
            None => None,
        }),
{
    let n = s.unicode_len();
    if n == 0 {
        return None;
    }
    let first = s.get_char(0);
    if first == '-' {
        if n == 1 {
            return None;
        }
        match decimal_digits_up_to(s, 1, 0x8000_0000) {
            Some(v) => Some((0 - (v as i64)) as i32),
            None => None,
        }
    } else {
        let start: usize = if first == '+' {
            1
        } else {
            0
        };
        assert(unsigned_body(s@) == s@.skip(start as int));
        if start >= n {
            return None;
        }
        match decimal_digits_up_to(s, start, 0x7fff_ffff) {
            Some(v) => Some(v as i32),
            None => None,
        }
    }
}


/// Ten to the power `e`.
pub open spec fn pow10(e: nat) -> nat
    decreases e,
{
    if e == 0 {
        1
    } else {
        10 * pow10((e - 1) as nat)
    }
}

/// The text of a decimal digit.
fn digit_text(d: u64) -> (s: &'static str)
    requires
        d < 10,
    ensures
        s@ == seq![('0' as int + d) as char],
{
    proof {
        reveal_strlit("0");
        reveal_strlit("1");
        reveal_strlit("2");
        reveal_strlit("3");
        reveal_strlit("4");
        reveal_strlit("5");
        reveal_strlit("6");
        reveal_strlit("7");
        reveal_strlit("8");
        reveal_strlit("9");
    }
    if d == 0 {
        "0"
    } else if d == 1 {
        "1"
    } else if d == 2 {
        "2"
    } else if d == 3 {
        "3"
    } else if d == 4 {
        "4"
    } else if d == 5 {
        "5"
    } else if d == 6 {
        "6"
    } else if d == 7 {
        "7"
    } else if d == 8 {
        "8"
    } else {
        "9"
    }
}

/// `count` zeros.
pub open spec fn zeros(count: nat) -> Seq<char> {
    Seq::new(count, |_i: int| '0')
}

proof fn lemma_zeros_value(count: nat)
    ensures
        decimal_value(zeros(count)) == 0,
    decreases count,
{
    if count > 0 {
        assert(zeros(count).drop_last() =~= zeros((count - 1) as nat));
        lemma_zeros_value((count - 1) as nat);
    }
}

/// Leading zeros do not change the number digits spell.
proof fn lemma_leading_zeros_value(count: nat, d: Seq<char>)
    ensures
        decimal_value(zeros(count) + d) == decimal_value(d),
    decreases d.len(),
{
    if d.len() == 0 {
        assert(zeros(count) + d =~= zeros(count));
        lemma_zeros_value(count);
    } else {
        assert((zeros(count) + d).drop_last() =~= zeros(count) + d.drop_last());
        lemma_leading_zeros_value(count, d.drop_last());
    }
}

/// `n` in decimal, padded with leading zeros to at least `width` digits,
/// as `format!("{:0width$}", n)` writes it: decimal digits spelling `n`, at
/// least `width` of them and at least one, and no leading zero beyond the
/// padding.
pub fn padded_decimal(n: u64, width: usize) -> (s: String)
    ensures
        all_decimal_digits(s@),
        decimal_value(s@) == n,
        s@.len() >= width,
        s@.len() >= 1,
        s@.len() > width && s@.len() > 1 ==> s@[0] != '0',
{
    let digits = decimal_digits(n, 1);
    let len = digits.as_str().unicode_len();
    let pad: usize = if width > len {
        width - len
    } else {
        0
    };
    let mut s = String::new();
    let mut i: usize = 0;
    proof {
        reveal_strlit("0");
        assert(s@ =~= zeros(0));
    }
    while i < pad
        invariant
            i <= pad,
            s@ == zeros(i as nat),
        decreases pad - i,
    {
        s.append("0");
        proof {
            reveal_strlit("0");
        }
        assert(s@ =~= zeros((i + 1) as nat));
        i = i + 1;
    }
    s.append(digits.as_str());
    proof {
        lemma_leading_zeros_value(pad as nat, digits@);
        assert(s@ == zeros(pad as nat) + digits@);
        assert(all_decimal_digits(s@)) by {
            assert forall|j: int| 0 <= j < s@.len() implies is_decimal_digit(#[trigger] s@[j]) by {
                if j >= pad {
                    assert(s@[j] == digits@[j - pad]);
                }
            }
        }
        if pad == 0 {
            assert(s@ =~= digits@);
        }
    }
    s
}

/// `n` in decimal with at least `width` digits; see `padded_decimal`.
fn decimal_digits(n: u64, width: u32) -> (s: String)
    requires
        1 <= width <= 19,
    ensures
        all_decimal_digits(s@),
        decimal_value(s@) == n,
        s@.len() >= width,
        s@.len() == width || s@[0] != '0',
{
    let mut q: u64 = 1;
    let mut k: u64 = 1;
    let w: u64 = width as u64;
    while k < w
        invariant
            1 <= k <= w <= 19,
            q == pow10((k - 1) as nat),
            q >= 1,
        decreases w - k,
    {
        proof {
            lemma_pow10_monotone((k - 1) as nat, 17);
            lemma_pow10_17();
        }
        q = q * 10;
        k = k + 1;
    }
    let grown_from: u64 = k;
    proof {
        lemma_pow10_grows((k - 1) as nat);
    }
    while q <= n / 10
        invariant
            1 <= k,
            k >= grown_from,
            q == pow10((k - 1) as nat),
            q >= 1,
            k <= q,
            k > grown_from ==> q <= n,
        decreases n - q,
    {
        proof {
            lemma_pow10_grows((k) as nat);
        }
        q = q * 10;
        k = k + 1;
    }
    assert(n < 10 * q as int) by {
        lemma_fundamental_div_mod(n as int, 10);
    }
    let ghost first_q: int = q as int;
    let mut s = String::new();
    let ghost mut e: nat = (k - 1) as nat;
    let mut emitted: u64 = 0;
    proof {
        lemma_div_by_larger(n as int, 10 * q as int);
        assert(s@ =~= Seq::<char>::empty());
    }
    while q > 0
        invariant
            q == 0 || q == pow10(e),
            q > 0 ==> emitted + e + 1 == k,
            q == 0 ==> emitted == k,
            s@.len() == emitted,
            all_decimal_digits(s@),
            q > 0 ==> decimal_value(s@) == n as int / (10 * q as int),
            q == 0 ==> decimal_value(s@) == n,
            emitted > 0 ==> (s@[0] != '0' || k == grown_from),
            emitted == 0 ==> q as int == first_q,
            first_q == pow10((k - 1) as nat),
            n < 10 * first_q,
            k > grown_from ==> first_q <= n,
            k >= grown_from,
        decreases q,
    {
        let d = (n / q) % 10;
        let ghost before = s@;
        s.append(digit_text(d));
        proof {
            lemma_div_denominator(n as int, q as int, 10);
            lemma_fundamental_div_mod(n as int / q as int, 10);
            assert(s@.drop_last() =~= before);
            assert(s@.last() == ('0' as int + d) as char);
            if emitted == 0 && k > grown_from {
                lemma_leading_digit(n as int, q as int);
            }
            if emitted == 0 {
                assert(s@[0] == ('0' as int + d) as char);
            } else {
                assert(s@[0] == before[0]);
            }
        }
        if q == 1 {
            proof {
                assert(n as int / 1 == n);
            }
            q = 0;
        } else {
            proof {
                lemma_pow10_step(e);
                e = (e - 1) as nat;
            }
            q = q / 10;
        }
        emitted = emitted + 1;
    }
    s
}

proof fn lemma_pow10_17()
    ensures
        pow10(17) == 100_000_000_000_000_000,
{
    reveal_with_fuel(pow10, 18);
}

proof fn lemma_pow10_monotone(a: nat, b: nat)
    requires
        a <= b,
    ensures
        pow10(a) <= pow10(b),
    decreases b,
{
    if a < b {
        lemma_pow10_monotone(a, (b - 1) as nat);
        lemma_pow10_bound((b - 1) as nat);
    }
}

proof fn lemma_pow10_grows(e: nat)
    ensures
        pow10(e) >= e + 1,
    decreases e,
{
    if e > 0 {
        lemma_pow10_grows((e - 1) as nat);
    }
}

proof fn lemma_pow10_bound(e: nat)
    ensures
        pow10(e) >= 1,
    decreases e,
{
    if e > 0 {
        lemma_pow10_bound((e - 1) as nat);
    }
}

proof fn lemma_pow10_step(e: nat)
    requires
        pow10(e) != 1,
    ensures
        e >= 1,
        pow10(e) == 10 * pow10((e - 1) as nat),
        pow10(e) / 10 == pow10((e - 1) as nat),
{
}

proof fn lemma_div_by_larger(n: int, d: int)
    requires
        0 <= n < d,
    ensures
        n / d == 0,
{
    assert(n / d == 0) by (nonlinear_arith)
        requires
            0 <= n < d,
    ;
}

proof fn lemma_leading_digit(n: int, q: int)
    requires
        1 <= q <= n < 10 * q,
    ensures
        (n / q) % 10 != 0,
        1 <= n / q < 10,
{
    assert(1 <= n / q < 10) by (nonlinear_arith)
        requires
            1 <= q <= n < 10 * q,
    ;
}

} // verus!
