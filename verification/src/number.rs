//! Whole numbers as text: reading them in a radix, writing them in decimal.

use vstd::prelude::*;

verus! {

/// The value of `c` as a digit, for radix 10 or 16.
pub open spec fn digit_of(c: char, radix: int) -> Option<int> {
    let n = c as u32 as int;
    if 48 <= n <= 57 {
        Some(n - 48)
    } else if radix == 16 && 97 <= n <= 102 {
        Some(n - 87)
    } else if radix == 16 && 65 <= n <= 70 {
        Some(n - 55)
    } else {
        None
    }
}

/// Whether every character of `s` is a digit of the radix.
pub open spec fn all_digits(s: Seq<char>, radix: int) -> bool {
    forall|i: int| 0 <= i < s.len() ==> (#[trigger] digit_of(s[i], radix)) is Some
}

/// The number that a run of digits writes, the last digit counting least.
pub open spec fn digits_value(s: Seq<char>, radix: int) -> int
    decreases s.len(),
{
    if s.len() == 0 {
        0
    } else {
        digits_value(s.drop_last(), radix) * radix + match digit_of(s.last(), radix) {
            Some(d) => d,
            None => 0,
        }
    }
}

/// The number that `s` writes: one optional sign, then at least one digit,
/// and nothing else. A minus sign counts only where `signed` is set.
pub open spec fn number_of(s: Seq<char>, radix: int, signed: bool) -> Option<int> {
    if s.len() == 0 {
        None
    } else {
        let negative = s[0] == '-' && signed;
        let digits = if negative || s[0] == '+' {
            s.drop_first()
        } else {
            s
        };
        if digits.len() == 0 || !all_digits(digits, radix) {
            None
        } else if negative {
            Some(-digits_value(digits, radix))
        } else {
            Some(digits_value(digits, radix))
        }
    }
}

/// The number that `s` writes, if it lies between `lo` and `hi`.
pub open spec fn number_within(s: Seq<char>, radix: int, signed: bool, lo: int, hi: int) -> Option<
    int,
> {
    match number_of(s, radix, signed) {
        Some(v) => if lo <= v <= hi {
            Some(v)
        } else {
            None
        },
        None => None,
    }
}

/// The number that the first digits of a run write is not greater than the
/// number that the whole run writes.
pub proof fn lemma_digits_value_grows(s: Seq<char>, k: int, radix: int)
    requires
        0 <= k <= s.len(),
        radix == 10 || radix == 16,
    ensures
        0 <= digits_value(s.take(k), radix) <= digits_value(s, radix),
    decreases s.len() - k,
{
    lemma_digits_value_nonnegative(s.take(k), radix);
    if k == s.len() {
        assert(s.take(k) =~= s);
    } else {
        lemma_digits_value_grows(s.drop_last(), k, radix);
        assert(s.drop_last().take(k) =~= s.take(k));
        let rest = digits_value(s.drop_last(), radix);
        lemma_digits_value_nonnegative(s.drop_last(), radix);
        assert(rest * radix >= rest) by (nonlinear_arith)
            requires
                rest >= 0,
                radix >= 1,
        ;
    }
}

/// A run of digits writes no negative number.
pub proof fn lemma_digits_value_nonnegative(s: Seq<char>, radix: int)
    requires
        radix == 10 || radix == 16,
    ensures
        0 <= digits_value(s, radix),
    decreases s.len(),
{
    if s.len() > 0 {
        lemma_digits_value_nonnegative(s.drop_last(), radix);
        let rest = digits_value(s.drop_last(), radix);
        assert(rest * radix >= 0) by (nonlinear_arith)
            requires
                rest >= 0,
                radix >= 1,
        ;
    }
}

fn digit_at(c: char, radix: u32) -> (r: Option<u8>)
    requires
        radix == 10 || radix == 16,
    ensures
        match r {
            Some(d) => digit_of(c, radix as int) == Some(d as int) && d < radix,
            None => digit_of(c, radix as int) is None,
        },
{
    let n: u32 = c as u32;
    if 48 <= n && n <= 57 {
        Some((n - 48) as u8)
    } else if radix == 16 && 97 <= n && n <= 102 {
        Some((n - 87) as u8)
    } else if radix == 16 && 65 <= n && n <= 70 {
        Some((n - 55) as u8)
    } else {
        None
    }
}

/// Reads the first `end` characters of `s` as a number in the given radix and
/// returns it where it lies between `lo` and `hi`.
#[verifier::loop_isolation(false)]
pub fn parse_number(s: &Vec<char>, end: usize, radix: u32, signed: bool, lo: i64, hi: i64) -> (r:
    Option<i64>)
    requires
        end <= s.len(),
        radix == 10 || radix == 16,
    ensures
        match r {
            Some(v) => number_within(s@.take(end as int), radix as int, signed, lo as int, hi as int)
                == Some(v as int),
            None => number_within(s@.take(end as int), radix as int, signed, lo as int, hi as int)
                is None,
        },
{
    let ghost text = s@.take(end as int);
    if end == 0 {
        return None;
    }
    let negative = s[0] == '-' && signed;
    let start: usize = if negative || s[0] == '+' {
        1
    } else {
        0
    };
    let ghost digits = if negative || text[0] == '+' {
        text.drop_first()
    } else {
        text
    };
    assert(digits =~= s@.subrange(start as int, end as int));
    if start == end {
        return None;
    }
    let bound: i128 = 0x8000_0000_0000_0000;
    let mut acc: i128 = 0;
    let mut i: usize = start;
    assert(digits.take(0) =~= Seq::<char>::empty());
    while i < end
        invariant
            start <= i <= end <= s.len(),
            radix == 10 || radix == 16,
            digits == s@.subrange(start as int, end as int),
            all_digits(digits.take(i - start), radix as int),
            acc == digits_value(digits.take(i - start), radix as int),
            0 <= acc <= bound,
            bound == 0x8000_0000_0000_0000,
        decreases end - i,
    {
        let ghost seen = digits.take(i - start);
        let ghost next = digits.take(i - start + 1);
        proof {
            assert(next.drop_last() =~= seen);
            assert(next.last() == s@[i as int]);
        }
        match digit_at(s[i], radix) {
            None => {
                assert(digit_of(digits[i - start], radix as int) is None);
                return None;
            },
            Some(d) => {
                assert(acc * (radix as i128) <= bound * 16) by (nonlinear_arith)
                    requires
                        0 <= acc <= bound,
                        radix == 10 || radix == 16,
                ;
                acc = acc * (radix as i128) + (d as i128);
                assert forall|j: int| 0 <= j < next.len() implies (#[trigger] digit_of(
                    next[j],
                    radix as int,
                )) is Some by {
                    if j < seen.len() {
                        assert(next[j] == seen[j]);
                    }
                }
                if acc > bound {
                    proof {
                        lemma_digits_value_grows(digits, i - start + 1, radix as int);
                    }
                    return None;
                }
            },
        }
        i += 1;
    }
    assert(digits.take(end - start) =~= digits);
    let value: i128 = if negative {
        -acc
    } else {
        acc
    };
    if (lo as i128) <= value && value <= (hi as i128) {
        Some(value as i64)
    } else {
        None
    }
}

/// The character that writes the digit `d`.
pub open spec fn digit_char(d: int) -> char {
    if d == 0 {
        '0'
    } else if d == 1 {
        '1'
    } else if d == 2 {
        '2'
    } else if d == 3 {
        '3'
    } else if d == 4 {
        '4'
    } else if d == 5 {
        '5'
    } else if d == 6 {
        '6'
    } else if d == 7 {
        '7'
    } else if d == 8 {
        '8'
    } else {
        '9'
    }
}

/// The decimal digits of `n`, without leading zeros.
pub open spec fn digits_text(n: nat) -> Seq<char>
    decreases n,
{
    if n < 10 {
        seq![digit_char(n as int)]
    } else {
        digits_text(n / 10).push(digit_char((n % 10) as int))
    }
}

/// `n` in decimal, with a minus sign where it is negative.
pub open spec fn decimal_text(n: int) -> Seq<char> {
    if n < 0 {
        seq!['-'] + digits_text((-n) as nat)
    } else {
        digits_text(n as nat)
    }
}

/// The digits that write a number are digits, and write that number.
pub proof fn lemma_digits_text_value(n: nat)
    ensures
        digits_text(n).len() > 0,
        all_digits(digits_text(n), 10),
        digits_value(digits_text(n), 10) == n,
        !is_sign(digits_text(n)[0]),
    decreases n,
{
    let text = digits_text(n);
    if n < 10 {
        assert(text.drop_last() =~= Seq::<char>::empty());
        assert(digits_value(Seq::<char>::empty(), 10) == 0);
        assert(text.last() == digit_char(n as int));
        assert(digit_of(text[0], 10) == Some(n as int));
    } else {
        let front = digits_text(n / 10);
        let last = digit_char((n % 10) as int);
        lemma_digits_text_value(n / 10);
        assert(text.drop_last() =~= front);
        assert(text.last() == last);
        assert(digit_of(last, 10) == Some((n % 10) as int));
        assert(digits_value(text, 10) == digits_value(front, 10) * 10 + (n % 10));
        assert forall|i: int| 0 <= i < text.len() implies (#[trigger] digit_of(text[i], 10)) is Some by {
            if i < front.len() {
                assert(text[i] == front[i]);
            }
        }
        assert(text[0] == front[0]);
    }
}

/// A number that is written in decimal and read again is the same number.
pub proof fn lemma_written_number_reads_back(n: int)
    ensures
        number_of(decimal_text(n), 10, true) == Some(n),
{
    if n < 0 {
        lemma_digits_text_value((-n) as nat);
        assert(decimal_text(n).drop_first() =~= digits_text((-n) as nat));
    } else {
        lemma_digits_text_value(n as nat);
    }
}

fn digit_to_char(d: u8) -> (c: char)
    requires
        d < 10,
    ensures
        c == digit_char(d as int),
{
    if d == 0 {
        '0'
    } else if d == 1 {
        '1'
    } else if d == 2 {
        '2'
    } else if d == 3 {
        '3'
    } else if d == 4 {
        '4'
    } else if d == 5 {
        '5'
    } else if d == 6 {
        '6'
    } else if d == 7 {
        '7'
    } else if d == 8 {
        '8'
    } else {
        '9'
    }
}

/// Writes `n` in decimal.
pub fn write_decimal(n: i64) -> (r: Vec<char>)
    ensures
        r@ == decimal_text(n as int),
{
    let negative = n < 0;
    let magnitude: u64 = if negative {
        if n == i64::MIN {
            0x8000_0000_0000_0000
        } else {
            (-n) as u64
        }
    } else {
        n as u64
    };
    let mut m: u64 = magnitude;
    let mut low_first: Vec<char> = Vec::new();
    assert(digits_text(m as nat) + low_first@.reverse() =~= digits_text(m as nat));
    while m >= 10
        invariant
            digits_text(magnitude as nat) == digits_text(m as nat) + low_first@.reverse(),
        decreases m,
    {
        let c = digit_to_char((m % 10) as u8);
        let ghost before = low_first@;
        low_first.push(c);
        proof {
            assert(low_first@.reverse() =~= seq![c] + before.reverse());
            assert(digits_text((m / 10) as nat).push(c) + before.reverse() =~= digits_text(
                (m / 10) as nat,
            ) + (seq![c] + before.reverse()));
        }
        m = m / 10;
    }
    let c = digit_to_char(m as u8);
    let ghost before = low_first@;
    low_first.push(c);
    assert(low_first@.reverse() =~= seq![c] + before.reverse());
    let mut out: Vec<char> = Vec::new();
    if negative {
        out.push('-');
    }
    let ghost sign = out@;
    let mut i: usize = low_first.len();
    while i > 0
        invariant
            i <= low_first.len(),
            out@ == sign + low_first@.reverse().take(low_first.len() - i),
        decreases i,
    {
        i -= 1;
        out.push(low_first[i]);
        assert(low_first@.reverse().take(low_first.len() - i) =~= low_first@.reverse().take(
            low_first.len() - i - 1,
        ).push(low_first@[i as int]));
    }
    assert(low_first@.reverse().take(low_first.len() as int) =~= low_first@.reverse());
    out
}

/// The whole number of `bits` bits, in two's complement, that agrees with `n`
/// in those bits: what is left of a number that is cut down to a narrower
/// kind.
pub open spec fn wrapped(n: int, bits: int) -> int {
    if bits == 8 {
        n % 0x100
    } else if bits == 32 {
        (n + 0x8000_0000) % 0x1_0000_0000 - 0x8000_0000
    } else {
        n
    }
}

/// Cuts a long down to an int.
pub fn wrap_to_int(n: i64) -> (r: i32)
    ensures
        r == wrapped(n as int, 32),
{
    let shifted: i128 = n as i128 + 0x8000_0000;
    let low: i128 = if shifted >= 0 {
        shifted % 0x1_0000_0000
    } else {
        let m: i128 = (-shifted) % 0x1_0000_0000;
        assert((shifted as int) % 0x1_0000_0000 == if m == 0 {
            0
        } else {
            0x1_0000_0000 - m
        }) by {
            lemma_negated_remainder(-(shifted as int), 0x1_0000_0000);
        }
        if m == 0 {
            0
        } else {
            0x1_0000_0000 - m
        }
    };
    (low - 0x8000_0000) as i32
}

/// Cuts a long down to a byte.
pub fn wrap_to_byte(n: i64) -> (r: u8)
    ensures
        r == wrapped(n as int, 8),
{
    let wide: i128 = n as i128;
    if wide >= 0 {
        (wide % 0x100) as u8
    } else {
        let m: i128 = (-wide) % 0x100;
        assert((wide as int) % 0x100 == if m == 0 {
            0
        } else {
            0x100 - m
        }) by {
            lemma_negated_remainder(-(wide as int), 0x100);
        }
        if m == 0 {
            0
        } else {
            (0x100 - m) as u8
        }
    }
}

/// The remainder of `-x`, from the remainder of `x`.
proof fn lemma_negated_remainder(x: int, m: int)
    requires
        x >= 0,
        m > 0,
    ensures
        (-x) % m == if x % m == 0 {
            0
        } else {
            m - x % m
        },
{
    let q = x / m;
    let r = x % m;
    assert(x == m * q + r && 0 <= r < m) by (nonlinear_arith)
        requires
            q == x / m,
            r == x % m,
            m > 0,
    ;
    if r == 0 {
        assert(-x == m * (-q)) by (nonlinear_arith)
            requires
                x == m * q,
        ;
        vstd::arithmetic::div_mod::lemma_fundamental_div_mod_converse(-x, m, -q, 0);
    } else {
        assert(-x == m * (-q - 1) + (m - r)) by (nonlinear_arith)
            requires
                x == m * q + r,
        ;
        vstd::arithmetic::div_mod::lemma_fundamental_div_mod_converse(-x, m, -q - 1, m - r);
    }
}

/// How many decimal digits stand at the front of `s`.
pub open spec fn digits_run(s: Seq<char>) -> nat
    decreases s.len(),
{
    if s.len() > 0 && digit_of(s[0], 10) is Some {
        1 + digits_run(s.drop_first())
    } else {
        0
    }
}

/// Whether `c` is a plus or a minus sign.
pub open spec fn is_sign(c: char) -> bool {
    c == '+' || c == '-'
}

/// Whether `c` is the letter `low`, small or capital; `low` is the small one.
pub open spec fn is_letter(c: char, low: char) -> bool {
    c == low || (c as u32) + 32 == low as u32
}

/// `inf`, `infinity` or `nan`, in small or capital letters.
pub open spec fn is_special(s: Seq<char>) -> bool {
    ||| (s.len() == 3 && is_letter(s[0], 'i') && is_letter(s[1], 'n') && is_letter(s[2], 'f'))
    ||| (s.len() == 3 && is_letter(s[0], 'n') && is_letter(s[1], 'a') && is_letter(s[2], 'n'))
    ||| (s.len() == 8 && is_letter(s[0], 'i') && is_letter(s[1], 'n') && is_letter(s[2], 'f')
        && is_letter(s[3], 'i') && is_letter(s[4], 'n') && is_letter(s[5], 'i') && is_letter(
        s[6],
        't',
    ) && is_letter(s[7], 'y'))
}

/// An exponent: the letter `e`, one optional sign, then digits and nothing
/// else.
pub open spec fn is_exponent(s: Seq<char>) -> bool {
    s.len() > 0 && is_letter(s[0], 'e') && {
        let signed = s.len() > 1 && is_sign(s[1]);
        let digits = if signed {
            s.skip(2)
        } else {
            s.skip(1)
        };
        digits.len() > 0 && digits_run(digits) == digits.len()
    }
}

/// Digits with at most one point among them and at least one digit, then
/// possibly an exponent.
pub open spec fn is_decimal_number(s: Seq<char>) -> bool {
    let whole = digits_run(s) as int;
    let pointed = whole < s.len() && s[whole] == '.';
    let part = if pointed {
        digits_run(s.skip(whole + 1)) as int
    } else {
        0
    };
    let rest = if pointed {
        s.skip(whole + 1 + part)
    } else {
        s.skip(whole)
    };
    (whole > 0 || part > 0) && (rest.len() == 0 || is_exponent(rest))
}

/// Whether `s` writes a fractional number: one optional sign, then a decimal
/// number or one of the special names.
pub open spec fn is_fraction_text(s: Seq<char>) -> bool {
    let body = if s.len() > 0 && is_sign(s[0]) {
        s.drop_first()
    } else {
        s
    };
    is_special(body) || is_decimal_number(body)
}

/// Whether `c` is the letter `low`, small or capital.
pub fn letter_is(c: char, low: char) -> (b: bool)
    ensures
        b == is_letter(c, low),
{
    c == low || (c as u32) + 32 == low as u32
}

fn count_digits(s: &Vec<char>, from: usize, end: usize) -> (r: usize)
    requires
        from <= end <= s.len(),
    ensures
        r == digits_run(s@.subrange(from as int, end as int)),
        from + r <= end,
{
    let mut i: usize = from;
    while i < end && digit_at(s[i], 10).is_some()
        invariant
            from <= i <= end <= s.len(),
            digits_run(s@.subrange(from as int, end as int)) == (i - from) + digits_run(
                s@.subrange(i as int, end as int),
            ),
        decreases end - i,
    {
        assert(s@.subrange(i as int, end as int).drop_first() =~= s@.subrange(i + 1, end as int));
        i += 1;
    }
    i - from
}

fn special_at(s: &Vec<char>, from: usize, end: usize) -> (b: bool)
    requires
        from <= end <= s.len(),
    ensures
        b == is_special(s@.subrange(from as int, end as int)),
{
    let n = end - from;
    if n == 3 {
        (letter_is(s[from], 'i') && letter_is(s[from + 1], 'n') && letter_is(s[from + 2], 'f')) || (
        letter_is(s[from], 'n') && letter_is(s[from + 1], 'a') && letter_is(s[from + 2], 'n'))
    } else if n == 8 {
        letter_is(s[from], 'i') && letter_is(s[from + 1], 'n') && letter_is(s[from + 2], 'f')
            && letter_is(s[from + 3], 'i') && letter_is(s[from + 4], 'n') && letter_is(
            s[from + 5],
            'i',
        ) && letter_is(s[from + 6], 't') && letter_is(s[from + 7], 'y')
    } else {
        false
    }
}

fn exponent_at(s: &Vec<char>, from: usize, end: usize) -> (b: bool)
    requires
        from <= end <= s.len(),
    ensures
        b == is_exponent(s@.subrange(from as int, end as int)),
{
    let ghost part = s@.subrange(from as int, end as int);
    if from == end || !letter_is(s[from], 'e') {
        return false;
    }
    let signed = end - from > 1 && (s[from + 1] == '+' || s[from + 1] == '-');
    let start = if signed {
        from + 2
    } else {
        from + 1
    };
    proof {
        if signed {
            assert(part.skip(2) =~= s@.subrange(start as int, end as int));
        } else {
            assert(part.skip(1) =~= s@.subrange(start as int, end as int));
        }
    }
    start < end && count_digits(s, start, end) == end - start
}

/// Whether the first `end` characters of `s` write a fractional number.
pub fn is_fraction(s: &Vec<char>, end: usize) -> (b: bool)
    requires
        end <= s.len(),
    ensures
        b == is_fraction_text(s@.take(end as int)),
{
    let ghost text = s@.take(end as int);
    let from: usize = if end > 0 && (s[0] == '+' || s[0] == '-') {
        1
    } else {
        0
    };
    let ghost body = s@.subrange(from as int, end as int);
    assert(body =~= if text.len() > 0 && is_sign(text[0]) {
        text.drop_first()
    } else {
        text
    });
    if special_at(s, from, end) {
        return true;
    }
    let whole = count_digits(s, from, end);
    let pointed = from + whole < end && s[from + whole] == '.';
    let part = if pointed {
        assert(body.skip(whole + 1) =~= s@.subrange(from + whole + 1, end as int));
        count_digits(s, from + whole + 1, end)
    } else {
        0
    };
    let rest = if pointed {
        from + whole + 1 + part
    } else {
        from + whole
    };
    proof {
        if pointed {
            assert(body.skip(whole + 1 + part) =~= s@.subrange(rest as int, end as int));
        } else {
            assert(body.skip(whole as int) =~= s@.subrange(rest as int, end as int));
        }
    }
    (whole > 0 || part > 0) && (rest == end || exponent_at(s, rest, end))
}

} // verus!
