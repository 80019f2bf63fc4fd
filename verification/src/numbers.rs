//! Multi-radix integer literal parser.
//!
//! A literal is an optional chain of leading minus signs (each one negates the
//! rest), followed by a radix prefix `0b`, `0o` or `0x` with digits, or bare
//! decimal digits.  The executable parser accumulates the magnitude with
//! overflow-checked 64-bit arithmetic, so a literal whose magnitude exceeds
//! `u64::MAX` yields `None`.

use vstd::prelude::*;

verus! {

/// Numeric value of `c` as a digit in `base`, if it is one.  Letter digits
/// (hexadecimal) are accepted in either case.
pub open spec fn digit_of(c: char, base: int) -> Option<int> {
    let v: Option<int> = if c == '0' {
        Some(0)
    } else if c == '1' {
        Some(1)
    } else if c == '2' {
        Some(2)
    } else if c == '3' {
        Some(3)
    } else if c == '4' {
        Some(4)
    } else if c == '5' {
        Some(5)
    } else if c == '6' {
        Some(6)
    } else if c == '7' {
        Some(7)
    } else if c == '8' {
        Some(8)
    } else if c == '9' {
        Some(9)
    } else if c == 'a' || c == 'A' {
        Some(10)
    } else if c == 'b' || c == 'B' {
        Some(11)
    } else if c == 'c' || c == 'C' {
        Some(12)
    } else if c == 'd' || c == 'D' {
        Some(13)
    } else if c == 'e' || c == 'E' {
        Some(14)
    } else if c == 'f' || c == 'F' {
        Some(15)
    } else {
        None
    };
    match v {
        Some(d) => if d < base {
            Some(d)
        } else {
            None
        },
        None => None,
    }
}

/// Positional value of a digit string in `base`; the empty string counts as 0,
/// and any non-digit character spoils the whole string.
pub open spec fn radix_acc(s: Seq<char>, base: int) -> Option<int>
    decreases s.len(),
{
    if s.len() == 0 {
        Some(0)
    } else {
        match (radix_acc(s.drop_last(), base), digit_of(s.last(), base)) {
            (Some(v), Some(d)) => Some(v * base + d),
            _ => None,
        }
    }
}

/// Value of a non-empty digit string in `base`; `None` when empty or when any
/// character is not a digit of `base`.
pub open spec fn radix_value(s: Seq<char>, base: int) -> Option<int> {
    if s.len() == 0 {
        None
    } else {
        radix_acc(s, base)
    }
}

/// The integer a literal denotes: leading minus signs negate, a `0o`/`0x`/`0b`
/// prefix selects the radix, and bare digits are decimal.
pub open spec fn literal_value(s: Seq<char>) -> Option<int>
    decreases s.len(),
{
    if s.len() > 0 && s[0] == '-' {
        match literal_value(s.drop_first()) {
            Some(v) => Some(-v),
            None => None,
        }
    } else if s.len() >= 2 && s[0] == '0' && s[1] == 'o' {
        radix_value(s.skip(2), 8)
    } else if s.len() >= 2 && s[0] == '0' && s[1] == 'x' {
        radix_value(s.skip(2), 16)
    } else if s.len() >= 2 && s[0] == '0' && s[1] == 'b' {
        radix_value(s.skip(2), 2)
    } else {
        radix_value(s, 10)
    }
}

/// Whether the executable parser accepts `s`: it denotes an integer whose
/// magnitude fits in 64 bits.
pub open spec fn stoi_accepts(s: Seq<char>) -> bool {
    match literal_value(s) {
        Some(v) => -(u64::MAX as int) <= v <= u64::MAX as int,
        None => false,
    }
}

/// What `stoi` returns on `s`.
pub open spec fn stoi_spec(s: Seq<char>) -> Option<i128> {
    match literal_value(s) {
        Some(v) => if -(u64::MAX as int) <= v <= u64::MAX as int {
            Some(v as i128)
        } else {
            None
        },
        None => None,
    }
}

/// A digit value is non-negative and the accumulated value never shrinks as
/// digits are appended.
proof fn lemma_radix_acc_nonneg(s: Seq<char>, base: int)
    requires
        base >= 2,
    ensures
        match radix_acc(s, base) {
            Some(v) => v >= 0,
            None => true,
        },
    decreases s.len(),
{
    if s.len() > 0 {
        lemma_radix_acc_nonneg(s.drop_last(), base);
    }
}

/// The value of a prefix of a digit string never exceeds the value of the
/// whole, and a spoiled prefix spoils the whole.
proof fn lemma_radix_acc_prefix(s: Seq<char>, base: int, i: int)
    requires
        base >= 2,
        0 <= i <= s.len(),
    ensures
        radix_acc(s.take(i), base) is None ==> radix_acc(s, base) is None,
        match (radix_acc(s.take(i), base), radix_acc(s, base)) {
            (Some(p), Some(v)) => p <= v,
            _ => true,
        },
    decreases s.len(),
{
    if i == s.len() {
        assert(s.take(i) =~= s);
    } else {
        lemma_radix_acc_prefix(s.drop_last(), base, i);
        assert(s.drop_last().take(i) =~= s.take(i));
        lemma_radix_acc_nonneg(s.drop_last(), base);
        match (radix_acc(s.drop_last(), base), digit_of(s.last(), base)) {
            (Some(v), Some(d)) => {
                assert(v * base >= v * 2) by (nonlinear_arith)
                    requires
                        v >= 0,
                        base >= 2,
                ;
            },
            _ => {},
        }
    }
}

/// Value of a string with exactly one non-digit character is `None`.
pub proof fn lemma_bad_digit_fails(s: Seq<char>, base: int, i: int)
    requires
        base >= 2,
        0 <= i < s.len(),
        digit_of(s[i], base) is None,
    ensures
        radix_value(s, base) is None,
{
    assert(radix_acc(s.take(i + 1), base) is None);
    lemma_radix_acc_prefix(s, base, i + 1);
}

/// Runtime digit classifier for `base`.
fn digit_char_value(c: char, base: u64) -> (r: Option<u64>)
    requires
        2 <= base <= 16,
    ensures
        match r {
            Some(d) => digit_of(c, base as int) == Some(d as int),
            None => digit_of(c, base as int) is None,
        },
{
    let v: Option<u64> = if c == '0' {
        Some(0)
    } else if c == '1' {
        Some(1)
    } else if c == '2' {
        Some(2)
    } else if c == '3' {
        Some(3)
    } else if c == '4' {
        Some(4)
    } else if c == '5' {
        Some(5)
    } else if c == '6' {
        Some(6)
    } else if c == '7' {
        Some(7)
    } else if c == '8' {
        Some(8)
    } else if c == '9' {
        Some(9)
    } else if c == 'a' || c == 'A' {
        Some(10)
    } else if c == 'b' || c == 'B' {
        Some(11)
    } else if c == 'c' || c == 'C' {
        Some(12)
    } else if c == 'd' || c == 'D' {
        Some(13)
    } else if c == 'e' || c == 'E' {
        Some(14)
    } else if c == 'f' || c == 'F' {
        Some(15)
    } else {
        None
    };
    match v {
        Some(d) => if d < base {
            Some(d)
        } else {
            None
        },
        None => None,
    }
}

/// Parse the digits of `s` from index `from` to the end, in `base`.
fn parse_digits(s: &str, from: usize, base: u64) -> (r: Option<u64>)
    requires
        2 <= base <= 16,
        from as int <= s@.len(),
    ensures
        match r {
            Some(v) => radix_value(s@.skip(from as int), base as int) == Some(v as int),
            None => match radix_value(s@.skip(from as int), base as int) {
                Some(v) => v > u64::MAX as int,
                None => true,
            },
        },
{
    let ghost digits = s@.skip(from as int);
    let n = s.unicode_len();
    if from == n {
        return None;
    }
    let mut num: u64 = 0;
    let mut i: usize = from;
    while i < n
        invariant
            from <= i <= n,
            2 <= base <= 16,
            n == s@.len(),
            digits == s@.skip(from as int),
            radix_acc(s@.subrange(from as int, i as int), base as int) == Some(num as int),
        decreases n - i,
    {
        let c = s.get_char(i);
        let ghost prefix = s@.subrange(from as int, i as int);
        let ghost prefix2 = s@.subrange(from as int, i + 1 as int);
        proof {
            assert(prefix2.drop_last() =~= prefix);
            assert(prefix2.last() == s@[i as int]);
            assert(prefix2 =~= digits.take(i + 1 - from));
        }
        let d = match digit_char_value(c, base) {
            Some(d) => d,
            None => {
                proof {
                    lemma_radix_acc_prefix(digits, base as int, i + 1 - from);
                }
                return None;
            },
        };
        let mul = match num.checked_mul(base) {
            Some(m) => m,
            None => {
                proof {
                    lemma_radix_acc_prefix(digits, base as int, i + 1 - from);
                    assert(num * base + d > u64::MAX as int) by (nonlinear_arith)
                        requires
                            num * base > u64::MAX as int,
                            d >= 0,
                    ;
                }
                return None;
            },
        };
        let added = match mul.checked_add(d) {
            Some(a) => a,
            None => {
                proof {
                    lemma_radix_acc_prefix(digits, base as int, i + 1 - from);
                }
                return None;
            },
        };
        num = added;
        i += 1;
    }
    proof {
        assert(s@.subrange(from as int, n as int) =~= digits);
    }
    Some(num)
}

/// Convert a string to the integer its literal denotes.
///
/// Accepts decimal digits, `0x` hexadecimal, `0o` octal and `0b` binary, with
/// any number of leading minus signs, each of which negates the rest.  Returns
/// `None` for the empty string, a prefix with no digits, a character outside
/// the radix alphabet, or a magnitude that does not fit in 64 bits.
pub fn stoi(s: &str) -> (r: Option<i128>)
    ensures
        r == stoi_spec(s@),
    decreases s@.len(),
{
    let n = s.unicode_len();
    if n > 0 && s.get_char(0) == '-' {
        let rest = s.substring_char(1, n);
        proof {
            assert(rest@ =~= s@.drop_first());
        }
        match stoi(rest) {
            Some(v) => Some(-v),
            None => None,
        }
    } else if n >= 2 && s.get_char(0) == '0' && s.get_char(1) == 'o' {
        match parse_digits(s, 2, 8) {
            Some(v) => Some(v as i128),
            None => None,
        }
    } else if n >= 2 && s.get_char(0) == '0' && s.get_char(1) == 'x' {
        match parse_digits(s, 2, 16) {
            Some(v) => Some(v as i128),
            None => None,
        }
    } else if n >= 2 && s.get_char(0) == '0' && s.get_char(1) == 'b' {
        match parse_digits(s, 2, 2) {
            Some(v) => Some(v as i128),
            None => None,
        }
    } else {
        proof {
            assert(s@.skip(0) =~= s@);
        }
        match parse_digits(s, 0, 10) {
            Some(v) => Some(v as i128),
            None => None,
        }
    }
}

/// The lowercase digit character for `d`.
pub open spec fn digit_char(d: int) -> char {
    if d == 0 {
        '0'
    } else if d == 1 {
        '1'
    } else if d == 2 {
        '2'
    } else if d == 3 {
        '3'
    } else if d == 4 {
        '4'
    } else if d == 5 {
        '5'
    } else if d == 6 {
        '6'
    } else if d == 7 {
        '7'
    } else if d == 8 {
        '8'
    } else if d == 9 {
        '9'
    } else if d == 10 {
        'a'
    } else if d == 11 {
        'b'
    } else if d == 12 {
        'c'
    } else if d == 13 {
        'd'
    } else if d == 14 {
        'e'
    } else {
        'f'
    }
}

/// The digit string of `n` written in `base`, most significant digit first.
pub open spec fn to_digits(n: int, base: int) -> Seq<char>
    recommends
        0 <= n,
        2 <= base <= 16,
    decreases n,
    when 0 <= n && 2 <= base
    via to_digits_decreases
{
    if n < base {
        seq![digit_char(n)]
    } else {
        to_digits(n / base, base).push(digit_char(n % base))
    }
}

#[via_fn]
proof fn to_digits_decreases(n: int, base: int) {
    if n >= base {
        assert(n / base < n) by (nonlinear_arith)
            requires
                n >= base >= 2,
        ;
    }
}

/// `digit_of` inverts `digit_char` below the base.
pub proof fn lemma_digit_char_of(d: int, base: int)
    requires
        0 <= d < base <= 16,
    ensures
        digit_of(digit_char(d), base) == Some(d),
{
}

/// Every character `to_digits` writes is a digit of the base.
pub proof fn lemma_to_digits_are_digits(n: int, base: int)
    requires
        0 <= n,
        2 <= base <= 16,
    ensures
        to_digits(n, base).len() >= 1,
        forall|k: int|
            0 <= k < to_digits(n, base).len() ==> digit_of(
                #[trigger] to_digits(n, base)[k],
                base,
            ) is Some,
    decreases n,
{
    if n < base {
        lemma_digit_char_of(n, base);
    } else {
        assert(0 <= n / base < n) by (nonlinear_arith)
            requires
                n >= base >= 2,
        ;
        lemma_to_digits_are_digits(n / base, base);
        lemma_digit_char_of(n % base, base);
    }
}

/// Re-parsing the digit string of `n` in `base` recovers `n`.
pub proof fn lemma_digits_round_trip(n: int, base: int)
    requires
        0 <= n,
        2 <= base <= 16,
    ensures
        radix_value(to_digits(n, base), base) == Some(n),
    decreases n,
{
    if n < base {
        lemma_digit_char_of(n, base);
        let w = to_digits(n, base);
        assert(w == seq![digit_char(n)]);
        assert(w.len() == 1);
        assert(w.drop_last() =~= Seq::<char>::empty());
        assert(radix_acc(w.drop_last(), base) == Some(0int));
        assert(w.last() == digit_char(n));
        assert(radix_acc(w, base) == Some(0 * base + n));
    } else {
        assert(0 <= n / base < n) by (nonlinear_arith)
            requires
                n >= base >= 2,
        ;
        lemma_digits_round_trip(n / base, base);
        lemma_digit_char_of(n % base, base);
        let w = to_digits(n, base);
        assert(w == to_digits(n / base, base).push(digit_char(n % base)));
        assert(w.len() >= 1);
        assert(w.drop_last() =~= to_digits(n / base, base));
        assert(w.last() == digit_char(n % base));
        assert(n / base * base + n % base == n) by (nonlinear_arith)
            requires
                base >= 2,
        ;
        assert(radix_acc(w, base) == Some((n / base) * base + n % base));
    }
}

/// The literal text for `n` in `base`: the radix prefix followed by digits.
pub open spec fn format_literal(n: int, base: int) -> Seq<char> {
    if base == 2 {
        seq!['0', 'b'] + to_digits(n, 2)
    } else if base == 8 {
        seq!['0', 'o'] + to_digits(n, 8)
    } else if base == 16 {
        seq!['0', 'x'] + to_digits(n, 16)
    } else {
        to_digits(n, 10)
    }
}

/// Law: formatting a representable non-negative integer in any supported base
/// with its radix prefix and re-parsing it yields the same integer.
pub proof fn lemma_literal_round_trip(n: int, base: int)
    requires
        0 <= n <= u64::MAX as int,
        base == 2 || base == 8 || base == 10 || base == 16,
    ensures
        literal_value(format_literal(n, base)) == Some(n),
        stoi_spec(format_literal(n, base)) == Some(n as i128),
{
    let s = format_literal(n, base);
    lemma_to_digits_are_digits(n, base);
    lemma_digits_round_trip(n, base);
    if base == 10 {
        assert(digit_of(s[0], 10) is Some);
        assert(s[0] != '-' && s[0] != '0' || s.len() < 2 || digit_of(s[1], 10) is Some);
        if s.len() >= 2 {
            assert(digit_of(s[1], 10) is Some);
            assert(s[1] != 'o' && s[1] != 'x' && s[1] != 'b');
        }
    } else {
        let d = to_digits(n, base);
        assert(s.skip(2) =~= d);
        assert(s[0] == '0' && s[0] != '-');
    }
}

/// A decimal digit lies between `'0'` and `'9'`.
pub proof fn lemma_decimal_digit_range(c: char)
    requires
        digit_of(c, 10) is Some,
    ensures
        '0' as u32 <= c as u32 <= '9' as u32,
{
}

/// The decimal text of `d`, with a leading minus sign when `d` is negative.
pub open spec fn format_signed_decimal(d: int) -> Seq<char> {
    if d < 0 {
        seq!['-'] + to_digits(-d, 10)
    } else {
        to_digits(d, 10)
    }
}

/// Law: signed decimal text re-parses to the value it was written from, and
/// consists of a possible minus sign followed by decimal digits.
pub proof fn lemma_signed_decimal_round_trip(d: int)
    requires
        -(u64::MAX as int) <= d <= u64::MAX as int,
    ensures
        literal_value(format_signed_decimal(d)) == Some(d),
        format_signed_decimal(d).len() >= 1,
        forall|k: int|
            0 <= k < format_signed_decimal(d).len() ==> (#[trigger] format_signed_decimal(d)[k]
                == '-' || digit_of(format_signed_decimal(d)[k], 10) is Some),
{
    if d >= 0 {
        lemma_literal_round_trip(d, 10);
        lemma_to_digits_are_digits(d, 10);
    } else {
        lemma_literal_round_trip(-d, 10);
        lemma_to_digits_are_digits(-d, 10);
        lemma_minus_negates(to_digits(-d, 10));
        let f = format_signed_decimal(d);
        assert forall|k: int| 0 <= k < f.len() implies (#[trigger] f[k] == '-' || digit_of(
            f[k],
            10,
        ) is Some) by {
            if k > 0 {
                assert(f[k] == to_digits(-d, 10)[k - 1]);
            }
        }
    }
}

/// Law: a leading minus sign negates whatever literal follows it, and fails
/// exactly when the rest fails.
pub proof fn lemma_minus_negates(s: Seq<char>)
    ensures
        literal_value(seq!['-'] + s) == (match literal_value(s) {
            Some(v) => Some(-v),
            None => None::<int>,
        }),
{
    let m = seq!['-'] + s;
    assert(m[0] == '-');
    assert(m.drop_first() =~= s);
}

/// Law: the empty string and a bare radix prefix with no digits denote nothing.
pub proof fn lemma_empty_literal_fails()
    ensures
        literal_value(Seq::<char>::empty()) is None,
        literal_value(seq!['0', 'b']) is None,
        literal_value(seq!['0', 'o']) is None,
        literal_value(seq!['0', 'x']) is None,
{
    assert(seq!['0', 'b'].skip(2) =~= Seq::<char>::empty());
    assert(seq!['0', 'o'].skip(2) =~= Seq::<char>::empty());
    assert(seq!['0', 'x'].skip(2) =~= Seq::<char>::empty());
}

/// What the radix-specific entry points return: the value of the digits after
/// the two-character prefix `0` + `marker`, when the magnitude is representable.
pub open spec fn prefixed_radix_spec(s: Seq<char>, marker: char, base: int) -> Option<i128> {
    if s.len() >= 2 && s[0] == '0' && s[1] == marker {
        match radix_value(s.skip(2), base) {
            Some(v) => if v <= u64::MAX as int {
                Some(v as i128)
            } else {
                None
            },
            None => None,
        }
    } else {
        None
    }
}

/// Parse a `0b`-prefixed binary literal.
pub fn stoi_binary(s: &str) -> (r: Option<i128>)
    ensures
        r == prefixed_radix_spec(s@, 'b', 2),
{
    let n = s.unicode_len();
    if n >= 2 && s.get_char(0) == '0' && s.get_char(1) == 'b' {
        match parse_digits(s, 2, 2) {
            Some(v) => Some(v as i128),
            None => None,
        }
    } else {
        None
    }
}

/// Parse a `0o`-prefixed octal literal.
pub fn stoi_octal(s: &str) -> (r: Option<i128>)
    ensures
        r == prefixed_radix_spec(s@, 'o', 8),
{
    let n = s.unicode_len();
    if n >= 2 && s.get_char(0) == '0' && s.get_char(1) == 'o' {
        match parse_digits(s, 2, 8) {
            Some(v) => Some(v as i128),
            None => None,
        }
    } else {
        None
    }
}

/// Parse a bare decimal literal.
pub fn stoi_decimal(s: &str) -> (r: Option<i128>)
    ensures
        r == (match radix_value(s@, 10) {
            Some(v) => if v <= u64::MAX as int {
                Some(v as i128)
            } else {
                None
            },
            None => None::<i128>,
        }),
{
    proof {
        assert(s@.skip(0) =~= s@);
    }
    match parse_digits(s, 0, 10) {
        Some(v) => Some(v as i128),
        None => None,
    }
}

/// Parse a `0x`-prefixed hexadecimal literal.
pub fn stoi_hex(s: &str) -> (r: Option<i128>)
    ensures
        r == prefixed_radix_spec(s@, 'x', 16),
{
    let n = s.unicode_len();
    if n >= 2 && s.get_char(0) == '0' && s.get_char(1) == 'x' {
        match parse_digits(s, 2, 16) {
            Some(v) => Some(v as i128),
            None => None,
        }
    } else {
        None
    }
}

} // verus!
