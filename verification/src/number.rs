//! Decimal numbers in text, and the integer arithmetic of the sample and block counters.
use crate::text::chars_of;
use vstd::arithmetic::power2::pow2;
use vstd::prelude::*;

verus! {

// ---------------------------------------------------------------------------------------------
// Model
// ---------------------------------------------------------------------------------------------
pub open spec fn is_digit(c: char) -> bool {
    '0' <= c <= '9'
}

pub open spec fn is_ascii_alnum(c: char) -> bool {
    is_digit(c) || 'a' <= c <= 'z' || 'A' <= c <= 'Z'
}

pub open spec fn digit_value(c: char) -> nat {
    (c as u32 - '0' as u32) as nat
}

pub open spec fn digit_char(d: nat) -> char {
    ((d + 48) as u8) as char
}

/// The decimal digits of `n`.
pub open spec fn decimal(n: nat) -> Seq<char>
    decreases n,
{
    if n < 10 {
        seq![digit_char(n)]
    } else {
        decimal(n / 10).push(digit_char(n % 10))
    }
}

/// The decimal form of `n`, with a minus sign where it is negative.
pub open spec fn signed_decimal(n: int) -> Seq<char> {
    if n < 0 {
        seq!['-'] + decimal((-n) as nat)
    } else {
        decimal(n as nat)
    }
}

/// The number that a sequence of decimal digits writes.
pub open spec fn digits_value(s: Seq<char>) -> nat
    decreases s.len(),
{
    if s.len() == 0 {
        0
    } else {
        digits_value(s.drop_last()) * 10 + digit_value(s.last())
    }
}

pub open spec fn all_digits(s: Seq<char>) -> bool {
    s.len() > 0 && forall|i: int| 0 <= i < s.len() ==> is_digit(#[trigger] s[i])
}

/// The number that `s` writes: digits, with an optional plus sign before them.
pub open spec fn unsigned_number(s: Seq<char>) -> Option<nat> {
    let digits = if s.len() > 0 && s[0] == '+' {
        s.drop_first()
    } else {
        s
    };
    if all_digits(digits) {
        Some(digits_value(digits))
    } else {
        None
    }
}

/// The number that `s` writes: digits, with an optional sign before them.
pub open spec fn signed_number(s: Seq<char>) -> Option<int> {
    if s.len() > 0 && s[0] == '-' {
        if all_digits(s.drop_first()) {
            Some(-(digits_value(s.drop_first()) as int))
        } else {
            None
        }
    } else {
        match unsigned_number(s) {
            Some(n) => Some(n as int),
            None => None,
        }
    }
}

/// Whether `n` is a power of two.
pub open spec fn is_power_of_two(n: nat) -> bool {
    exists|k: nat| n == #[trigger] pow2(k)
}

/// The larger of two integers.
pub open spec fn max_int(a: int, b: int) -> int {
    if a < b {
        b
    } else {
        a
    }
}

/// `n`, held to the range of `u64`.
pub open spec fn saturated_u64(n: int) -> u64 {
    if n > u64::MAX {
        u64::MAX
    } else if n < 0 {
        0
    } else {
        n as u64
    }
}

/// Whether an `i64` can hold `n`.
pub open spec fn fits_i64(n: int) -> bool {
    i64::MIN <= n <= i64::MAX
}

// ---------------------------------------------------------------------------------------------
// Facts
// ---------------------------------------------------------------------------------------------
proof fn lemma_decimal_digits(n: nat)
    ensures
        all_digits(decimal(n)),
        digits_value(decimal(n)) == n,
    decreases n,
{
    if n < 10 {
        let s = decimal(n);
        assert(s.drop_last() =~= Seq::<char>::empty());
        assert(digits_value(s.drop_last()) == 0);
        assert(s.last() == digit_char(n));
    } else {
        lemma_decimal_digits(n / 10);
        let s = decimal(n);
        let head = decimal(n / 10);
        assert(s.drop_last() =~= head);
        assert forall|i: int| 0 <= i < s.len() implies is_digit(#[trigger] s[i]) by {
            if i < head.len() {
                assert(s[i] == head[i]);
            }
        }
    }
}

/// Reading back the decimal form of a number, which is made of digits, gives that number.
pub proof fn decimal_round_trip(n: nat)
    ensures
        unsigned_number(decimal(n)) == Some(n),
        all_digits(decimal(n)),
{
    lemma_decimal_digits(n);
    assert(is_digit(decimal(n)[0]));
}

/// Reading back the signed decimal form of a number gives that number.
pub proof fn signed_decimal_round_trip(n: int)
    ensures
        signed_number(signed_decimal(n)) == Some(n),
{
    if n < 0 {
        lemma_decimal_digits((-n) as nat);
        assert(signed_decimal(n).drop_first() =~= decimal((-n) as nat));
    } else {
        decimal_round_trip(n as nat);
        lemma_decimal_digits(n as nat);
        assert(is_digit(decimal(n as nat)[0]));
    }
}

proof fn lemma_digits_value_grows(s: Seq<char>, i: int)
    requires
        0 <= i <= s.len(),
    ensures
        digits_value(s.take(i)) <= digits_value(s),
    decreases s.len() - i,
{
    if i == s.len() {
        assert(s.take(i) =~= s);
    } else {
        lemma_digits_value_grows(s, i + 1);
        assert(s.take(i + 1).drop_last() =~= s.take(i));
    }
}

proof fn lemma_halve(m: nat)
    requires
        m > 0,
    ensures
        m % 2 == 0 ==> (is_power_of_two(m) <==> is_power_of_two(m / 2)),
        m % 2 == 1 ==> (is_power_of_two(m) <==> m == 1),
{
    vstd::arithmetic::power2::lemma2_to64();
    if is_power_of_two(m) {
        let k = choose|k: nat| m == #[trigger] pow2(k);
        if k > 0 {
            vstd::arithmetic::power2::lemma_pow2_unfold(k);
            assert(m == 2 * pow2((k - 1) as nat));
            assert(m / 2 == pow2((k - 1) as nat));
        } else {
            assert(m == 1);
        }
    }
    if m % 2 == 0 && is_power_of_two(m / 2) {
        let k = choose|k: nat| m / 2 == #[trigger] pow2(k);
        vstd::arithmetic::power2::lemma_pow2_unfold(k + 1);
        assert(m == pow2(k + 1));
    }
    if m == 1 {
        assert(m == pow2(0));
    }
}

// ---------------------------------------------------------------------------------------------
// Operations
// ---------------------------------------------------------------------------------------------
/// The decimal form of `n`.
pub fn decimal_of(n: u128) -> (out: String)
    ensures
        out@ == decimal(n as nat),
    decreases n,
{
    let digit: char = ((n % 10) as u8 + 48) as char;
    let mut out = if n < 10 {
        String::new()
    } else {
        decimal_of(n / 10)
    };
    out.push(digit);
    proof {
        if n < 10 {
            assert(out@ =~= seq![digit_char(n as nat)]);
        }
    }
    out
}

/// The decimal form of `n`, with a minus sign where it is negative.
pub fn signed_decimal_of(n: i64) -> (out: String)
    ensures
        out@ == signed_decimal(n as int),
{
    if n < 0 {
        let mut out = String::new();
        out.push('-');
        let magnitude: u128 = (-(n as i128)) as u128;
        let digits = decimal_of(magnitude);
        let chars = chars_of(digits.as_str());
        let mut i: usize = 0;
        while i < chars.len()
            invariant
                i <= chars@.len(),
                chars@ == digits@,
                out@ == seq!['-'] + digits@.take(i as int),
            decreases chars@.len() - i,
        {
            out.push(chars[i]);
            i = i + 1;
            assert(digits@.take(i as int) =~= digits@.take(i - 1).push(chars@[i - 1]));
        }
        assert(digits@.take(i as int) =~= digits@);
        out
    } else {
        decimal_of(n as u128)
    }
}

/// Whether `c` is a decimal digit.
pub fn digit(c: char) -> (r: bool)
    ensures
        r == is_digit(c),
{
    '0' <= c && c <= '9'
}

/// Whether `c` is an ASCII letter or digit.
pub fn ascii_alnum(c: char) -> (r: bool)
    ensures
        r == is_ascii_alnum(c),
{
    digit(c) || ('a' <= c && c <= 'z') || ('A' <= c && c <= 'Z')
}

/// Reads the digits of `chars` from `from` on, up to the bound `max`.
fn read_digits(chars: &Vec<char>, from: usize, max: u64) -> (out: Option<u64>)
    requires
        from <= chars@.len(),
    ensures
        ({
            let digits = chars@.skip(from as int);
            match out {
                Some(n) => all_digits(digits) && digits_value(digits) == n && n <= max,
                None => !all_digits(digits) || digits_value(digits) > max,
            }
        }),
{
    let ghost digits = chars@.skip(from as int);
    let n: usize = chars.len();
    if from == n {
        return None;
    }
    let mut value: u64 = 0;
    let mut i: usize = from;
    assert(digits.take(0) =~= Seq::<char>::empty());
    while i < n
        invariant
            n == chars@.len(),
            from <= i <= n,
            digits == chars@.skip(from as int),
            forall|k: int| 0 <= k < i - from ==> is_digit(#[trigger] digits[k]),
            digits_value(digits.take(i - from)) == value,
            value <= max,
        decreases n - i,
    {
        let c = chars[i];
        assert(digits[i - from] == c);
        if !digit(c) {
            return None;
        }
        let d: u64 = (c as u32 - 48) as u64;
        proof {
            assert(digits.take(i - from + 1).drop_last() =~= digits.take(i - from));
            assert(digits.take(i - from + 1).last() == c);
            lemma_digits_value_grows(digits, i - from + 1);
        }
        if value > (u64::MAX - d) / 10 {
            assert(value * 10 + d > u64::MAX);
            return None;
        }
        let next: u64 = value * 10 + d;
        if next > max {
            return None;
        }
        value = next;
        i = i + 1;
    }
    assert(digits.take(i - from) =~= digits);
    Some(value)
}

/// The number that `s` writes, where it is at most `max`.
pub fn parse_unsigned(s: &str, max: u64) -> (out: Option<u64>)
    ensures
        match unsigned_number(s@) {
            Some(n) => if n <= max {
                out == Some(n as u64)
            } else {
                out is None
            },
            None => out is None,
        },
{
    let chars = chars_of(s);
    if chars.len() > 0 && chars[0] == '+' {
        assert(chars@.skip(1) =~= s@.drop_first());
        read_digits(&chars, 1, max)
    } else {
        assert(chars@.skip(0) =~= s@);
        read_digits(&chars, 0, max)
    }
}

/// The number that `s` writes, where an `i64` can hold it.
pub fn parse_signed(s: &str) -> (out: Option<i64>)
    ensures
        match signed_number(s@) {
            Some(n) => if fits_i64(n) {
                out == Some(n as i64)
            } else {
                out is None
            },
            None => out is None,
        },
{
    let chars = chars_of(s);
    if chars.len() > 0 && chars[0] == '-' {
        assert(chars@.skip(1) =~= s@.drop_first());
        match read_digits(&chars, 1, 0x8000_0000_0000_0000) {
            Some(n) => Some((-(n as i128)) as i64),
            None => None,
        }
    } else {
        match parse_unsigned(s, i64::MAX as u64) {
            Some(n) => Some(n as i64),
            None => None,
        }
    }
}

/// Whether `n` is a power of two.
pub fn power_of_two(n: u64) -> (r: bool)
    ensures
        r == is_power_of_two(n as nat),
{
    if n == 0 {
        proof {
            if is_power_of_two(0) {
                let k = choose|k: nat| 0 == #[trigger] pow2(k);
                vstd::arithmetic::power2::lemma_pow2_pos(k);
            }
        }
        return false;
    }
    let mut m: u64 = n;
    while m % 2 == 0
        invariant
            m > 0,
            is_power_of_two(m as nat) == is_power_of_two(n as nat),
        decreases m,
    {
        proof {
            lemma_halve(m as nat);
        }
        m = m / 2;
    }
    proof {
        lemma_halve(m as nat);
    }
    m == 1
}

/// The quotient of `a` by the positive `b`, rounded down.
pub fn floor_div(a: i64, b: i64) -> (q: i64)
    requires
        b > 0,
    ensures
        q == a as int / b as int,
        q * b <= a < (q + 1) * b,
{
    proof {
        vstd::arithmetic::div_mod::lemma_fundamental_div_mod(a as int, b as int);
        let q = a as int / b as int;
        assert(q * b <= a < (q + 1) * b) by (nonlinear_arith)
            requires
                a as int == b as int * q + (a as int) % (b as int),
                0 <= (a as int) % (b as int) < b as int,
        ;
        assert(i64::MIN <= q <= i64::MAX) by (nonlinear_arith)
            requires
                q * b <= a < (q + 1) * b,
                b > 0,
                i64::MIN <= a <= i64::MAX,
        ;
    }
    match a.checked_div_euclid(b) {
        Some(q) => q,
        None => 0,
    }
}

// ---------------------------------------------------------------------------------------------
// Laws
// ---------------------------------------------------------------------------------------------
/// The decimal form of a number below ten is one digit; that of any other number is the form of its
/// tenth with the last digit behind it.
pub proof fn digits_stand_in_order(n: u128, out: String, tenth: u128, rest: String)
    requires
        tenth == n / 10,
        call_ensures(decimal_of, (n,), out),
        call_ensures(decimal_of, (tenth,), rest),
    ensures
        out@.len() > 0,
        out@[out@.len() - 1] as u32 == 48 + n % 10,
        n < 10 ==> out@.len() == 1,
        n >= 10 ==> out@.drop_last() == rest@,
{
    if n >= 10 {
        assert(decimal(n as nat).drop_last() =~= decimal((n / 10) as nat));
    }
}

/// A negative number is written as its magnitude with a minus sign before it, any other without
/// sign.
pub proof fn negative_numbers_have_a_sign(n: i64, out: String, magnitude: u128, digits: String)
    requires
        magnitude == if n < 0 {
            -n
        } else {
            n as int
        },
        call_ensures(signed_decimal_of, (n,), out),
        call_ensures(decimal_of, (magnitude,), digits),
    ensures
        n >= 0 ==> out@ == digits@,
        n < 0 ==> out@.len() == digits@.len() + 1 && out@[0] == '-' && out@.skip(1) == digits@,
{
    if n < 0 {
        assert((seq!['-'] + digits@).skip(1) =~= digits@);
    }
}

/// What is read as a number is made of digits, at least one, with an optional plus sign before
/// them, and is no larger than asked for.
pub proof fn numbers_are_made_of_digits(s: &str, max: u64, out: Option<u64>)
    requires
        call_ensures(parse_unsigned, (s, max), out),
    ensures
        out matches Some(n) ==> n <= max,
        out is Some ==> s@.len() > 0 && (s@[0] == '+' ==> s@.len() > 1),
        out is Some ==> forall|i: int|
            0 <= i < s@.len() ==> 48 <= (#[trigger] s@[i]) as u32 <= 57 || (i == 0 && s@[0] == '+'),
{
    let digits = if s@.len() > 0 && s@[0] == '+' {
        s@.drop_first()
    } else {
        s@
    };
    if out is Some {
        assert forall|i: int| 0 <= i < s@.len() implies 48 <= (#[trigger] s@[i]) as u32 <= 57 || (i
            == 0 && s@[0] == '+') by {
            if s@[0] == '+' {
                if i > 0 {
                    assert(digits[i - 1] == s@[i]);
                }
            } else {
                assert(digits[i] == s@[i]);
            }
        }
    }
}

proof fn lemma_one_more_digit(t: Seq<char>, c: char)
    requires
        t.len() > 0,
        is_digit(c),
    ensures
        unsigned_number(t.push(c)) == match unsigned_number(t) {
            Some(n) => Some(10 * n + digit_value(c)),
            None => if t == seq!['+'] {
                Some(digit_value(c))
            } else {
                None
            },
        },
{
    let s = t.push(c);
    let (a, b) = if t[0] == '+' {
        (t.drop_first(), s.drop_first())
    } else {
        (t, s)
    };
    assert(b =~= a.push(c));
    assert(b.drop_last() =~= a);
    if all_digits(b) && a.len() > 0 {
        assert forall|i: int| 0 <= i < a.len() implies is_digit(#[trigger] a[i]) by {
            assert(b[i] == a[i]);
        }
    }
    if all_digits(a) {
        assert forall|i: int| 0 <= i < b.len() implies is_digit(#[trigger] b[i]) by {
            if i < a.len() {
                assert(b[i] == a[i]);
            }
        }
    }
    if a.len() == 0 {
        assert(t =~= seq!['+']);
        assert(digits_value(b.drop_last()) == 0);
    }
    if t =~= seq!['+'] {
        assert(a.len() == 0);
    }
}

/// One digit alone is read as its value. A further digit behind a number makes it ten times as
/// large, with the value of that digit added; the result is read just where it is no larger than
/// asked for.
pub proof fn digits_are_read_in_order(
    t: &str,
    c: char,
    s: &str,
    max: u64,
    first: Option<u64>,
    out: Option<u64>,
)
    requires
        s@ == t@.push(c),
        48 <= c as u32 <= 57,
        call_ensures(parse_unsigned, (t, u64::MAX), first),
        call_ensures(parse_unsigned, (s, max), out),
    ensures
        t@.len() == 0 ==> out == if c as u32 - 48 <= max {
            Some((c as u32 - 48) as u64)
        } else {
            None
        },
        first matches Some(n) ==> (out matches Some(m) ==> m == 10 * n + (c as u32 - 48)) && (
        out is Some <==> 10 * n + (c as u32 - 48) <= max),
        t@.len() > 0 && first is None && out is Some ==> t@ == seq!['+'],
{
    if t@.len() == 0 {
        assert(s@ =~= seq![c]);
        assert(s@.drop_last() =~= Seq::<char>::empty());
        assert(digits_value(s@.drop_last()) == 0);
        assert(all_digits(s@));
    } else {
        lemma_one_more_digit(t@, c);
        match unsigned_number(t@) {
            Some(n) => {
                if n > u64::MAX {
                    assert(10 * n + digit_value(c) > u64::MAX);
                }
            },
            None => {},
        }
    }
}

/// A plus sign before digits changes nothing, and a minus sign is for a number that may be
/// negative: there it makes the number negative. Without a sign both read the same.
pub proof fn signs_are_read(
    digits: &str,
    plus: &str,
    minus: &str,
    max: u64,
    n: Option<u64>,
    with_plus: Option<u64>,
    with_minus: Option<u64>,
    signed: Option<i64>,
    signed_minus: Option<i64>,
    wide: Option<u64>,
)
    requires
        digits@.len() > 0,
        48 <= digits@[0] as u32 <= 57,
        plus@ == seq!['+'] + digits@,
        minus@ == seq!['-'] + digits@,
        call_ensures(parse_unsigned, (digits, max), n),
        call_ensures(parse_unsigned, (plus, max), with_plus),
        call_ensures(parse_unsigned, (minus, max), with_minus),
        call_ensures(parse_signed, (digits,), signed),
        call_ensures(parse_signed, (minus,), signed_minus),
        call_ensures(parse_unsigned, (digits, u64::MAX), wide),
    ensures
        with_plus == n,
        with_minus is None,
        signed is Some <==> (wide matches Some(m) && m <= 0x7fff_ffff_ffff_ffff),
        signed matches Some(m) ==> wide == Some(m as u64) && m >= 0,
        signed_minus is Some <==> (wide matches Some(m) && m <= 0x8000_0000_0000_0000),
        signed_minus matches Some(m) ==> (wide matches Some(k) && m == -k),
{
    assert(plus@.drop_first() =~= digits@);
    assert(minus@.drop_first() =~= digits@);
    assert(minus@[0] == '-');
    assert(!is_digit('-'));
    assert(!all_digits(minus@)) by {
        assert(!is_digit(minus@[0]));
    }
}

/// A number that can be read writes the same number in any of its decimal forms.
pub proof fn written_numbers_are_read_back(n: u64, s: &str, text: String, out: Option<u64>)
    requires
        call_ensures(decimal_of, (n as u128,), text),
        s@ == text@,
        call_ensures(parse_unsigned, (s, u64::MAX), out),
    ensures
        out == Some(n),
{
    decimal_round_trip(n as nat);
}

/// One is a power of two, nothing is none, an even number is one where its half is, and no other
/// odd number is one.
pub proof fn powers_of_two_are_halved(n: u64, r: bool, half: u64, r_half: bool)
    requires
        half == n / 2,
        call_ensures(power_of_two, (n,), r),
        call_ensures(power_of_two, (half,), r_half),
    ensures
        n == 0 ==> !r,
        n == 1 ==> r,
        n > 0 && n % 2 == 0 ==> r == r_half,
        n > 1 && n % 2 == 1 ==> !r,
{
    if n > 0 {
        lemma_halve(n as nat);
        if n == 1 {
            vstd::arithmetic::power2::lemma2_to64();
            assert(1 == pow2(0));
        }
    } else if r {
        let k = choose|k: nat| 0 == #[trigger] pow2(k);
        vstd::arithmetic::power2::lemma_pow2_pos(k);
    }
}

/// The quotient is the greatest number whose product with the divisor is no greater than the
/// dividend.
pub proof fn quotient_is_rounded_down(a: i64, b: i64, q: i64)
    requires
        b > 0,
        call_ensures(floor_div, (a, b), q),
    ensures
        q * b <= a,
        (q + 1) * b > a,
{
}

/// Digits and letters are those of ASCII.
pub proof fn digits_and_letters_are_ascii(c: char, is_d: bool, is_alnum: bool)
    requires
        call_ensures(digit, (c,), is_d),
        call_ensures(ascii_alnum, (c,), is_alnum),
    ensures
        is_d <==> 48 <= c as u32 <= 57,
        is_alnum <==> 48 <= c as u32 <= 57 || 65 <= c as u32 <= 90 || 97 <= c as u32 <= 122,
{
}

} // verus!
