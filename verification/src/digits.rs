//! Positional numerals: how a natural number is written in a base, and how a run of
//! decimal digits is read.

use vstd::arithmetic::div_mod::lemma_div_denominator;
use vstd::arithmetic::power::{lemma_pow0, lemma_pow1, lemma_pow_positive, pow};
use vstd::arithmetic::power2::{
    lemma2_to64,
    lemma_pow2_adds,
    lemma_pow2_pos,
    lemma_pow2_unfold,
    pow2,
};
use vstd::prelude::*;

verus! {

/// The digit `d`, from zero to fifteen, with its letters in upper or lower case.
pub open spec fn digit_char(d: int, upper: bool) -> char {
    if d < 10 {
        ('0' as int + d) as char
    } else if upper {
        ('A' as int + d - 10) as char
    } else {
        ('a' as int + d - 10) as char
    }
}

/// The digits of `n` in `base`, most significant first and without leading zeros; zero
/// is a single `0`.
pub open spec fn numeral(n: nat, base: nat, upper: bool) -> Seq<char>
    recommends
        2 <= base <= 16,
    decreases n,
{
    if base < 2 || n < base {
        seq![digit_char(n as int, upper)]
    } else {
        proof {
            assert(n / base < n) by (nonlinear_arith)
                requires
                    n >= base,
                    base >= 2,
            ;
        }
        numeral(n / base, base, upper).push(digit_char((n % base) as int, upper))
    }
}

/// What a digit counts for.
pub open spec fn digit_value(c: char) -> nat {
    if '0' <= c <= '9' {
        (c as int - '0' as int) as nat
    } else if 'a' <= c <= 'f' {
        (c as int - 'a' as int + 10) as nat
    } else if 'A' <= c <= 'F' {
        (c as int - 'A' as int + 10) as nat
    } else {
        0
    }
}

/// The number that the digits `s` denote in `base`; no digits denote zero.
pub open spec fn value(s: Seq<char>, base: nat) -> nat
    decreases s.len(),
{
    if s.len() == 0 {
        0
    } else {
        value(s.drop_last(), base) * base + digit_value(s.last())
    }
}

/// `c` is one of `0` to `9`.
pub open spec fn is_digit(c: char) -> bool {
    '0' <= c <= '9'
}

/// Every character of `s` is one of `0` to `9`.
pub open spec fn all_digits(s: Seq<char>) -> bool {
    forall|i: int| 0 <= i < s.len() ==> is_digit(#[trigger] s[i])
}

/// The bytes `b` read as the characters with those codes.
pub open spec fn latin(b: Seq<u8>) -> Seq<char> {
    Seq::new(b.len(), |i: int| b[i] as char)
}

/// The numeral of a number reads back as that number.
pub proof fn numeral_reads_back(n: nat, base: nat, upper: bool)
    requires
        2 <= base <= 16,
    ensures
        value(numeral(n, base, upper), base) == n,
    decreases n,
{
    let s = numeral(n, base, upper);
    if n < base {
        reveal_with_fuel(value, 2);
        assert(s.drop_last() =~= Seq::<char>::empty());
        assert(0 * base == 0) by (nonlinear_arith);
        assert(s.last() == digit_char(n as int, upper));
        assert(digit_value(s.last()) == n);
    } else {
        assert(n / base < n) by (nonlinear_arith)
            requires
                n >= base,
                base >= 2,
        ;
        numeral_reads_back(n / base, base, upper);
        assert(s.drop_last() =~= numeral(n / base, base, upper));
        assert(0 <= n % base < base && (n / base) * base + n % base == n) by (nonlinear_arith)
            requires
                base >= 2,
        ;
    }
}

/// A numeral has at least one digit, and no leading zero unless it is `0` itself.
pub proof fn numeral_is_canonical(n: nat, base: nat, upper: bool)
    requires
        2 <= base <= 16,
    ensures
        numeral(n, base, upper).len() >= 1,
        numeral(n, base, upper)[0] == '0' <==> n == 0,
    decreases n,
{
    if n >= base {
        assert(0 < n / base < n) by (nonlinear_arith)
            requires
                n >= base,
                base >= 2,
        ;
        numeral_is_canonical(n / base, base, upper);
    }
}

/// A decimal numeral is made of decimal digits.
pub proof fn decimal_numeral_is_digits(n: nat)
    ensures
        all_digits(numeral(n, 10, false)),
    decreases n,
{
    if n >= 10 {
        decimal_numeral_is_digits(n / 10);
    }
}

/// Numerals are ASCII.
pub proof fn numeral_is_ascii(n: nat, base: nat, upper: bool)
    requires
        2 <= base <= 16,
    ensures
        vstd::utf8::is_ascii_chars(numeral(n, base, upper)),
    decreases n,
{
    if n >= base {
        assert(n / base < n) by (nonlinear_arith)
            requires
                n >= base,
                base >= 2,
        ;
        assert(0 <= n % base < base) by (nonlinear_arith)
            requires
                base >= 2,
        ;
        numeral_is_ascii(n / base, base, upper);
    }
}

/// The digits are these sixteen characters in this order, and each counts for its place
/// among them, in either case of its letter.
pub proof fn digits_are_in_order(d: int)
    requires
        0 <= d < 16,
    ensures
        digit_char(d, false) == "0123456789abcdef"@[d],
        digit_char(d, true) == "0123456789ABCDEF"@[d],
        digit_value("0123456789abcdef"@[d]) == d,
        digit_value("0123456789ABCDEF"@[d]) == d,
{
    reveal_strlit("0123456789abcdef");
    reveal_strlit("0123456789ABCDEF");
    assert(d == 0 || d == 1 || d == 2 || d == 3 || d == 4 || d == 5 || d == 6 || d == 7 || d == 8
        || d == 9 || d == 10 || d == 11 || d == 12 || d == 13 || d == 14 || d == 15);
}

/// `c` counts as a decimal digit exactly from `0` to `9`, and for as much as it is beyond
/// `0`.
pub proof fn decimal_digits_are_ten(c: char)
    ensures
        is_digit(c) <==> '0' <= c && c <= '9',
        is_digit(c) ==> digit_value(c) == c as int - '0' as int,
{
}

/// No digits denote zero, and a digit behind others shifts them up by one place and adds
/// what it counts for.
pub proof fn digit_shifts_the_rest_up(s: Seq<char>, c: char, d: int, base: nat)
    requires
        0 <= d < 16,
        c == "0123456789abcdef"@[d] || c == "0123456789ABCDEF"@[d],
    ensures
        value(Seq::<char>::empty(), base) == 0,
        value(s.push(c), base) == base * value(s, base) + d,
{
    digits_are_in_order(d);
    assert(s.push(c).drop_last() =~= s);
    assert(value(s, base) * base == base * value(s, base)) by (nonlinear_arith);
}

/// The letters of a numeral are all in the case that is asked for, and its digits are all
/// below the base.
pub proof fn numeral_has_one_case(n: nat, base: nat, i: int)
    requires
        2 <= base <= 16,
        0 <= i < numeral(n, base, false).len(),
    ensures
        '0' <= numeral(n, base, false)[i] <= '9' || 'a' <= numeral(n, base, false)[i] <= 'f',
        numeral(n, base, true).len() == numeral(n, base, false).len(),
        '0' <= numeral(n, base, true)[i] <= '9' || 'A' <= numeral(n, base, true)[i] <= 'F',
        digit_value(numeral(n, base, false)[i]) < base,
        digit_value(numeral(n, base, true)[i]) < base,
    decreases n,
{
    if n >= base {
        assert(n / base < n) by (nonlinear_arith)
            requires
                n >= base,
                base >= 2,
        ;
        assert(0 <= n % base < base) by (nonlinear_arith)
            requires
                base >= 2,
        ;
        if i < numeral(n / base, base, false).len() {
            numeral_has_one_case(n / base, base, i);
        } else {
            numeral_has_one_case(n / base, base, 0);
        }
    }
}

/// The character at the place of `base` to the `i` shows how often that power goes into the
/// number, as one of the digits in order.
pub proof fn numeral_is_positional(n: nat, base: nat, upper: bool, i: nat)
    requires
        2 <= base <= 16,
        i < numeral(n, base, upper).len(),
    ensures
        ({
            let digit = (n as int / pow(base as int, i)) % (base as int);
            let shown = numeral(n, base, upper)[numeral(n, base, upper).len() - 1 - i];
            shown == if upper {
                "0123456789ABCDEF"@[digit]
            } else {
                "0123456789abcdef"@[digit]
            }
        }),
    decreases n,
{
    let b = base as int;
    if i == 0 {
        lemma_pow0(b);
        assert(n as int / 1 == n as int);
        assert(0 <= n as int % b < b) by (nonlinear_arith)
            requires
                b >= 2,
        ;
        if n < base {
            assert(n as int % b == n as int) by (nonlinear_arith)
                requires
                    0 <= n < b,
            ;
        }
        digits_are_in_order(n as int % b);
    } else {
        let j = (i - 1) as nat;
        assert(n / base < n) by (nonlinear_arith)
            requires
                n >= base,
                base >= 2,
        ;
        numeral_is_positional(n / base, base, upper, j);
        lemma_pow_positive(b, j);
        lemma_div_denominator(n as int, b, pow(b, j));
        reveal(pow);
        assert(pow(b, i) == b * pow(b, j));
    }
}

/// A numeral has as many digits as it takes to write the number, and no more: zero has one,
/// and any other number is beyond what fewer digits can write.
pub proof fn numeral_is_as_long_as_needed(n: nat, base: nat, upper: bool)
    requires
        2 <= base <= 16,
    ensures
        n == 0 ==> numeral(n, base, upper).len() == 1,
        n > 0 ==> pow(base as int, (numeral(n, base, upper).len() - 1) as nat) <= n,
        n < pow(base as int, numeral(n, base, upper).len()),
    decreases n,
{
    let b = base as int;
    if n < base {
        lemma_pow0(b);
        lemma_pow1(b);
    } else {
        assert(0 < n / base < n) by (nonlinear_arith)
            requires
                n >= base,
                base >= 2,
        ;
        numeral_is_as_long_as_needed(n / base, base, upper);
        let len = numeral(n / base, base, upper).len();
        numeral_is_canonical(n / base, base, upper);
        reveal(pow);
        let low = pow(b, (len - 1) as nat);
        let high = pow(b, len);
        assert(pow(b, len + 1) == b * high);
        assert(high == b * low);
        let q = n as int / b;
        assert(b * low <= n < b * high) by (nonlinear_arith)
            requires
                b >= 2,
                q == n as int / b,
                low <= q < high,
        ;
    }
}

/// Leading zeros count for nothing.
pub proof fn leading_zeros_are_worthless(s: Seq<char>, zeros: nat, base: nat)
    ensures
        value(crate::text::run('0', zeros) + s, base) == value(s, base),
    decreases s.len(), zeros,
{
    let t = crate::text::run('0', zeros) + s;
    if s.len() > 0 {
        assert(t.drop_last() =~= crate::text::run('0', zeros) + s.drop_last());
        leading_zeros_are_worthless(s.drop_last(), zeros, base);
    } else if zeros > 0 {
        assert(t.drop_last() =~= crate::text::run('0', (zeros - 1) as nat) + s);
        leading_zeros_are_worthless(s, (zeros - 1) as nat, base);
        assert(0 * base == 0) by (nonlinear_arith);
    } else {
        assert(t =~= s);
    }
}

/// Where each digit is worth `bits` bits or more, a number of `bits * k` bits has at most
/// `k` digits.
pub proof fn numeral_length_is_bounded(n: nat, base: nat, upper: bool, bits: nat, k: nat)
    requires
        2 <= base <= 16,
        1 <= bits,
        pow2(bits) <= base,
        n < pow2(bits * k),
        k >= 1,
    ensures
        numeral(n, base, upper).len() <= k,
    decreases n,
{
    if n >= base {
        assert(bits * k == bits + bits * (k - 1)) by (nonlinear_arith);
        assert(bits * (k - 1) >= 0) by (nonlinear_arith)
            requires
                k >= 1,
        ;
        let rest = pow2((bits * (k - 1)) as nat);
        lemma_pow2_adds(bits, (bits * (k - 1)) as nat);
        lemma_pow2_pos(bits);
        let unit = pow2(bits);
        if k == 1 {
            assert(bits * k == bits) by (nonlinear_arith)
                requires
                    k == 1,
            ;
        }
        assert(0 < n / base < n && n / base < rest) by (nonlinear_arith)
            requires
                n >= base,
                base >= 2,
                0 < unit <= base,
                n < unit * rest,
        ;
        numeral_length_is_bounded(n / base, base, upper, bits, (k - 1) as nat);
    }
}

/// Reads the digits `chars[from..to]` as a decimal number; none when it exceeds
/// `usize`.
pub(crate) fn read_decimal(chars: &Vec<char>, from: usize, to: usize) -> (n: Option<usize>)
    requires
        from <= to <= chars.len(),
        all_digits(chars@.subrange(from as int, to as int)),
    ensures
        n is Some <==> value(chars@.subrange(from as int, to as int), 10) <= usize::MAX,
        n matches Some(n) ==> n == value(chars@.subrange(from as int, to as int), 10),
{
    let ghost text = chars@.subrange(from as int, to as int);
    let mut n: usize = 0;
    let mut i: usize = from;
    while i < to
        invariant
            from <= i <= to <= chars.len(),
            text == chars@.subrange(from as int, to as int),
            all_digits(text),
            n == value(text.take(i - from), 10),
        decreases to - i,
    {
        let c = chars[i];
        proof {
            assert(text[i - from] == c);
            assert(text.take(i + 1 - from).drop_last() =~= text.take(i - from));
            prefix_is_no_greater(text, i + 1 - from);
        }
        let d: usize = c as usize - '0' as usize;
        let tens: usize = match n.checked_mul(10) {
            Some(t) => t,
            None => {
                return None;
            },
        };
        n = match tens.checked_add(d) {
            Some(t) => t,
            None => {
                return None;
            },
        };
        i += 1;
    }
    proof {
        assert(text.take(to - from) =~= text);
    }
    Some(n)
}

/// Dropping digits at the end never makes a decimal number greater.
proof fn prefix_is_no_greater(s: Seq<char>, i: int)
    requires
        0 <= i <= s.len(),
    ensures
        value(s.take(i), 10) <= value(s, 10),
    decreases s.len() - i,
{
    if i < s.len() {
        prefix_is_no_greater(s, i + 1);
        assert(s.take(i + 1).drop_last() =~= s.take(i));
    } else {
        assert(s.take(i) =~= s);
    }
}

/// The byte of the digit `d`.
fn digit_byte(d: u8, upper: bool) -> (b: u8)
    requires
        d < 16,
    ensures
        b as char == digit_char(d as int, upper),
        b < 128,
{
    if d < 10 {
        48 + d
    } else if upper {
        65 + (d - 10)
    } else {
        97 + (d - 10)
    }
}

/// Writes the numeral of `n` right-aligned into `scratch` and returns where it starts.
pub(crate) fn write_numeral(n: u128, base: u8, upper: bool, scratch: &mut [u8; 128]) -> (start: usize)
    requires
        2 <= base <= 16,
    ensures
        start < 128,
        latin(final(scratch)@.skip(start as int)) == numeral(n as nat, base as nat, upper),
        forall|i: int| start <= i < 128 ==> #[trigger] final(scratch)@[i] < 128,
{
    let wide: u128 = base as u128;
    let mut rest: u128 = n;
    let mut start: usize = 128;
    proof {
        lemma2_to64();
        lemma_pow2_adds(64, 64);
        assert(pow2(128) == 0x1_0000_0000_0000_0000 * 0x1_0000_0000_0000_0000);
        assert(latin(scratch@.skip(128)) =~= Seq::<char>::empty());
    }
    while rest >= wide
        invariant
            2 <= base <= 16,
            wide == base,
            1 <= start <= 128,
            rest < pow2(start as nat),
            numeral(n as nat, base as nat, upper) == numeral(rest as nat, base as nat, upper)
                + latin(scratch@.skip(start as int)),
            forall|i: int| start <= i < 128 ==> #[trigger] scratch@[i] < 128,
        decreases rest,
    {
        let ghost before = scratch@;
        let ghost was = rest as nat;
        let d: u128 = rest % wide;
        proof {
            lemma_pow2_unfold(start as nat);
            assert(0 < was / (base as nat) < was && (was / (base as nat)) * 2 <= was)
                by (nonlinear_arith)
                requires
                    was >= base as nat,
                    base >= 2,
            ;
            lemma2_to64();
        }
        start -= 1;
        scratch[start] = digit_byte(d as u8, upper);
        rest = rest / wide;
        proof {
            assert(latin(scratch@.skip(start as int)) =~= seq![
                digit_char(d as int, upper),
            ] + latin(before.skip(start + 1)));
            assert(numeral(n as nat, base as nat, upper) =~= numeral(
                rest as nat,
                base as nat,
                upper,
            ) + latin(scratch@.skip(start as int)));
        }
    }
    let ghost before = scratch@;
    start -= 1;
    scratch[start] = digit_byte(rest as u8, upper);
    proof {
        assert(latin(scratch@.skip(start as int)) =~= seq![
            digit_char(rest as int, upper),
        ] + latin(before.skip(start + 1)));
        assert(numeral(n as nat, base as nat, upper) =~= latin(scratch@.skip(start as int)));
    }
    start
}

/// The numeral of `n` as a string.
pub(crate) fn render_numeral(n: u128, base: u8, upper: bool) -> (s: String)
    requires
        2 <= base <= 16,
    ensures
        s@ == numeral(n as nat, base as nat, upper),
{
    let mut scratch: [u8; 128] = [0u8; 128];
    let start: usize = write_numeral(n, base, upper, &mut scratch);
    let mut s = String::new();
    let mut i: usize = start;
    let ghost text = numeral(n as nat, base as nat, upper);
    while i < 128
        invariant
            start <= i <= 128,
            latin(scratch@.skip(start as int)) == text,
            s@ == text.take(i - start),
        decreases 128 - i,
    {
        s.push(scratch[i] as char);
        proof {
            assert(text.take(i + 1 - start) =~= text.take(i - start).push(text[i - start]));
            assert(scratch@.skip(start as int)[i - start] == scratch@[i as int]);
        }
        i += 1;
    }
    proof {
        assert(text.take(128 - start) =~= text);
    }
    s
}

} // verus!
