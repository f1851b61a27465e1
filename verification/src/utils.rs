//! Octal mode strings.

use vstd::prelude::*;
use vstd::string::StrSliceExecFns;

verus! {

/// The code of `+`.
const ASCII_PLUS: u8 = 43;

/// The code of `0`.
const ASCII_ZERO: u8 = 48;

/// The code of `7`.
const ASCII_SEVEN: u8 = 55;

/// The characters `0` to `7`.
pub open spec fn is_octal_digit(c: char) -> bool {
    '0' <= c <= '7'
}

/// The number that an octal digit stands for.
pub open spec fn octal_digit_value(c: char) -> nat {
    (c as int - '0' as int) as nat
}

/// Every character of `digits` is an octal digit.
pub open spec fn all_octal_digits(digits: Seq<char>) -> bool {
    forall|i: int| 0 <= i < digits.len() ==> is_octal_digit(#[trigger] digits[i])
}

/// The number that a sequence of octal digits denotes, most significant digit
/// first. The empty sequence denotes 0.
pub open spec fn octal_value(digits: Seq<char>) -> nat
    decreases digits.len(),
{
    if digits.len() == 0 {
        0
    } else {
        8 * octal_value(digits.drop_last()) + octal_digit_value(digits.last())
    }
}

/// The input without the one `+` that may lead it.
pub open spec fn strip_plus(s: Seq<char>) -> Seq<char> {
    if s.len() > 0 && s[0] == '+' {
        s.subrange(1, s.len() as int)
    } else {
        s
    }
}

/// What `parse_octal` returns: the value of the digits if, after an optional
/// leading `+`, the input is one or more octal digits whose value fits in 32
/// bits, and nothing otherwise.
pub open spec fn parse_octal_spec(s: Seq<char>) -> Option<u32> {
    let digits = strip_plus(s);
    if digits.len() > 0 && all_octal_digits(digits) && octal_value(digits) <= u32::MAX {
        Some(octal_value(digits) as u32)
    } else {
        None
    }
}

/// A prefix of a digit sequence never denotes more than the whole sequence.
proof fn lemma_octal_value_prefix(digits: Seq<char>, k: int)
    requires
        0 <= k <= digits.len(),
    ensures
        octal_value(digits.take(k)) <= octal_value(digits),
    decreases digits.len() - k,
{
    if k == digits.len() {
        assert(digits.take(k) =~= digits);
    } else {
        lemma_octal_value_prefix(digits.drop_last(), k);
        assert(digits.drop_last().take(k) =~= digits.take(k));
    }
}

/// The octal digit that stands for a number below eight.
pub open spec fn octal_digit(d: nat) -> char {
    if d == 0 {
        '0'
    } else if d == 1 {
        '1'
    } else if d == 2 {
        '2'
    } else if d == 3 {
        '3'
    } else if d == 4 {
        '4'
    } else if d == 5 {
        '5'
    } else if d == 6 {
        '6'
    } else {
        '7'
    }
}

/// A number written in octal, most significant digit first, without leading
/// zeros. Zero is written as the one digit `0`.
pub open spec fn octal_digits(n: nat) -> Seq<char>
    decreases n,
{
    if n < 8 {
        seq![octal_digit(n)]
    } else {
        octal_digits(n / 8).push(octal_digit(n % 8))
    }
}

/// What is written for a number is one or more octal digits, and they denote
/// that number.
pub proof fn lemma_octal_digits_denote(n: nat)
    ensures
        octal_digits(n).len() > 0,
        all_octal_digits(octal_digits(n)),
        octal_value(octal_digits(n)) == n,
    decreases n,
{
    let digits = octal_digits(n);
    if n < 8 {
        assert(digits.drop_last() =~= Seq::<char>::empty());
        assert(octal_value(digits.drop_last()) == 0);
        assert(digits.last() == octal_digit(n));
    } else {
        let front = octal_digits(n / 8);
        lemma_octal_digits_denote(n / 8);
        assert(digits.drop_last() =~= front);
        assert(digits.last() == octal_digit(n % 8));
        assert forall|i: int| 0 <= i < digits.len() implies is_octal_digit(#[trigger] digits[i]) by {
            if i < front.len() {
                assert(digits[i] == front[i]);
            }
        }
    }
}

/// Parsing is total on octal digits: one or more of them, denoting a number
/// that fits in 32 bits, parse to that number.
pub proof fn lemma_parse_octal_total(digits: Seq<char>)
    requires
        digits.len() > 0,
        all_octal_digits(digits),
        octal_value(digits) <= u32::MAX,
    ensures
        parse_octal_spec(digits) == Some(octal_value(digits) as u32),
{
    assert(is_octal_digit(digits[0]));
}

/// Writing a number in octal and parsing what was written gives the number
/// back.
pub proof fn lemma_parse_octal_round_trip(n: u32)
    ensures
        parse_octal_spec(octal_digits(n as nat)) == Some(n),
{
    lemma_octal_digits_denote(n as nat);
    lemma_parse_octal_total(octal_digits(n as nat));
}

/// A zero in front of a number changes nothing: `0664` denotes what `664`
/// denotes.
pub proof fn lemma_octal_value_leading_zero(digits: Seq<char>)
    ensures
        octal_value(seq!['0'] + digits) == octal_value(digits),
    decreases digits.len(),
{
    let longer = seq!['0'] + digits;
    if digits.len() == 0 {
        assert(longer.drop_last() =~= Seq::<char>::empty());
        assert(octal_value(longer.drop_last()) == 0);
    } else {
        lemma_octal_value_leading_zero(digits.drop_last());
        assert(longer.drop_last() =~= seq!['0'] + digits.drop_last());
        assert(longer.last() == digits.last());
    }
}

/// Parses an octal number such as `0664`: an optional `+`, then octal digits.
/// Anything else, and a number that does not fit in 32 bits, gives `None`.
pub fn parse_octal(s: &str) -> (r: Option<u32>)
    ensures
        r == parse_octal_spec(s@),
        s@.len() > 0 && all_octal_digits(s@) && octal_value(s@) <= u32::MAX ==> r == Some(
            octal_value(s@) as u32,
        ),
{
    proof {
        if s@.len() > 0 && all_octal_digits(s@) && octal_value(s@) <= u32::MAX {
            lemma_parse_octal_total(s@);
        }
    }
    if !s.is_ascii() {
        proof {
            let i = choose|i: int| 0 <= i < s@.len() && !('\0' <= #[trigger] s@[i] <= '\u{7f}');
            let digits = strip_plus(s@);
            if digits.len() == s@.len() {
                assert(!is_octal_digit(digits[i]));
            } else {
                assert(i >= 1);
                assert(!is_octal_digit(digits[i - 1]));
            }
        }
        return None;
    }
    let n: usize = s.unicode_len();
    let start: usize = if n > 0 && s.get_ascii(0) == ASCII_PLUS {
        1
    } else {
        0
    };
    let ghost digits = strip_plus(s@);
    assert(digits =~= s@.subrange(start as int, n as int));
    if start == n {
        return None;
    }
    let mut value: u32 = 0;
    let mut i: usize = start;
    while i < n
        invariant
            s.is_ascii(),
            n == s@.len(),
            start <= i <= n,
            digits == strip_plus(s@),
            digits == s@.subrange(start as int, n as int),
            all_octal_digits(digits.take(i - start)),
            value == octal_value(digits.take(i - start)),
        decreases n - i,
    {
        let b: u8 = s.get_ascii(i);
        let ghost c = digits[i - start];
        assert(c == s@[i as int]);
        if b < ASCII_ZERO || b > ASCII_SEVEN {
            assert(!is_octal_digit(c));
            return None;
        }
        assert(is_octal_digit(c));
        let next: u64 = value as u64 * 8 + (b - ASCII_ZERO) as u64;
        proof {
            let longer = digits.take(i - start + 1);
            assert(longer.drop_last() =~= digits.take(i - start));
            assert(longer.last() == c);
            assert(octal_value(longer) == next);
            lemma_octal_value_prefix(digits, i - start + 1);
            assert forall|j: int| 0 <= j < longer.len() implies is_octal_digit(
                #[trigger] longer[j],
            ) by {
                if j < i - start {
                    assert(longer[j] == digits.take(i - start)[j]);
                }
            }
        }
        if next > u32::MAX as u64 {
            return None;
        }
        value = next as u32;
        i = i + 1;
    }
    assert(digits.take(i - start) =~= digits);
    Some(value)
}

} // verus!
