//! Whole numbers in decimal notation.
//!
//! A number is written as an optional sign, `-` or `+`, and one or more of
//! the digits `0` to `9`. Zeros in front are accepted when a number is read
//! and never written.

use vstd::prelude::*;

verus! {

/// Whether `c` is one of the digits `0` to `9`.
pub open spec fn is_digit(c: char) -> bool {
    '0' <= c <= '9'
}

/// The value of the digit `c`.
pub open spec fn digit_value(c: char) -> int {
    c as int - '0' as int
}

/// The digit that stands for `d`, for `d` from 0 to 9.
pub open spec fn digit_char(d: int) -> char {
    if d == 0 {
        '0'
    } else if d == 1 {
        '1'
    } else if d == 2 {
        '2'
    } else if d == 3 {
        '3'
    } else if d == 4 {
        '4'
    } else if d == 5 {
        '5'
    } else if d == 6 {
        '6'
    } else if d == 7 {
        '7'
    } else if d == 8 {
        '8'
    } else {
        '9'
    }
}

/// Whether `s` holds digits only.
pub open spec fn all_digits(s: Seq<char>) -> bool {
    forall|i: int| 0 <= i < s.len() ==> is_digit(#[trigger] s[i])
}

/// The number that the digits `s` spell, read from the left.
pub open spec fn digits_value(s: Seq<char>) -> int
    decreases s.len(),
{
    if s.len() == 0 {
        0
    } else {
        digits_value(s.drop_last()) * 10 + digit_value(s.last())
    }
}

/// The number that `s` spells: a sign, if any, and at least one digit.
/// `None` where `s` is not of that form.
pub open spec fn number_of(s: Seq<char>) -> Option<int> {
    if s.len() > 0 && (s[0] == '-' || s[0] == '+') {
        let digits: Seq<char> = s.skip(1);
        if digits.len() > 0 && all_digits(digits) {
            if s[0] == '-' {
                Some(-digits_value(digits))
            } else {
                Some(digits_value(digits))
            }
        } else {
            None
        }
    } else if s.len() > 0 && all_digits(s) {
        Some(digits_value(s))
    } else {
        None
    }
}

/// The number that `s` spells, where it is one that fits 32 bits.
pub open spec fn i32_of(s: Seq<char>) -> Option<i32> {
    match number_of(s) {
        Some(v) => if i32::MIN <= v <= i32::MAX {
            Some(v as i32)
        } else {
            None
        },
        None => None,
    }
}

/// The digits of `n`, without zeros in front.
pub open spec fn digits_of(n: nat) -> Seq<char>
    decreases n,
{
    if n < 10 {
        seq![digit_char(n as int)]
    } else {
        digits_of(n / 10) + seq![digit_char((n % 10) as int)]
    }
}

/// How `v` is written: `-` and the digits of its size where it is negative,
/// its digits alone where it is not.
pub open spec fn number_text(v: int) -> Seq<char> {
    if v < 0 {
        seq!['-'] + digits_of((-v) as nat)
    } else {
        digits_of(v as nat)
    }
}

/// The digits of a number spell a number at least as large as any of their
/// prefixes does.
pub proof fn lemma_prefix_value(s: Seq<char>, n: int)
    requires
        all_digits(s),
        0 <= n <= s.len(),
    ensures
        0 <= digits_value(s.take(n)) <= digits_value(s),
    decreases s.len(),
{
    if s.len() == 0 {
    } else if n == s.len() {
        assert(s.take(n) =~= s);
        lemma_prefix_value(s.drop_last(), n - 1);
    } else {
        lemma_prefix_value(s.drop_last(), n);
        assert(s.drop_last().take(n) =~= s.take(n));
    }
}

/// What [`digits_of`] writes holds digits only, at least one, and spells the
/// number it was written for.
pub proof fn lemma_digits_of(n: nat)
    ensures
        digits_of(n).len() > 0,
        all_digits(digits_of(n)),
        digits_value(digits_of(n)) == n,
    decreases n,
{
    if n < 10 {
        let s: Seq<char> = digits_of(n);
        assert(digits_value(s.drop_last()) == 0);
    } else {
        lemma_digits_of(n / 10);
        let s: Seq<char> = digits_of(n);
        assert(s.drop_last() =~= digits_of(n / 10));
    }
}

/// A number that was written is read back as itself. What was written is
/// not empty and holds nothing but digits and, at most, a `-` in front.
pub proof fn lemma_number_text(v: int)
    ensures
        number_of(number_text(v)) == Some(v),
        number_text(v).len() > 0,
        forall|i: int|
            0 <= i < number_text(v).len() ==> {
                let c: char = #[trigger] number_text(v)[i];
                is_digit(c) || c == '-'
            },
{
    if v < 0 {
        let n: nat = (-v) as nat;
        lemma_digits_of(n);
        let s: Seq<char> = number_text(v);
        assert(s.skip(1) =~= digits_of(n));
    } else {
        lemma_digits_of(v as nat);
    }
}

/// Reads a number that fits 32 bits.
#[verifier::loop_isolation(false)]
pub fn parse_i32(chars: &Vec<char>) -> (value: Option<i32>)
    ensures
        value == i32_of(chars@),
{
    let n: usize = chars.len();
    if n == 0 {
        return None;
    }
    let signed: bool = chars[0] == '-' || chars[0] == '+';
    let negative: bool = chars[0] == '-';
    let first: usize = if signed {
        1
    } else {
        0
    };
    if first == n {
        return None;
    }
    let ghost digits: Seq<char> = chars@.skip(first as int);
    assert(!signed ==> digits =~= chars@);
    let mut size: i64 = 0;
    let mut i: usize = first;
    while i < n
        invariant
            first <= i <= n,
            n == chars.len(),
            digits == chars@.skip(first as int),
            all_digits(digits.take(i - first)),
            size == digits_value(digits.take(i - first)),
            0 <= size <= 0x8000_0000,
        decreases n - i,
    {
        let c: char = chars[i];
        assert(digits[i - first] == c);
        if !('0' <= c && c <= '9') {
            return None;
        }
        assert(digits.take(i - first + 1).drop_last() =~= digits.take(i - first));
        size = size * 10 + (c as i64 - '0' as i64);
        if size > 0x8000_0000 {
            proof {
                if all_digits(digits) {
                    lemma_prefix_value(digits, i - first + 1);
                }
            }
            return None;
        }
        i += 1;
    }
    assert(digits.take(n - first) =~= digits);
    if negative {
        Some((-size) as i32)
    } else if size > 0x7fff_ffff {
        None
    } else {
        Some(size as i32)
    }
}

/// Appends the digit for `d` to `out`.
fn push_digit(out: &mut String, d: u32)
    requires
        d < 10,
    ensures
        final(out)@ == old(out)@ + seq![digit_char(d as int)],
{
    proof {
        reveal_strlit("0");
        reveal_strlit("1");
        reveal_strlit("2");
        reveal_strlit("3");
        reveal_strlit("4");
        reveal_strlit("5");
        reveal_strlit("6");
        reveal_strlit("7");
        reveal_strlit("8");
        reveal_strlit("9");
    }
    let digit: &str = if d == 0 {
        "0"
    } else if d == 1 {
        "1"
    } else if d == 2 {
        "2"
    } else if d == 3 {
        "3"
    } else if d == 4 {
        "4"
    } else if d == 5 {
        "5"
    } else if d == 6 {
        "6"
    } else if d == 7 {
        "7"
    } else if d == 8 {
        "8"
    } else {
        "9"
    };
    out.append(digit);
}

/// Appends the digits of `n` to `out`.
pub fn push_digits(out: &mut String, n: u32)
    ensures
        final(out)@ == old(out)@ + digits_of(n as nat),
    decreases n,
{
    if n >= 10 {
        push_digits(out, n / 10);
    }
    push_digit(out, n % 10);
}

/// Appends `v`, as [`number_text`] writes it, to `out`.
pub fn push_number(out: &mut String, v: i32)
    ensures
        final(out)@ == old(out)@ + number_text(v as int),
{
    if v < 0 {
        proof {
            reveal_strlit("-");
        }
        out.append("-");
        let size: u32 = (-(v as i64)) as u32;
        push_digits(out, size);
    } else {
        push_digits(out, v as u32);
    }
}

} // verus!
