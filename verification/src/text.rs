//! Small text routines: comparing strings, writing numbers and reading
//! them.

use vstd::prelude::*;
use vstd::string::*;
use vstd::utf8::*;

verus! {

/// Whether two strings hold the same characters.
pub fn same_text(a: &str, b: &str) -> (same: bool)
    ensures
        same == (a@ == b@),
{
    let x = a.as_bytes();
    let y = b.as_bytes();
    proof {
        encode_utf8_decode_utf8(a@);
        encode_utf8_decode_utf8(b@);
    }
    if x.len() != y.len() {
        return false;
    }
    let mut i: usize = 0;
    while i < x.len()
        invariant
            i <= x.len(),
            x.len() == y.len(),
            x@ == encode_utf8(a@),
            y@ == encode_utf8(b@),
            forall|j: int| 0 <= j < i ==> x@[j] == y@[j],
        decreases x.len() - i,
    {
        if x[i] != y[i] {
            return false;
        }
        i += 1;
    }
    proof {
        assert(x@ =~= y@);
    }
    true
}

/// The character that stands for a digit below sixteen, in upper case.
pub open spec fn digit_char(digit: nat) -> char {
    if digit == 0 {
        '0'
    } else if digit == 1 {
        '1'
    } else if digit == 2 {
        '2'
    } else if digit == 3 {
        '3'
    } else if digit == 4 {
        '4'
    } else if digit == 5 {
        '5'
    } else if digit == 6 {
        '6'
    } else if digit == 7 {
        '7'
    } else if digit == 8 {
        '8'
    } else if digit == 9 {
        '9'
    } else if digit == 10 {
        'A'
    } else if digit == 11 {
        'B'
    } else if digit == 12 {
        'C'
    } else if digit == 13 {
        'D'
    } else if digit == 14 {
        'E'
    } else {
        'F'
    }
}

/// Dividing a number by a base of two or more makes it smaller, unless
/// it is below the base already.
pub proof fn lemma_quotient_is_smaller(n: nat, base: nat)
    by (nonlinear_arith)
    requires
        2 <= base <= n,
    ensures
        n / base < n,
{
}

/// The digits of `n` in base `base`, most significant first, without
/// leading zeros; a single zero for zero.
pub open spec fn digits_text(n: nat, base: nat) -> Seq<char>
    recommends
        2 <= base <= 16,
    decreases n,
{
    if base < 2 || n < base {
        seq![digit_char(n)]
    } else {
        proof {
            lemma_quotient_is_smaller(n, base);
        }
        digits_text(n / base, base) + seq![digit_char(n % base)]
    }
}

/// `n` written in decimal.
pub open spec fn decimal_text(n: nat) -> Seq<char> {
    digits_text(n, 10)
}

/// `n` written in hexadecimal with upper-case letters.
pub open spec fn hex_upper_text(n: nat) -> Seq<char> {
    digits_text(n, 16)
}

fn digit_str(digit: u32) -> (text: &'static str)
    requires
        digit < 16,
    ensures
        text@ == seq![digit_char(digit as nat)],
{
    proof {
        reveal_strlit("0");
        reveal_strlit("1");
        reveal_strlit("2");
        reveal_strlit("3");
        reveal_strlit("4");
        reveal_strlit("5");
        reveal_strlit("6");
        reveal_strlit("7");
        reveal_strlit("8");
        reveal_strlit("9");
        reveal_strlit("A");
        reveal_strlit("B");
        reveal_strlit("C");
        reveal_strlit("D");
        reveal_strlit("E");
        reveal_strlit("F");
    }
    let text = if digit == 0 {
        "0"
    } else if digit == 1 {
        "1"
    } else if digit == 2 {
        "2"
    } else if digit == 3 {
        "3"
    } else if digit == 4 {
        "4"
    } else if digit == 5 {
        "5"
    } else if digit == 6 {
        "6"
    } else if digit == 7 {
        "7"
    } else if digit == 8 {
        "8"
    } else if digit == 9 {
        "9"
    } else if digit == 10 {
        "A"
    } else if digit == 11 {
        "B"
    } else if digit == 12 {
        "C"
    } else if digit == 13 {
        "D"
    } else if digit == 14 {
        "E"
    } else {
        "F"
    };
    assert(text@ =~= seq![digit_char(digit as nat)]);
    text
}

fn push_digits(out: &mut String, n: u32, base: u32)
    requires
        2 <= base <= 16,
    ensures
        final(out)@ == old(out)@ + digits_text(n as nat, base as nat),
    decreases n,
{
    if n >= base {
        proof {
            lemma_quotient_is_smaller(n as nat, base as nat);
        }
        push_digits(out, n / base, base);
    }
    let ghost before = out@;
    out.append(digit_str(n % base));
    proof {
        let last = seq![digit_char((n % base) as nat)];
        assert((n / base) as nat == (n as nat) / (base as nat));
        assert((n % base) as nat == (n as nat) % (base as nat));
        if n >= base {
            assert(before == old(out)@ + digits_text((n / base) as nat, base as nat));
            assert(digits_text(n as nat, base as nat) == digits_text(
                (n / base) as nat,
                base as nat,
            ) + last);
        } else {
            vstd::arithmetic::div_mod::lemma_small_mod(n as nat, base as nat);
            assert(digits_text(n as nat, base as nat) == last);
        }
        assert(out@ =~= old(out)@ + digits_text(n as nat, base as nat));
    }
}

/// Appends `n`, written in decimal, to `out`.
pub fn push_decimal(out: &mut String, n: u32)
    ensures
        final(out)@ == old(out)@ + decimal_text(n as nat),
{
    push_digits(out, n, 10);
}

/// Appends `n`, written in hexadecimal with upper-case letters, to `out`.
pub fn push_hex_upper(out: &mut String, n: u32)
    ensures
        final(out)@ == old(out)@ + hex_upper_text(n as nat),
{
    push_digits(out, n, 16);
}

/// Whether the character is a decimal digit.
pub open spec fn is_decimal_digit(c: char) -> bool {
    '0' <= c <= '9'
}

/// The value of a decimal digit.
pub open spec fn decimal_digit_value(c: char) -> nat {
    (c as nat - '0' as nat) as nat
}

/// Whether the text is made of decimal digits alone.
pub open spec fn all_decimal_digits(text: Seq<char>) -> bool {
    forall|i: int| 0 <= i < text.len() ==> is_decimal_digit(#[trigger] text[i])
}

/// The number that a text of decimal digits stands for.
pub open spec fn decimal_value(text: Seq<char>) -> nat
    decreases text.len(),
{
    if text.len() == 0 {
        0
    } else {
        decimal_value(text.drop_last()) * 10 + decimal_digit_value(text.last())
    }
}

/// The text without a plus sign at its start.
pub open spec fn without_plus_sign(text: Seq<char>) -> Seq<char> {
    if text.len() > 0 && text[0] == '+' {
        text.drop_first()
    } else {
        text
    }
}

/// The number that a text stands for: an optional plus sign, then one or
/// more decimal digits, nothing else, and a value that fits in 32 bits.
pub open spec fn parsed_u32(text: Seq<char>) -> Option<u32> {
    let digits = without_plus_sign(text);
    if digits.len() > 0 && all_decimal_digits(digits) && decimal_value(digits) <= u32::MAX {
        Some(decimal_value(digits) as u32)
    } else {
        None
    }
}

/// A longer text of digits stands for a number that is no smaller than the
/// number its beginning stands for.
pub proof fn lemma_decimal_value_grows(text: Seq<char>, n: int)
    requires
        0 <= n <= text.len(),
    ensures
        decimal_value(text.take(n)) <= decimal_value(text),
    decreases text.len(),
{
    if n == text.len() {
        assert(text.take(n) =~= text);
    } else {
        assert(text.drop_last().take(n) =~= text.take(n));
        lemma_decimal_value_grows(text.drop_last(), n);
    }
}

/// Reads an unsigned number of 32 bits from a text.
pub fn parse_u32(text: &str) -> (number: Option<u32>)
    ensures
        number == parsed_u32(text@),
{
    if !text.is_ascii() {
        proof {
            let digits = without_plus_sign(text@);
            let i = choose|i: int|
                0 <= i < text@.len() && !('\0' <= #[trigger] text@[i] && text@[i] <= '\u{7f}');
            if text@[0] == '+' {
                assert(digits[i - 1] == text@[i]);
            } else {
                assert(digits[i] == text@[i]);
            }
        }
        return None;
    }
    let bytes = text.as_bytes();
    proof {
        is_ascii_chars_encode_utf8(text@);
    }
    let len: usize = bytes.len();
    let start: usize = if len > 0 && bytes[0] == 43u8 {
        1
    } else {
        0
    };
    let ghost digits = without_plus_sign(text@);
    proof {
        assert(text@.len() > 0 ==> (text@[0] == '+' <==> bytes@[0] == 43u8));
        assert(digits =~= text@.subrange(start as int, len as int));
    }
    if start == len {
        return None;
    }
    let mut value: u32 = 0;
    let mut i: usize = start;
    while i < len
        invariant
            start <= i <= len,
            len == text@.len(),
            len == bytes@.len(),
            is_ascii_chars(text@),
            forall|j: int| 0 <= j < len ==> text@[j] as u8 == #[trigger] bytes@[j],
            digits == text@.subrange(start as int, len as int),
            digits == without_plus_sign(text@),
            all_decimal_digits(digits.take(i - start)),
            value == decimal_value(digits.take(i - start)),
        decreases len - i,
    {
        let byte: u8 = bytes[i];
        let ghost c = text@[i as int];
        proof {
            assert(c == digits[i - start]);
            assert(c as u8 == byte);
            assert('\0' <= c <= '\u{7f}');
            assert(digits.take(i - start + 1).drop_last() =~= digits.take(i - start));
            assert(digits.take(i - start + 1).last() == c);
        }
        if byte < 48u8 || byte > 57u8 {
            proof {
                assert(!is_decimal_digit(c));
            }
            return None;
        }
        let digit: u32 = (byte - 48u8) as u32;
        proof {
            assert(is_decimal_digit(c));
            assert(digit == decimal_digit_value(c));
            lemma_decimal_value_grows(digits, i - start + 1);
        }
        if value > (u32::MAX - digit) / 10 {
            return None;
        }
        value = value * 10 + digit;
        i += 1;
    }
    proof {
        assert(digits.take(i - start) =~= digits);
    }
    Some(value)
}

/// A number that is written in decimal is made of digits alone and stands
/// for itself.
pub proof fn lemma_decimal_text_is_digits(n: nat)
    ensures
        decimal_text(n).len() > 0,
        all_decimal_digits(decimal_text(n)),
        decimal_value(decimal_text(n)) == n,
    decreases n,
{
    let text = decimal_text(n);
    if n < 10 {
        assert(text =~= seq![digit_char(n)]);
        assert(text.drop_last() =~= Seq::<char>::empty());
        assert(decimal_value(text.drop_last()) == 0);
        assert(decimal_digit_value(digit_char(n)) == n);
    } else {
        lemma_quotient_is_smaller(n, 10);
        lemma_decimal_text_is_digits(n / 10);
        let front = decimal_text(n / 10);
        let last = digit_char(n % 10);
        assert(text == front + seq![last]);
        assert(text.drop_last() =~= front);
        assert(text.last() == last);
        assert(decimal_digit_value(last) == n % 10);
        assert(is_decimal_digit(last));
        assert forall|i: int| 0 <= i < text.len() implies is_decimal_digit(#[trigger] text[i]) by {
            if i < front.len() {
                assert(text[i] == front[i]);
            }
        }
    }
}

/// Reading a number that was written in decimal gives the number back.
pub proof fn lemma_written_number_reads_back(n: u32)
    ensures
        parsed_u32(decimal_text(n as nat)) == Some(n),
{
    lemma_decimal_text_is_digits(n as nat);
    let text = decimal_text(n as nat);
    assert(is_decimal_digit(text[0]));
    assert(without_plus_sign(text) == text);
}

} // verus!
