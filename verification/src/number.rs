//! Decimal and hexadecimal notation.

use crate::text::chars_of;
use vstd::prelude::*;

verus! {

/// Whether `c` is an ASCII digit.
pub open spec fn is_digit(c: char) -> bool {
    '0' <= c <= '9'
}

/// Whether every character of `s` is an ASCII digit.
pub open spec fn all_digits(s: Seq<char>) -> bool {
    forall|i: int| 0 <= i < s.len() ==> is_digit(#[trigger] s[i])
}

/// The number that a sequence of digits denotes.
pub open spec fn digits_value(s: Seq<char>) -> nat
    decreases s.len(),
{
    if s.len() == 0 {
        0
    } else {
        digits_value(s.drop_last()) * 10 + ((s.last() as u32) - ('0' as u32)) as nat
    }
}

/// The digits of a number text: what follows an optional plus sign.
pub open spec fn number_digits(s: Seq<char>) -> Seq<char> {
    if s.len() > 0 && s[0] == '+' {
        s.subrange(1, s.len() as int)
    } else {
        s
    }
}

/// The unsigned number that `s` denotes: an optional plus sign and at least one
/// digit, and a value of at most `max`.
pub open spec fn number_of(s: Seq<char>, max: nat) -> Option<nat> {
    let digits = number_digits(s);
    if digits.len() > 0 && all_digits(digits) && digits_value(digits) <= max {
        Some(digits_value(digits))
    } else {
        None
    }
}

/// The decimal digit of a number below ten.
pub open spec fn digit_char(d: nat) -> char {
    (('0' as u32) + d) as char
}

/// The decimal notation of `n`.
pub open spec fn decimal(n: nat) -> Seq<char>
    decreases n,
{
    if n < 10 {
        seq![digit_char(n)]
    } else {
        decimal(n / 10).push(digit_char(n % 10))
    }
}

/// The value of a digit.
fn digit_value(c: char) -> (d: u64)
    requires
        is_digit(c),
    ensures
        d == (c as u32) - ('0' as u32),
{
    (c as u32 - '0' as u32) as u64
}

proof fn lemma_digits_value_grows(s: Seq<char>, n: int)
    requires
        0 <= n <= s.len(),
        all_digits(s),
    ensures
        digits_value(s.take(n)) <= digits_value(s),
    decreases s.len() - n,
{
    if n == s.len() {
        assert(s.take(n) =~= s);
    } else {
        lemma_digits_value_grows(s, n + 1);
        assert(s.take(n + 1).drop_last() =~= s.take(n));
        assert(is_digit(s[n]));
    }
}

/// The unsigned number of at most `max` that `s` denotes.
pub fn parse_number(s: &str, max: u64) -> (number: Option<u64>)
    ensures
        match number {
            Some(n) => number_of(s@, max as nat) == Some(n as nat),
            None => number_of(s@, max as nat) is None,
        },
{
    let chars = chars_of(s);
    let start: usize = if chars.len() > 0 && chars[0] == '+' {
        1
    } else {
        0
    };
    let ghost digits = number_digits(s@);
    assert(digits =~= chars@.subrange(start as int, chars@.len() as int));
    if start == chars.len() {
        return None;
    }
    let mut value: u64 = 0;
    let mut i: usize = start;
    while i < chars.len()
        invariant
            start <= i <= chars@.len(),
            digits == chars@.subrange(start as int, chars@.len() as int),
            all_digits(digits.take(i - start)),
            value == digits_value(digits.take(i - start)),
            value <= max,
            digits == number_digits(s@),
        decreases chars@.len() - i,
    {
        let c = chars[i];
        assert(c == digits[i - start]);
        if !('0' <= c && c <= '9') {
            assert(!is_digit(digits[i - start]));
            return None;
        }
        assert(digits.take(i - start + 1).drop_last() =~= digits.take(i - start));
        assert(digits.take(i - start + 1).last() == c);
        let d = digit_value(c);
        if value > max / 10 || d > max || value * 10 > max - d {
            proof {
                if all_digits(digits) {
                    lemma_digits_value_grows(digits, i - start + 1);
                }
            }
            return None;
        }
        value = value * 10 + d;
        i += 1;
        assert forall|k: int| 0 <= k < digits.take(i - start).len() implies is_digit(
            #[trigger] digits.take(i - start)[k],
        ) by {
            if k < i - start - 1 {
                assert(digits.take(i - start - 1)[k] == digits[k]);
            }
        }
    }
    assert(digits.take(i - start) =~= digits);
    Some(value)
}

/// The decimal digit of a number below ten.
fn digit_of(d: u64) -> (c: char)
    requires
        d < 10,
    ensures
        c == digit_char(d as nat),
{
    match d {
        0 => '0',
        1 => '1',
        2 => '2',
        3 => '3',
        4 => '4',
        5 => '5',
        6 => '6',
        7 => '7',
        8 => '8',
        _ => '9',
    }
}

/// The decimal notation of `n`.
pub fn to_decimal(n: u64) -> (s: String)
    ensures
        s@ == decimal(n as nat),
    decreases n,
{
    if n < 10 {
        let mut s = String::new();
        s.push(digit_of(n));
        assert(s@ =~= seq![digit_char(n as nat)]);
        s
    } else {
        let mut s = to_decimal(n / 10);
        s.push(digit_of(n % 10));
        s
    }
}

/// The decimal notation of an integer.
pub open spec fn signed_decimal(n: int) -> Seq<char> {
    if n < 0 {
        seq!['-'] + decimal((-n) as nat)
    } else {
        decimal(n as nat)
    }
}

/// The decimal notation of `n`.
pub fn to_signed_decimal(n: i32) -> (s: String)
    ensures
        s@ == signed_decimal(n as int),
{
    if n < 0 {
        let mut s = String::new();
        s.push('-');
        let digits = to_decimal((-(n as i64)) as u64);
        assert(s@ =~= seq!['-']);
        s.append(digits.as_str());
        s
    } else {
        to_decimal(n as u64)
    }
}

/// What is wrong with a text that was to be an unsigned number.
#[derive(Debug, Clone, Copy, PartialEq, Eq, Structural)]
pub enum NumberFault {
    Empty,
    NotDigit,
    TooLarge,
}

/// The first thing wrong with the digits of `s` from position `i` on, after
/// digits of the given value.
pub open spec fn digits_fault(s: Seq<char>, i: int, value: nat, max: nat) -> Option<NumberFault>
    decreases s.len() - i,
{
    if i < 0 || i >= s.len() {
        None
    } else if !is_digit(s[i]) {
        Some(NumberFault::NotDigit)
    } else {
        let next = value * 10 + ((s[i] as u32) - ('0' as u32)) as nat;
        if next > max {
            Some(NumberFault::TooLarge)
        } else {
            digits_fault(s, i + 1, next, max)
        }
    }
}

/// What is wrong with `s` as an unsigned number of at most `max`, read from the
/// left.
pub open spec fn number_fault(s: Seq<char>, max: nat) -> Option<NumberFault> {
    if s.len() == 0 {
        Some(NumberFault::Empty)
    } else if number_digits(s).len() == 0 {
        Some(NumberFault::NotDigit)
    } else {
        digits_fault(number_digits(s), 0, 0, max)
    }
}

/// A fault in words.
pub open spec fn fault_words(fault: NumberFault) -> Seq<char> {
    match fault {
        NumberFault::Empty => "cannot parse integer from empty string"@,
        NumberFault::NotDigit => "invalid digit found in string"@,
        NumberFault::TooLarge => "number too large to fit in target type"@,
    }
}

/// What is wrong with `s` as an unsigned number of at most `max`, in words.
pub fn number_complaint(s: &str, max: u64) -> (complaint: Option<String>)
    ensures
        match complaint {
            Some(text) => number_fault(s@, max as nat) matches Some(fault) && text@ == fault_words(
                fault,
            ),
            None => number_fault(s@, max as nat) is None,
        },
{
    let chars = chars_of(s);
    if chars.len() == 0 {
        return Some("cannot parse integer from empty string".to_owned());
    }
    let start: usize = if chars[0] == '+' {
        1
    } else {
        0
    };
    let ghost digits = number_digits(s@);
    assert(digits =~= chars@.subrange(start as int, chars@.len() as int));
    if start == chars.len() {
        return Some("invalid digit found in string".to_owned());
    }
    let mut value: u64 = 0;
    let mut i: usize = start;
    while i < chars.len()
        invariant
            start <= i <= chars@.len(),
            s@.len() > 0,
            start < chars@.len(),
            digits == number_digits(s@),
            digits == chars@.subrange(start as int, chars@.len() as int),
            number_fault(s@, max as nat) == digits_fault(digits, i - start, value as nat, max as nat),
            value <= max,
        decreases chars@.len() - i,
    {
        let c = chars[i];
        assert(c == digits[i - start]);
        if !('0' <= c && c <= '9') {
            return Some("invalid digit found in string".to_owned());
        }
        let d = digit_value(c);
        if value > max / 10 || d > max || value * 10 > max - d {
            return Some("number too large to fit in target type".to_owned());
        }
        value = value * 10 + d;
        i += 1;
    }
    None
}

/// A text has a number exactly where nothing is wrong with it.
pub proof fn number_or_fault(s: Seq<char>, max: nat)
    ensures
        number_of(s, max) is Some <==> number_fault(s, max) is None,
{
    let digits = number_digits(s);
    if digits.len() > 0 {
        assert(digits.take(0) =~= Seq::empty());
        lemma_digits_fault(digits, 0, max);
    }
}

proof fn lemma_digits_fault(s: Seq<char>, i: int, max: nat)
    requires
        0 <= i <= s.len(),
        all_digits(s.take(i)),
        digits_value(s.take(i)) <= max,
    ensures
        (all_digits(s) && digits_value(s) <= max) <==> digits_fault(
            s,
            i,
            digits_value(s.take(i)),
            max,
        ) is None,
    decreases s.len() - i,
{
    if i == s.len() {
        assert(s.take(i) =~= s);
    } else if is_digit(s[i]) {
        assert(s.take(i + 1).drop_last() =~= s.take(i));
        assert(s.take(i + 1).last() == s[i]);
        assert forall|k: int| 0 <= k < s.take(i + 1).len() implies is_digit(
            #[trigger] s.take(i + 1)[k],
        ) by {
            if k < i {
                assert(s.take(i)[k] == s[k]);
            }
        }
        if digits_value(s.take(i + 1)) <= max {
            lemma_digits_fault(s, i + 1, max);
        } else if all_digits(s) {
            lemma_digits_value_grows(s, i + 1);
        }
    }
}

/// The small hexadecimal digit of a number below sixteen.
pub open spec fn hex_digit(d: nat) -> char {
    if d < 10 {
        (('0' as u32) + d) as char
    } else {
        (('a' as u32) + (d - 10)) as char
    }
}

/// Two small hexadecimal digits for each byte.
pub open spec fn hex(bytes: Seq<u8>) -> Seq<char>
    decreases bytes.len(),
{
    if bytes.len() == 0 {
        Seq::empty()
    } else {
        hex(bytes.drop_last()).push(hex_digit((bytes.last() / 16) as nat)).push(
            hex_digit((bytes.last() % 16) as nat),
        )
    }
}

fn hex_digit_of(d: u8) -> (c: char)
    requires
        d < 16,
    ensures
        c == hex_digit(d as nat),
{
    match d {
        10 => 'a',
        11 => 'b',
        12 => 'c',
        13 => 'd',
        14 => 'e',
        15 => 'f',
        _ => digit_of(d as u64),
    }
}

/// Two small hexadecimal digits for each byte.
pub fn to_hex(bytes: &Vec<u8>) -> (s: String)
    ensures
        s@ == hex(bytes@),
{
    let mut s = String::new();
    let mut i: usize = 0;
    assert(bytes@.take(0) =~= Seq::empty());
    while i < bytes.len()
        invariant
            i <= bytes@.len(),
            s@ == hex(bytes@.take(i as int)),
        decreases bytes@.len() - i,
    {
        assert(bytes@.take(i + 1).drop_last() =~= bytes@.take(i as int));
        s.push(hex_digit_of(bytes[i] / 16));
        s.push(hex_digit_of(bytes[i] % 16));
        i += 1;
    }
    assert(bytes@.take(i as int) =~= bytes@);
    s
}

/// The notation of a number holds digits only, has no leading zero unless the number
/// is zero, and is read back as the number.
pub proof fn decimals_are_read_back(n: nat, max: nat)
    requires
        n <= max,
    ensures
        all_digits(decimal(n)),
        decimal(n).len() > 0,
        n > 0 ==> decimal(n)[0] != '0',
        digits_value(decimal(n)) == n,
        number_of(decimal(n), max) == Some(n),
    decreases n,
{
    if n < 10 {
        let one = seq![digit_char(n)];
        assert(one.drop_last() =~= Seq::empty());
        assert(digits_value(one.drop_last()) == 0);
        assert(digits_value(one) == n);
    } else {
        decimals_are_read_back(n / 10, max);
        let front = decimal(n / 10);
        let whole = decimal(n);
        assert(whole.drop_last() =~= front);
        assert(whole.last() == digit_char(n % 10));
        assert(whole[0] == front[0]);
        assert(all_digits(whole)) by {
            assert forall|i: int| 0 <= i < whole.len() implies is_digit(#[trigger] whole[i]) by {
                if i < front.len() {
                    assert(whole[i] == front[i]);
                }
            }
        }
    }
    assert(is_digit(decimal(n)[0]));
    assert(number_digits(decimal(n)) == decimal(n));
}

/// Each byte has two hexadecimal digits, the higher one first, out of the sixteen small
/// ones.
pub proof fn bytes_have_two_hex_digits(bytes: Seq<u8>, i: int)
    requires
        0 <= i < bytes.len(),
    ensures
        hex(bytes).len() == 2 * bytes.len(),
        hex(bytes)[2 * i] == "0123456789abcdef"@[bytes[i] as int / 16],
        hex(bytes)[2 * i + 1] == "0123456789abcdef"@[bytes[i] as int % 16],
    decreases bytes.len(),
{
    reveal_strlit("0123456789abcdef");
    let front = bytes.drop_last();
    lemma_hex_length(bytes);
    lemma_hex_length(front);
    if i < bytes.len() - 1 {
        bytes_have_two_hex_digits(front, i);
    } else {
        assert(0 <= bytes[i] as int / 16 < 16);
    }
}

proof fn lemma_hex_length(bytes: Seq<u8>)
    ensures
        hex(bytes).len() == 2 * bytes.len(),
    decreases bytes.len(),
{
    if bytes.len() > 0 {
        lemma_hex_length(bytes.drop_last());
    }
}

/// A negative number has a sign before its digits, any other has none.
pub proof fn only_negative_numbers_have_a_sign(n: int)
    ensures
        n >= 0 ==> signed_decimal(n) == decimal(n as nat),
        n < 0 ==> signed_decimal(n) == seq!['-'] + decimal((-n) as nat),
{
}

} // verus!
