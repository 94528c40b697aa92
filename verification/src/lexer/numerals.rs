//! Numerals: full-width digits, integers and the shape of a floating-point
//! numeral.

use crate::lexer::strings::chars_of;
use vstd::prelude::*;

verus! {

/// The ASCII character that a full-width digit or the ideographic full stop
/// stands for.
pub open spec fn ascii_numeral(c: char) -> Option<char> {
    if c == '０' {
        Some('0')
    } else if c == '１' {
        Some('1')
    } else if c == '２' {
        Some('2')
    } else if c == '３' {
        Some('3')
    } else if c == '４' {
        Some('4')
    } else if c == '５' {
        Some('5')
    } else if c == '６' {
        Some('6')
    } else if c == '７' {
        Some('7')
    } else if c == '８' {
        Some('8')
    } else if c == '９' {
        Some('9')
    } else if c == '。' {
        Some('.')
    } else {
        None
    }
}

/// Whether every character of `text` is a full-width digit or the
/// ideographic full stop.
pub open spec fn is_full_width(text: Seq<char>) -> bool {
    forall|i: int| 0 <= i < text.len() ==> ascii_numeral(#[trigger] text[i]) is Some
}

/// The numeral that is read from `text`: where `text` is written in
/// full-width digits throughout, the same in ASCII digits; any other text
/// as it is.
pub open spec fn numeral_text(text: Seq<char>) -> Seq<char> {
    if is_full_width(text) {
        Seq::new(text.len(), |i: int| ascii_numeral(text[i]).unwrap())
    } else {
        text
    }
}

/// The ASCII character that a full-width digit or the ideographic full stop
/// stands for.
pub fn to_ascii_numeral(c: char) -> (r: Option<char>)
    ensures
        r == ascii_numeral(c),
{
    if c == '０' {
        Some('0')
    } else if c == '１' {
        Some('1')
    } else if c == '２' {
        Some('2')
    } else if c == '３' {
        Some('3')
    } else if c == '４' {
        Some('4')
    } else if c == '５' {
        Some('5')
    } else if c == '６' {
        Some('6')
    } else if c == '７' {
        Some('7')
    } else if c == '８' {
        Some('8')
    } else if c == '９' {
        Some('9')
    } else if c == '。' {
        Some('.')
    } else {
        None
    }
}

/// The numeral that is read from `text`, as characters.
pub fn read_numeral(text: &str) -> (numeral: Vec<char>)
    ensures
        numeral@ == numeral_text(text@),
{
    let chars = chars_of(text);
    let mut numeral: Vec<char> = Vec::new();
    let mut i: usize = 0;
    while i < chars.len()
        invariant
            i <= chars.len(),
            chars@ == text@,
            numeral.len() == i,
            forall|k: int| 0 <= k < i ==> ascii_numeral(#[trigger] text@[k]) == Some(numeral@[k]),
        decreases chars.len() - i,
    {
        match to_ascii_numeral(chars[i]) {
            Some(c) => {
                numeral.push(c);
            },
            None => {
                assert(ascii_numeral(text@[i as int]) is None);
                return chars;
            },
        }
        i += 1;
    }
    assert(numeral@ =~= numeral_text(text@));
    numeral
}

/// Whether `c` is an ASCII digit.
pub open spec fn is_digit(c: char) -> bool {
    '0' <= c <= '9'
}

/// The number that the decimal digits of `digits` write.
pub open spec fn decimal_value(digits: Seq<char>) -> nat
    decreases digits.len(),
{
    if digits.len() == 0 {
        0
    } else {
        decimal_value(digits.drop_last()) * 10 + (digits.last() as nat - '0' as nat) as nat
    }
}

/// Whether `text` consists of ASCII digits.
pub open spec fn all_digits(text: Seq<char>) -> bool {
    forall|i: int| 0 <= i < text.len() ==> is_digit(#[trigger] text[i])
}

/// The integer that `text` writes: an optional sign, `+` or `-`, and then
/// one decimal digit or more, and nothing else.
pub open spec fn integer_value(text: Seq<char>) -> Option<int> {
    let signed = text.len() > 0 && (text[0] == '+' || text[0] == '-');
    let digits = if signed {
        text.drop_first()
    } else {
        text
    };
    if digits.len() > 0 && all_digits(digits) {
        if signed && text[0] == '-' {
            Some(-(decimal_value(digits) as int))
        } else {
            Some(decimal_value(digits) as int)
        }
    } else {
        None
    }
}

/// The integer that `text` writes, where a 64-bit integer holds it.
pub open spec fn parsed_i64(text: Seq<char>) -> Option<i64> {
    match integer_value(text) {
        Some(value) => if i64::MIN <= value <= i64::MAX {
            Some(value as i64)
        } else {
            None
        },
        None => None,
    }
}

/// The digits at the beginning of a numeral write no more than all of them.
pub proof fn lemma_decimal_prefix(digits: Seq<char>, n: int)
    requires
        0 <= n <= digits.len(),
    ensures
        decimal_value(digits.take(n)) <= decimal_value(digits),
    decreases digits.len() - n,
{
    if n < digits.len() {
        assert(digits.drop_last().take(n) =~= digits.take(n));
        lemma_decimal_prefix(digits.drop_last(), n);
    } else {
        assert(digits.take(n) =~= digits);
    }
}

/// The 64-bit integer that `text` writes.
pub fn read_integer(text: &Vec<char>) -> (r: Option<i64>)
    ensures
        r == parsed_i64(text@),
{
    let n = text.len();
    let signed = n > 0 && (text[0] == '+' || text[0] == '-');
    let negative = signed && text[0] == '-';
    let start: usize = if signed {
        1
    } else {
        0
    };
    let ghost digits = text@.subrange(start as int, n as int);
    assert(digits =~= if signed {
        text@.drop_first()
    } else {
        text@
    });
    if start == n {
        return None;
    }
    let limit: u64 = if negative {
        9223372036854775808
    } else {
        9223372036854775807
    };
    let mut magnitude: u64 = 0;
    let mut i = start;
    assert(digits.take(0) =~= Seq::empty());
    while i < n
        invariant
            start <= i <= n,
            start < n,
            n == text.len(),
            signed == (n > 0 && (text@[0] == '+' || text@[0] == '-')),
            negative == (signed && text@[0] == '-'),
            digits == text@.subrange(start as int, n as int),
            digits == if signed {
                text@.drop_first()
            } else {
                text@
            },
            forall|k: int| 0 <= k < i - start ==> is_digit(#[trigger] digits[k]),
            magnitude == decimal_value(digits.take(i - start)),
            magnitude <= limit,
            limit == if negative {
                9223372036854775808u64
            } else {
                9223372036854775807u64
            },
        decreases n - i,
    {
        let c = text[i];
        if !('0' <= c && c <= '9') {
            assert(!is_digit(digits[i - start]));
            return None;
        }
        let digit = (c as u8 - 48) as u64;
        let ghost longer = digits.take(i - start + 1);
        assert(longer.drop_last() =~= digits.take(i - start));
        assert(longer.last() == c);
        assert(decimal_value(longer) == magnitude * 10 + digit);
        if magnitude > (limit - digit) / 10 {
            proof {
                lemma_decimal_prefix(digits, i - start + 1);
            }
            return None;
        }
        magnitude = magnitude * 10 + digit;
        i += 1;
    }
    assert(digits.take(n - start) =~= digits);
    if negative {
        if magnitude == 9223372036854775808 {
            Some(i64::MIN)
        } else {
            Some(-(magnitude as i64))
        }
    } else {
        Some(magnitude as i64)
    }
}

/// Where the run of ASCII digits that begins at `from` ends.
pub open spec fn digits_end(text: Seq<char>, from: int) -> int
    decreases text.len() - from,
{
    if 0 <= from < text.len() && is_digit(text[from]) {
        digits_end(text, from + 1)
    } else {
        from
    }
}

/// The lower-case form of an ASCII letter; any other character as it is.
pub open spec fn lower(c: char) -> char {
    if 'A' <= c <= 'Z' {
        ((c as u8) + 32) as char
    } else {
        c
    }
}

/// Whether `text` from `from` on is `word`, letter case aside.
pub open spec fn is_word(text: Seq<char>, from: int, word: Seq<char>) -> bool {
    text.len() - from == word.len() && forall|i: int|
        0 <= i < word.len() ==> lower(#[trigger] text[from + i]) == word[i]
}

/// Whether `text` from `from` on is a decimal number: digits with at most
/// one point among them, at least one digit in all, and then an exponent or
/// nothing. An exponent is the letter `e`, an optional sign, and one digit
/// or more.
pub open spec fn is_number(text: Seq<char>, from: int) -> bool {
    let whole_end = digits_end(text, from);
    let pointed = whole_end < text.len() && text[whole_end] == '.';
    let mantissa_end = if pointed {
        digits_end(text, whole_end + 1)
    } else {
        whole_end
    };
    let digits = if pointed {
        mantissa_end - from - 1
    } else {
        mantissa_end - from
    };
    digits > 0 && (mantissa_end == text.len() || {
        let signed = mantissa_end + 1 < text.len() && (text[mantissa_end + 1] == '+'
            || text[mantissa_end + 1] == '-');
        let exponent = if signed {
            mantissa_end + 2
        } else {
            mantissa_end + 1
        };
        lower(text[mantissa_end]) == 'e' && digits_end(text, exponent) > exponent && digits_end(
            text,
            exponent,
        ) == text.len()
    })
}

/// Whether `text` has the shape of a floating-point numeral: an optional
/// sign, and then `inf`, `infinity` or `nan` in any letter case, or a
/// decimal number.
pub open spec fn is_float_numeral(text: Seq<char>) -> bool {
    let from: int = if text.len() > 0 && (text[0] == '+' || text[0] == '-') {
        1
    } else {
        0
    };
    is_word(text, from, seq!['i', 'n', 'f']) || is_word(
        text,
        from,
        seq!['i', 'n', 'f', 'i', 'n', 'i', 't', 'y'],
    ) || is_word(text, from, seq!['n', 'a', 'n']) || is_number(text, from)
}

/// The lower-case form of an ASCII letter.
fn to_lower(c: char) -> (r: char)
    ensures
        r == lower(c),
{
    if 'A' <= c && c <= 'Z' {
        ((c as u8) + 32) as char
    } else {
        c
    }
}

/// Whether `text` from `from` on is `word`, letter case aside.
fn matches_word(text: &Vec<char>, from: usize, word: &Vec<char>) -> (r: bool)
    requires
        from <= text.len(),
    ensures
        r == is_word(text@, from as int, word@),
{
    if text.len() - from != word.len() {
        return false;
    }
    let mut i: usize = 0;
    while i < word.len()
        invariant
            i <= word.len(),
            from <= text.len(),
            text.len() - from == word.len(),
            forall|k: int| 0 <= k < i ==> lower(#[trigger] text@[from + k]) == word@[k],
        decreases word.len() - i,
    {
        if to_lower(text[from + i]) != word[i] {
            assert(lower(text@[from + i]) != word@[i as int]);
            return false;
        }
        i += 1;
    }
    true
}

/// Where the run of ASCII digits that begins at `from` ends.
fn find_digits_end(text: &Vec<char>, from: usize) -> (end: usize)
    requires
        from <= text.len(),
    ensures
        end == digits_end(text@, from as int),
        from <= end <= text.len(),
{
    let mut end = from;
    while end < text.len() && '0' <= text[end] && text[end] <= '9'
        invariant
            from <= end <= text.len(),
            digits_end(text@, end as int) == digits_end(text@, from as int),
        decreases text.len() - end,
    {
        end += 1;
    }
    end
}

/// Whether `text` has the shape of a floating-point numeral.
pub fn has_float_shape(text: &Vec<char>) -> (r: bool)
    ensures
        r == is_float_numeral(text@),
{
    let n = text.len();
    let from: usize = if n > 0 && (text[0] == '+' || text[0] == '-') {
        1
    } else {
        0
    };
    let inf = vec!['i', 'n', 'f'];
    let infinity = vec!['i', 'n', 'f', 'i', 'n', 'i', 't', 'y'];
    let nan = vec!['n', 'a', 'n'];
    if matches_word(text, from, &inf) || matches_word(text, from, &infinity) || matches_word(
        text,
        from,
        &nan,
    ) {
        return true;
    }
    let whole_end = find_digits_end(text, from);
    let pointed = whole_end < n && text[whole_end] == '.';
    let mantissa_end = if pointed {
        find_digits_end(text, whole_end + 1)
    } else {
        whole_end
    };
    let digits = if pointed {
        mantissa_end - from - 1
    } else {
        mantissa_end - from
    };
    if digits == 0 {
        return false;
    }
    if mantissa_end == n {
        return true;
    }
    if to_lower(text[mantissa_end]) != 'e' {
        return false;
    }
    let signed = mantissa_end + 1 < n && (text[mantissa_end + 1] == '+' || text[mantissa_end + 1]
        == '-');
    let exponent = if signed {
        mantissa_end + 2
    } else {
        mantissa_end + 1
    };
    let end = find_digits_end(text, exponent);
    end > exponent && end == n
}

/// The decimal digits that write `n`.
pub open spec fn decimal_digits(n: nat) -> Seq<char>
    decreases n,
{
    if n < 10 {
        seq![('0' as u8 + n as u8) as char]
    } else {
        decimal_digits(n / 10).push(('0' as u8 + (n % 10) as u8) as char)
    }
}

/// Writes `n` in decimal digits at the end of `text`.
pub fn push_decimal(text: &mut String, n: u32)
    ensures
        final(text)@ == old(text)@ + decimal_digits(n as nat),
    decreases n,
{
    if n >= 10 {
        push_decimal(text, n / 10);
    }
    let digit = (48u8 + (n % 10) as u8) as char;
    text.push(digit);
    proof {
        if n >= 10 {
            assert(text@ =~= old(text)@ + decimal_digits(n as nat));
        } else {
            assert(text@ =~= old(text)@ + decimal_digits(n as nat));
        }
    }
}

} // verus!
