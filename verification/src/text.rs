//! Small facts about text: ASCII case folding and decimal numerals.

use vstd::prelude::*;
use vstd::string::*;

verus! {

/// The ASCII lower-case form of a character; every other character is its own.
pub open spec fn ascii_lower_char(c: char) -> char {
    if 'A' <= c && c <= 'Z' {
        (c as u32 + 32) as char
    } else {
        c
    }
}

/// The ASCII lower-case form of a text.
pub open spec fn ascii_lower(text: Seq<char>) -> Seq<char> {
    text.map_values(|c: char| ascii_lower_char(c))
}

/// `str::eq_ignore_ascii_case` of std: whether two texts are an ASCII
/// case-insensitive match, which is that their ASCII lower-case forms are equal.
pub assume_specification[ str::eq_ignore_ascii_case ](first: &str, second: &str) -> (equal: bool)
    ensures
        equal == (ascii_lower(first@) == ascii_lower(second@)),
;

/// The numeral of a digit.
pub open spec fn digit_char(digit: nat) -> char {
    ('0' as u32 + digit) as char
}

/// The decimal numeral of a number, without leading zeros.
pub open spec fn decimal(number: nat) -> Seq<char>
    decreases number,
{
    if number < 10 {
        seq![digit_char(number)]
    } else {
        decimal(number / 10).push(digit_char(number % 10))
    }
}

/// The numeral of one digit.
fn digit_text(digit: u64) -> (text: &'static str)
    requires
        digit < 10,
    ensures
        text@ == seq![digit_char(digit as nat)],
{
    proof {
        reveal_strlit("0");
        reveal_strlit("1");
        reveal_strlit("2");
        reveal_strlit("3");
        reveal_strlit("4");
        reveal_strlit("5");
        reveal_strlit("6");
        reveal_strlit("7");
        reveal_strlit("8");
        reveal_strlit("9");
    }
    match digit {
        0 => "0",
        1 => "1",
        2 => "2",
        3 => "3",
        4 => "4",
        5 => "5",
        6 => "6",
        7 => "7",
        8 => "8",
        _ => "9",
    }
}

/// Writes a number in decimal.
pub fn decimal_text(number: u64) -> (text: String)
    ensures
        text@ == decimal(number as nat),
    decreases number,
{
    if number < 10 {
        digit_text(number).to_owned()
    } else {
        let mut text = decimal_text(number / 10);
        text.append(digit_text(number % 10));
        text
    }
}

/// Puts one text behind another.
pub(crate) fn joined(first: &str, second: &str) -> (text: String)
    ensures
        text@ == first@ + second@,
{
    let mut text = first.to_owned();
    text.append(second);
    text
}

/// The number that a row of decimal digits stands for.
pub open spec fn numeral_value(digits: Seq<char>) -> int
    decreases digits.len(),
{
    if digits.len() == 0 {
        0
    } else {
        numeral_value(digits.drop_last()) * 10 + (digits.last() as int - '0' as int)
    }
}

/// A numeral is made of decimal digits, stands for its number, and starts with a zero only
/// where it is nothing but that zero.
pub proof fn law_numeral_stands_for_its_number(number: nat)
    ensures
        decimal(number).len() > 0,
        forall|i: int| 0 <= i < decimal(number).len() ==> '0' <= #[trigger] decimal(number)[i] <= '9',
        numeral_value(decimal(number)) == number,
        decimal(number)[0] == '0' <==> number == 0,
        number == 0 ==> decimal(number).len() == 1,
    decreases number,
{
    reveal_with_fuel(numeral_value, 2);
    if number >= 10 {
        law_numeral_stands_for_its_number(number / 10);
        let digits = decimal(number / 10);
        assert(decimal(number).drop_last() =~= digits);
    } else {
        assert(decimal(number).drop_last() =~= Seq::empty());
    }
}

/// Lower-casing changes each ASCII capital into the letter that comes thirty-two places
/// behind it, and nothing else.
pub proof fn law_lower_case_moves_capitals_only(text: Seq<char>)
    ensures
        ascii_lower(text).len() == text.len(),
        forall|i: int|
            0 <= i < text.len() ==> (if 65 <= text[i] as int <= 90 {
                (#[trigger] ascii_lower(text)[i]) as int == text[i] as int + 32
            } else {
                ascii_lower(text)[i] == text[i]
            }),
{
}

} // verus!
