//! Numbers as text: hexadecimal and decimal digits, and reading a port.

use vstd::prelude::*;

verus! {

/// The lower-case hexadecimal digit of a value below sixteen.
pub open spec fn hex_digit(value: nat) -> char {
    if value < 10 {
        (48 + value) as char
    } else {
        (87 + value) as char
    }
}

/// A number in lower-case hexadecimal digits, without leading zeros.
pub open spec fn lower_hex(number: nat) -> Seq<char>
    decreases number,
{
    if number < 16 {
        seq![hex_digit(number)]
    } else {
        lower_hex(number / 16).push(hex_digit(number % 16))
    }
}

/// A number in decimal digits, without leading zeros.
pub open spec fn decimal(number: nat) -> Seq<char>
    decreases number,
{
    if number < 10 {
        seq![hex_digit(number)]
    } else {
        decimal(number / 10).push(hex_digit(number % 10))
    }
}

/// The text of one digit.
fn digit_text(value: u8) -> (text: &'static str)
    requires
        value < 16,
    ensures
        text@ == seq![hex_digit(value as nat)],
{
    proof {
        reveal_strlit("0");
        reveal_strlit("1");
        reveal_strlit("2");
        reveal_strlit("3");
        reveal_strlit("4");
        reveal_strlit("5");
        reveal_strlit("6");
        reveal_strlit("7");
        reveal_strlit("8");
        reveal_strlit("9");
        reveal_strlit("a");
        reveal_strlit("b");
        reveal_strlit("c");
        reveal_strlit("d");
        reveal_strlit("e");
        reveal_strlit("f");
    }
    let text = match value {
        0 => "0",
        1 => "1",
        2 => "2",
        3 => "3",
        4 => "4",
        5 => "5",
        6 => "6",
        7 => "7",
        8 => "8",
        9 => "9",
        10 => "a",
        11 => "b",
        12 => "c",
        13 => "d",
        14 => "e",
        _ => "f",
    };
    assert(text@ =~= seq![hex_digit(value as nat)]);
    text
}

/// Writes a number in lower-case hexadecimal at the end of `out`.
fn push_lower_hex(number: u128, out: &mut String)
    ensures
        final(out)@ == old(out)@ + lower_hex(number as nat),
    decreases number,
{
    if number >= 16 {
        push_lower_hex(number / 16, out);
    }
    let digit: u8 = (number % 16) as u8;
    out.append(digit_text(digit));
    assert(final(out)@ =~= old(out)@ + lower_hex(number as nat));
}

/// A number in lower-case hexadecimal digits.
pub fn to_lower_hex(number: u128) -> (text: String)
    ensures
        text@ == lower_hex(number as nat),
{
    let mut text = String::new();
    push_lower_hex(number, &mut text);
    assert(text@ =~= lower_hex(number as nat));
    text
}

/// Writes a number in decimal at the end of `out`.
fn push_decimal(number: usize, out: &mut String)
    ensures
        final(out)@ == old(out)@ + decimal(number as nat),
    decreases number,
{
    if number >= 10 {
        push_decimal(number / 10, out);
    }
    let digit: u8 = (number % 10) as u8;
    out.append(digit_text(digit));
    assert(final(out)@ =~= old(out)@ + decimal(number as nat));
}

/// A number in decimal digits.
pub fn to_decimal(number: usize) -> (text: String)
    ensures
        text@ == decimal(number as nat),
{
    let mut text = String::new();
    push_decimal(number, &mut text);
    assert(text@ =~= decimal(number as nat));
    text
}

/// Whether a character is a decimal digit.
pub open spec fn is_digit(c: char) -> bool {
    '0' <= c <= '9'
}

/// The number that decimal digits stand for.
pub open spec fn decimal_value(digits: Seq<char>) -> nat
    decreases digits.len(),
{
    if digits.len() == 0 {
        0
    } else {
        decimal_value(digits.drop_last()) * 10 + (digits.last() as nat - '0' as nat) as nat
    }
}

/// Every character is a decimal digit.
pub open spec fn all_digits(text: Seq<char>) -> bool {
    forall|i: int| 0 <= i < text.len() ==> is_digit(#[trigger] text[i])
}

/// A text without the one `+` that may stand in front of a number.
pub open spec fn unsigned_part(text: Seq<char>) -> Seq<char> {
    if text.len() > 0 && text[0] == '+' {
        text.drop_first()
    } else {
        text
    }
}

/// The port that a text stands for: decimal digits, at least one, with
/// nothing around them but one `+` in front at most, and a value that fits
/// into sixteen bits.
pub open spec fn port_number(text: Seq<char>) -> Option<u16> {
    let digits = unsigned_part(text);
    if digits.len() > 0 && all_digits(digits) && decimal_value(digits) <= u16::MAX {
        Some(decimal_value(digits) as u16)
    } else {
        None
    }
}

/// Digits that go on stand for no less than the digits so far.
proof fn lemma_decimal_value_grows(digits: Seq<char>, shorter: int)
    requires
        0 <= shorter <= digits.len(),
    ensures
        decimal_value(digits.subrange(0, shorter)) <= decimal_value(digits),
    decreases digits.len(),
{
    if shorter == digits.len() {
        assert(digits.subrange(0, shorter) =~= digits);
    } else {
        assert(digits.drop_last().subrange(0, shorter) =~= digits.subrange(0, shorter));
        lemma_decimal_value_grows(digits.drop_last(), shorter);
    }
}

/// Reads the port in `text[from..to]`.
#[verifier::loop_isolation(false)]
pub fn parse_port(text: &Vec<char>, from: usize, to: usize) -> (port: Option<u16>)
    requires
        from <= to <= text.len(),
    ensures
        port == port_number(text@.subrange(from as int, to as int)),
{
    let ghost whole = text@.subrange(from as int, to as int);
    let mut start: usize = from;
    if start < to && text[start] == '+' {
        assert(whole.drop_first() =~= text@.subrange(start + 1, to as int));
        start += 1;
    }
    let ghost digits = text@.subrange(start as int, to as int);
    assert(digits == unsigned_part(whole));
    if start == to {
        return None;
    }
    let mut value: u32 = 0;
    let mut i: usize = start;
    assert(digits.subrange(0, 0) =~= Seq::empty());
    while i < to
        invariant
            start <= i <= to,
            forall|k: int| 0 <= k < i - start ==> is_digit(#[trigger] digits[k]),
            value == decimal_value(digits.subrange(0, i - start)),
            value <= u16::MAX,
        decreases to - i,
    {
        let c = text[i];
        assert(digits[i - start] == c);
        if !('0' <= c && c <= '9') {
            assert(!is_digit(digits[i - start]));
            assert(!all_digits(digits));
            return None;
        }
        assert(digits.subrange(0, i - start + 1).drop_last() =~= digits.subrange(0, i - start));
        assert(digits.subrange(0, i - start + 1).last() == c);
        let next: u32 = value * 10 + (c as u32 - '0' as u32);
        if next > 65535 {
            proof {
                lemma_decimal_value_grows(digits, i - start + 1);
            }
            return None;
        }
        value = next;
        i += 1;
    }
    assert(digits.subrange(0, digits.len() as int) =~= digits);
    Some(value as u16)
}

} // verus!
