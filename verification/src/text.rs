//! Building text: decimal numbers and lower-case hexadecimal.

use vstd::prelude::*;

verus! {

/// `String::push_str` of std appends the given slice to the string.
pub assume_specification[ String::push_str ](s: &mut String, string: &str)
    ensures
        final(s)@ == old(s)@ + string@,
;

/// `String::push` of std appends the given character to the string.
pub assume_specification[ String::push ](s: &mut String, ch: char)
    ensures
        final(s)@ == old(s)@.push(ch),
;

/// The character of a decimal digit.
pub open spec fn digit_char(d: int) -> char {
    ((0x30 + d) as u8) as char
}

/// The character of a hexadecimal digit, in lower case.
pub open spec fn hex_char(d: int) -> char {
    if d < 10 {
        ((0x30 + d) as u8) as char
    } else {
        ((0x57 + d) as u8) as char
    }
}

/// The decimal digits of `n`, without leading zeros.
pub open spec fn decimal_digits(n: nat) -> Seq<char>
    decreases n,
{
    if n < 10 {
        seq![digit_char(n as int)]
    } else {
        decimal_digits(n / 10).push(digit_char((n % 10) as int))
    }
}

/// `n` in decimal, with a minus sign if it is negative.
pub open spec fn decimal(n: int) -> Seq<char> {
    if n < 0 {
        seq!['-'] + decimal_digits((-n) as nat)
    } else {
        decimal_digits(n as nat)
    }
}

/// Every byte as two hexadecimal digits, in lower case.
pub open spec fn hex_of(bytes: Seq<u8>) -> Seq<char>
    decreases bytes.len(),
{
    if bytes.len() == 0 {
        Seq::empty()
    } else {
        hex_of(bytes.drop_last()).push(hex_char(bytes.last() as int / 16)).push(
            hex_char(bytes.last() as int % 16),
        )
    }
}

/// The character of a hexadecimal digit, in lower case.
pub fn hex_digit(d: u8) -> (c: char)
    requires
        d < 16,
    ensures
        c == hex_char(d as int),
{
    if d < 10 {
        (0x30 + d) as char
    } else {
        (0x57 + d) as char
    }
}

/// Every byte as two hexadecimal digits, in lower case.
pub fn to_hex(bytes: &Vec<u8>) -> (text: String)
    ensures
        text@ == hex_of(bytes@),
        text@.len() == 2 * bytes@.len(),
{
    let mut text = String::new();
    let mut i: usize = 0;
    while i < bytes.len()
        invariant
            i <= bytes.len(),
            text@ == hex_of(bytes@.take(i as int)),
            text@.len() == 2 * i,
        decreases bytes.len() - i,
    {
        proof {
            assert(bytes@.take(i as int + 1).drop_last() =~= bytes@.take(i as int));
            assert(bytes@.take(i as int + 1).last() == bytes@[i as int]);
        }
        let b = bytes[i];
        text.push(hex_digit(b / 16));
        text.push(hex_digit(b % 16));
        i += 1;
    }
    assert(bytes@.take(bytes.len() as int) =~= bytes@);
    text
}

/// Appends `n` in decimal to `text`.
pub fn push_decimal(text: &mut String, n: i64)
    ensures
        final(text)@ == old(text)@ + decimal(n as int),
{
    if n < 0 {
        text.push('-');
        let ghost signed = text@;
        push_unsigned(text, (-(n as i128)) as u64);
        assert(text@ =~= old(text)@ + decimal(n as int));
    } else {
        push_unsigned(text, n as u64);
    }
}

/// Appends `n` in decimal to `text`.
pub fn push_unsigned(text: &mut String, n: u64)
    ensures
        final(text)@ == old(text)@ + decimal_digits(n as nat),
{
    let mut rest: u64 = n;
    let ghost head = text@;
    let mut digits: Vec<char> = Vec::new();
    while rest >= 10
        invariant
            decimal_digits(n as nat) == decimal_digits(rest as nat) + digits@.reverse(),
        decreases rest,
    {
        let d = (rest % 10) as u8;
        let ghost before = digits@;
        digits.push((0x30 + d) as char);
        proof {
            let c = digit_char((rest % 10) as int);
            assert(digits@.reverse() =~= seq![c] + before.reverse());
            assert(decimal_digits(rest as nat) == decimal_digits((rest / 10) as nat).push(c));
            assert(decimal_digits((rest / 10) as nat).push(c) + before.reverse()
                =~= decimal_digits((rest / 10) as nat) + (seq![c] + before.reverse()));
        }
        rest = rest / 10;
    }
    text.push((0x30 + rest as u8) as char);
    let ghost lead = text@;
    assert(lead == head + decimal_digits(rest as nat));
    let mut i: usize = digits.len();
    while i > 0
        invariant
            i <= digits.len(),
            text@ == lead + digits@.reverse().take(digits.len() - i),
        decreases i,
    {
        i -= 1;
        text.push(digits[i]);
        proof {
            let r = digits@.reverse();
            let k = digits.len() - i - 1;
            assert(r[k] == digits@[i as int]);
            assert(r.take(k).push(r[k]) =~= r.take(k + 1));
        }
    }
    proof {
        let r = digits@.reverse();
        assert(r.take(digits.len() as int) =~= r);
        assert(lead + r =~= head + (decimal_digits(rest as nat) + r));
    }
}

/// `width - len` blanks, none where `len` is at least `width`.
pub open spec fn padding(len: int, width: int) -> Seq<char> {
    Seq::new((if len < width { width - len } else { 0 }) as nat, |i: int| ' ')
}

/// Appends `n` in decimal to `text`, after as many blanks as it takes to
/// fill `width` characters.
pub fn push_padded(text: &mut String, n: u64, width: usize)
    ensures
        final(text)@ == old(text)@ + padding(decimal_digits(n as nat).len() as int, width as int)
            + decimal_digits(n as nat),
{
    let mut number = String::new();
    push_unsigned(&mut number, n);
    assert(number@ =~= decimal_digits(n as nat));
    let len = number.as_str().unicode_len();
    let ghost head = text@;
    let mut i: usize = len;
    while i < width
        invariant
            len <= i,
            i <= width || i == len,
            text@ == head + padding(len as int, i as int),
        decreases width - i,
    {
        text.push(' ');
        assert(padding(len as int, i as int).push(' ') =~= padding(len as int, i as int + 1));
        i += 1;
    }
    assert(padding(len as int, i as int) =~= padding(len as int, width as int));
    text.push_str(number.as_str());
}

} // verus!
