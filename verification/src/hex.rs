//! Upper-case hexadecimal text and the printable form of a byte.

use vstd::arithmetic::div_mod::lemma_div_denominator;
use vstd::arithmetic::power::{lemma_pow0, lemma_pow1, lemma_pow_adds, lemma_pow_positive, pow};
use vstd::prelude::*;

verus! {

/// Appends `ch` to `text`.
///
/// Stands for `String::push` of the standard library, which is documented
/// to append the given character to the end of the string.
pub assume_specification[ String::push ](text: &mut String, ch: char)
    ensures
        final(text)@ == old(text)@.push(ch),
;

/// The digit for `value`, which is below sixteen: `0` to `9`, then `A` to `F`.
pub open spec fn spec_hex_digit(value: int) -> char {
    if value < 10 {
        ('0' as u8 + value) as char
    } else {
        ('A' as u8 + value - 10) as char
    }
}

/// `value` in upper-case hexadecimal, most significant digit first, with
/// leading zeros where it has fewer than `width` digits. No digit is ever
/// cut off: a value that needs more than `width` digits gets them all.
pub open spec fn hex_text(value: nat, width: nat) -> Seq<char>
    decreases value, width,
{
    if value < 16 && width <= 1 {
        seq![spec_hex_digit(value as int)]
    } else {
        let rest: nat = if width > 0 {
            (width - 1) as nat
        } else {
            0
        };
        hex_text(value / 16, rest).push(spec_hex_digit((value % 16) as int))
    }
}

/// What a byte shows as in the text column: itself where it is a space or a
/// visible ASCII character, a dot otherwise.
pub open spec fn spec_ascii_glyph(byte: u8) -> char {
    if 0x20 <= byte <= 0x7e {
        byte as char
    } else {
        '.'
    }
}

/// Computes the digit for `value`.
pub fn hex_digit(value: u8) -> (digit: char)
    requires
        value < 16,
    ensures
        digit == spec_hex_digit(value as int),
{
    if value < 10 {
        ('0' as u8 + value) as char
    } else {
        ('A' as u8 + (value - 10)) as char
    }
}

/// Computes what `byte` shows as in the text column.
pub fn ascii_glyph(byte: u8) -> (glyph: char)
    ensures
        glyph == spec_ascii_glyph(byte),
{
    if 0x20 <= byte && byte <= 0x7e {
        byte as char
    } else {
        '.'
    }
}

/// Appends `value` in hexadecimal to `text`, in at least `width` digits.
pub fn push_hex(text: &mut String, value: u64, width: usize)
    ensures
        final(text)@ == old(text)@ + hex_text(value as nat, width as nat),
    decreases value, width,
{
    if value >= 16 || width > 1 {
        let rest: usize = if width > 0 {
            width - 1
        } else {
            0
        };
        push_hex(text, value / 16, rest);
    }
    text.push(hex_digit((value % 16) as u8));
}

/// The address of a row: `offset` in at least eight hexadecimal digits.
pub fn address_text(offset: u64) -> (text: String)
    ensures
        text@ == hex_text(offset as nat, 8),
{
    let mut text = String::new();
    push_hex(&mut text, offset, 8);
    text
}

/// A byte in two hexadecimal digits.
pub fn byte_text(byte: u8) -> (text: String)
    ensures
        text@ == hex_text(byte as nat, 2),
{
    let mut text = String::new();
    push_hex(&mut text, byte as u64, 2);
    text
}

/// Hexadecimal text has at least `width` digits and at least one, and a
/// value that fits in `width` digits is shown in exactly that many.
pub proof fn lemma_hex_text_len(value: nat, width: nat)
    ensures
        hex_text(value, width).len() >= width,
        hex_text(value, width).len() >= 1,
        width >= 1 && value < pow(16, width) ==> hex_text(value, width).len() == width,
    decreases value, width,
{
    if value < 16 && width <= 1 {
    } else {
        let rest: nat = if width > 0 {
            (width - 1) as nat
        } else {
            0
        };
        lemma_hex_text_len(value / 16, rest);
        if width >= 1 {
            lemma_pow1(16);
            lemma_pow_adds(16, 1, rest);
        }
    }
}

/// Every character of hexadecimal text is a digit or one of `A` to `F`.
pub proof fn lemma_hex_text_chars(value: nat, width: nat, i: int)
    requires
        0 <= i < hex_text(value, width).len(),
    ensures
        ({
            let c = hex_text(value, width)[i];
            ('0' <= c <= '9') || ('A' <= c <= 'F')
        }),
    decreases value, width,
{
    if value < 16 && width <= 1 {
    } else {
        let rest: nat = if width > 0 {
            (width - 1) as nat
        } else {
            0
        };
        if i < hex_text(value / 16, rest).len() {
            lemma_hex_text_chars(value / 16, rest, i);
        }
    }
}

/// The digit `place` places from the right of hexadecimal text is the
/// remainder by sixteen of the value divided by sixteen to the power of
/// `place`.
pub proof fn lemma_hex_text_digit(value: nat, width: nat, place: nat)
    requires
        place < hex_text(value, width).len(),
    ensures
        hex_text(value, width)[hex_text(value, width).len() - 1 - place] == spec_hex_digit(
            (value as int / pow(16, place)) % 16,
        ),
    decreases value, width,
{
    if place == 0 {
        lemma_pow0(16);
    } else {
        let rest: nat = if width > 0 {
            (width - 1) as nat
        } else {
            0
        };
        let above = (place - 1) as nat;
        lemma_hex_text_digit(value / 16, rest, above);
        lemma_pow1(16);
        lemma_pow_adds(16, 1, above);
        lemma_pow_positive(16, above);
        lemma_div_denominator(value as int, 16, pow(16, above));
    }
}

} // verus!
