//! The base64 encoding of bytes, with the standard alphabet and with padding.

use vstd::prelude::*;
use vstd::string::*;

verus! {

/// The sixty-four digits of the encoding, in the order of their values.
pub const ALPHABET: &'static str =
    "ABCDEFGHIJKLMNOPQRSTUVWXYZabcdefghijklmnopqrstuvwxyz0123456789+/";

/// What fills the last group of four where the bytes run out.
pub const PADDING: &'static str = "=";

/// The digit that stands for `value`, a number of six bits.
pub open spec fn digit(value: int) -> char {
    ALPHABET@[value]
}

/// The padding character.
pub open spec fn padding() -> char {
    PADDING@[0]
}

/// The encoding of `bytes`: every three bytes give four digits of six bits
/// each, most significant bits first. One or two bytes left over give two or
/// three digits, the missing bits taken as zero, and padding up to four
/// characters.
pub open spec fn base64(bytes: Seq<u8>) -> Seq<char>
    decreases bytes.len(),
{
    let first = bytes[0] as int;
    let second = bytes[1] as int;
    let third = bytes[2] as int;
    if bytes.len() == 0 {
        Seq::empty()
    } else if bytes.len() == 1 {
        seq![digit(first / 4), digit((first % 4) * 16), padding(), padding()]
    } else if bytes.len() == 2 {
        seq![
            digit(first / 4),
            digit((first % 4) * 16 + second / 16),
            digit((second % 16) * 4),
            padding(),
        ]
    } else {
        seq![
            digit(first / 4),
            digit((first % 4) * 16 + second / 16),
            digit((second % 16) * 4 + third / 64),
            digit(third % 64),
        ] + base64(bytes.skip(3))
    }
}

/// Adds the digit that stands for `value` to `text`.
fn push_digit(text: &mut String, value: u8)
    requires
        value < 64,
    ensures
        final(text)@ == old(text)@.push(digit(value as int)),
{
    proof {
        reveal_strlit("ABCDEFGHIJKLMNOPQRSTUVWXYZabcdefghijklmnopqrstuvwxyz0123456789+/");
    }
    let place: usize = value as usize;
    let one = ALPHABET.substring_ascii(place, place + 1);
    assert(one@ =~= seq![digit(value as int)]);
    text.append(one);
    assert(text@ =~= old(text)@.push(digit(value as int)));
}

/// Adds the padding character to `text`.
fn push_padding(text: &mut String)
    ensures
        final(text)@ == old(text)@.push(padding()),
{
    proof {
        reveal_strlit("=");
    }
    assert(PADDING@ =~= seq![padding()]);
    text.append(PADDING);
    assert(text@ =~= old(text)@.push(padding()));
}

/// Encodes `bytes`.
pub fn encode(bytes: &[u8]) -> (text: String)
    ensures
        text@ == base64(bytes@),
{
    let n: usize = bytes.len();
    let mut text = String::new();
    let mut i: usize = 0;
    assert(bytes@.skip(0) =~= bytes@);
    assert(text@ + base64(bytes@) =~= base64(bytes@));
    while n - i >= 3
        invariant
            i <= n,
            n == bytes@.len(),
            text@ + base64(bytes@.skip(i as int)) == base64(bytes@),
        decreases n - i,
    {
        let ghost before = text@;
        let ghost rest = bytes@.skip(i as int);
        let first: u8 = bytes[i];
        let second: u8 = bytes[i + 1];
        let third: u8 = bytes[i + 2];
        push_digit(&mut text, first / 4);
        push_digit(&mut text, (first % 4) * 16 + second / 16);
        push_digit(&mut text, (second % 16) * 4 + third / 64);
        push_digit(&mut text, third % 64);
        proof {
            assert(rest.skip(3) =~= bytes@.skip(i + 3));
            assert(text@ =~= before + seq![
                digit(first as int / 4),
                digit((first as int % 4) * 16 + second as int / 16),
                digit((second as int % 16) * 4 + third as int / 64),
                digit(third as int % 64),
            ]);
            assert(text@ + base64(rest.skip(3)) =~= before + base64(rest));
        }
        i += 3;
    }
    let ghost before = text@;
    let ghost rest = bytes@.skip(i as int);
    if n - i == 1 {
        let first: u8 = bytes[i];
        push_digit(&mut text, first / 4);
        push_digit(&mut text, (first % 4) * 16);
        push_padding(&mut text);
        push_padding(&mut text);
        assert(text@ =~= before + base64(rest));
    } else if n - i == 2 {
        let first: u8 = bytes[i];
        let second: u8 = bytes[i + 1];
        push_digit(&mut text, first / 4);
        push_digit(&mut text, (first % 4) * 16 + second / 16);
        push_digit(&mut text, (second % 16) * 4);
        push_padding(&mut text);
        assert(text@ =~= before + base64(rest));
    } else {
        assert(text@ =~= before + base64(rest));
    }
    text
}

} // verus!
