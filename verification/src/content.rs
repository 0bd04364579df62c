//! The content encoding: file bytes as base64 text, standard alphabet,
//! padded.

use base64::Engine;
use vstd::prelude::*;

verus! {

/// The character that stands for the six-bit value `v` in the standard
/// alphabet: `A`-`Z`, `a`-`z`, `0`-`9`, `+`, `/`.
pub open spec fn alphabet_char(v: int) -> char {
    if v < 26 {
        (v + 65) as char
    } else if v < 52 {
        (v + 71) as char
    } else if v < 62 {
        (v - 4) as char
    } else if v == 62 {
        '+'
    } else {
        '/'
    }
}

/// The six-bit value that `c` stands for in the standard alphabet, or
/// -1 if `c` is not of the alphabet.
pub open spec fn alphabet_value(c: char) -> int {
    if 'A' <= c <= 'Z' {
        c as int - 65
    } else if 'a' <= c <= 'z' {
        c as int - 71
    } else if '0' <= c <= '9' {
        c as int + 4
    } else if c == '+' {
        62
    } else if c == '/' {
        63
    } else {
        -1
    }
}

/// The base64 text of `bytes`. Each three bytes give four characters:
/// their 24 bits cut into four six-bit values, the most significant
/// first. One or two bytes left at the end give two or three characters,
/// the missing bits taken as zero, and `=` fills the group of four.
pub open spec fn base64_encoding(bytes: Seq<u8>) -> Seq<char>
    decreases bytes.len(),
{
    if bytes.len() == 0 {
        Seq::empty()
    } else if bytes.len() == 1 {
        let a = bytes[0] as int;
        seq![alphabet_char(a / 4), alphabet_char((a % 4) * 16), '=', '=']
    } else if bytes.len() == 2 {
        let a = bytes[0] as int;
        let b = bytes[1] as int;
        seq![
            alphabet_char(a / 4),
            alphabet_char((a % 4) * 16 + b / 16),
            alphabet_char((b % 16) * 4),
            '=',
        ]
    } else {
        let a = bytes[0] as int;
        let b = bytes[1] as int;
        let c = bytes[2] as int;
        seq![
            alphabet_char(a / 4),
            alphabet_char((a % 4) * 16 + b / 16),
            alphabet_char((b % 16) * 4 + c / 64),
            alphabet_char(c % 64),
        ] + base64_encoding(bytes.skip(3))
    }
}

/// The bytes that base64 text stands for, or `None` if it is not the
/// padded base64 text of any bytes.
pub open spec fn base64_decoding(text: Seq<char>) -> Option<Seq<u8>>
    decreases text.len(),
{
    if text.len() == 0 {
        Some(Seq::empty())
    } else if text.len() < 4 {
        None
    } else {
        let v0 = alphabet_value(text[0]);
        let v1 = alphabet_value(text[1]);
        let v2 = alphabet_value(text[2]);
        let v3 = alphabet_value(text[3]);
        if v0 < 0 || v1 < 0 {
            None
        } else if text.len() == 4 && text[2] == '=' && text[3] == '=' {
            if v1 % 16 == 0 {
                Some(seq![(v0 * 4 + v1 / 16) as u8])
            } else {
                None
            }
        } else if v2 < 0 {
            None
        } else if text.len() == 4 && text[3] == '=' {
            if v2 % 4 == 0 {
                Some(seq![(v0 * 4 + v1 / 16) as u8, ((v1 % 16) * 16 + v2 / 4) as u8])
            } else {
                None
            }
        } else if v3 < 0 {
            None
        } else {
            match base64_decoding(text.skip(4)) {
                Some(rest) => Some(
                    seq![
                        (v0 * 4 + v1 / 16) as u8,
                        ((v1 % 16) * 16 + v2 / 4) as u8,
                        ((v2 % 4) * 64 + v3) as u8,
                    ] + rest,
                ),
                None => None,
            }
        }
    }
}

/// How many characters the base64 text of `n` bytes has.
pub open spec fn encoded_len(n: nat) -> nat {
    4 * ((n + 2) / 3)
}

/// Every six-bit value has a character of its own, and `=` is none of
/// them.
pub proof fn lemma_alphabet_value_of_char(v: int)
    requires
        0 <= v < 64,
    ensures
        alphabet_value(alphabet_char(v)) == v,
        alphabet_char(v) != '=',
{
}

/// The base64 text of `n` bytes has `encoded_len(n)` characters.
pub proof fn lemma_encoding_len(bytes: Seq<u8>)
    ensures
        base64_encoding(bytes).len() == encoded_len(bytes.len()),
    decreases bytes.len(),
{
    if bytes.len() >= 3 {
        lemma_encoding_len(bytes.skip(3));
    }
}

/// Decoding the base64 text of any bytes gives back exactly those bytes.
pub proof fn lemma_decoding_inverts_encoding(bytes: Seq<u8>)
    ensures
        base64_decoding(base64_encoding(bytes)) == Some(bytes),
    decreases bytes.len(),
{
    let text = base64_encoding(bytes);
    if bytes.len() == 0 {
        assert(bytes =~= Seq::<u8>::empty());
    } else {
        let a = bytes[0] as int;
        lemma_alphabet_value_of_char(a / 4);
        if bytes.len() == 1 {
            lemma_alphabet_value_of_char((a % 4) * 16);
            assert(seq![a as u8] =~= bytes);
        } else {
            let b = bytes[1] as int;
            lemma_alphabet_value_of_char((a % 4) * 16 + b / 16);
            if bytes.len() == 2 {
                lemma_alphabet_value_of_char((b % 16) * 4);
                assert(seq![a as u8, b as u8] =~= bytes);
            } else {
                let c = bytes[2] as int;
                lemma_alphabet_value_of_char((b % 16) * 4 + c / 64);
                lemma_alphabet_value_of_char(c % 64);
                let rest = bytes.skip(3);
                lemma_decoding_inverts_encoding(rest);
                assert(text.skip(4) =~= base64_encoding(rest));
                assert(seq![a as u8, b as u8, c as u8] + rest =~= bytes);
            }
        }
    }
}

/// Whether the base64 text of `len` bytes has a length that fits `usize`.
pub fn fits_encoding(len: usize) -> (fits: bool)
    ensures
        fits == (encoded_len(len as nat) <= usize::MAX),
{
    let groups: usize = if len % 3 == 0 {
        len / 3
    } else {
        len / 3 + 1
    };
    groups <= usize::MAX / 4
}

/// Calls `encode` of the base64 crate's `STANDARD` engine, which gives
/// the text of the bytes in the standard alphabet with padding. It
/// panics where the length of that text does not fit `usize`, so such
/// input is left out.
#[verifier::external_body]
fn standard_encode(bytes: &[u8]) -> (text: String)
    requires
        encoded_len(bytes@.len()) <= usize::MAX,
    ensures
        text@ == base64_encoding(bytes@),
{
    base64::engine::general_purpose::STANDARD.encode(bytes)
}

/// The base64 text of `bytes`, from which the bytes can be had back
/// unchanged.
pub fn encode_content(bytes: &[u8]) -> (text: String)
    requires
        encoded_len(bytes@.len()) <= usize::MAX,
    ensures
        text@ == base64_encoding(bytes@),
        text@.len() == encoded_len(bytes@.len()),
        base64_decoding(text@) == Some(bytes@),
{
    proof {
        lemma_encoding_len(bytes@);
        lemma_decoding_inverts_encoding(bytes@);
    }
    standard_encode(bytes)
}

} // verus!
