//! Hexadecimal text, as bytes of ASCII.

use vstd::prelude::*;

verus! {

/// Whether `c` is an ASCII hexadecimal digit, of either case.
pub open spec fn is_hex_digit(c: u8) -> bool {
    (0x30 <= c <= 0x39) || (0x61 <= c <= 0x66) || (0x41 <= c <= 0x46)
}

/// The number that the hexadecimal digit `c` stands for.
pub open spec fn digit_value(c: u8) -> int
    recommends
        is_hex_digit(c),
{
    if c <= 0x39 {
        c - 0x30
    } else if c >= 0x61 {
        c - 0x61 + 10
    } else {
        c - 0x41 + 10
    }
}

/// The lower-case hexadecimal digit for `n`.
pub open spec fn digit_of(n: int) -> u8
    recommends
        0 <= n < 16,
{
    if n < 10 {
        (0x30 + n) as u8
    } else {
        (0x61 + n - 10) as u8
    }
}

/// Whether every byte of `text` is a hexadecimal digit.
pub open spec fn all_hex(text: Seq<u8>) -> bool {
    forall|i: int| 0 <= i < text.len() ==> is_hex_digit(#[trigger] text[i])
}

/// The lower-case hexadecimal text of `bytes`: two digits a byte, the high
/// half first.
pub open spec fn encoded(bytes: Seq<u8>) -> Seq<u8> {
    Seq::new(
        2 * bytes.len(),
        |i: int|
            if i % 2 == 0 {
                digit_of(bytes[i / 2] as int / 16)
            } else {
                digit_of(bytes[i / 2] as int % 16)
            },
    )
}

/// The bytes that hexadecimal `text` of even length spells out.
pub open spec fn decoded(text: Seq<u8>) -> Seq<u8>
    recommends
        text.len() % 2 == 0,
        all_hex(text),
{
    Seq::new(
        text.len() / 2,
        |i: int| (digit_value(text[2 * i]) * 16 + digit_value(text[2 * i + 1])) as u8,
    )
}

/// Whether `text` spells out bytes: digits only, and an even number of them.
pub open spec fn decodable(text: Seq<u8>) -> bool {
    text.len() % 2 == 0 && all_hex(text)
}

/// Tests a byte for being a hexadecimal digit.
pub fn is_digit(c: u8) -> (res: bool)
    ensures
        res == is_hex_digit(c),
{
    (0x30 <= c && c <= 0x39) || (0x61 <= c && c <= 0x66) || (0x41 <= c && c <= 0x46)
}

fn value_of(c: u8) -> (res: u8)
    requires
        is_hex_digit(c),
    ensures
        res == digit_value(c),
        res < 16,
{
    if c <= 0x39 {
        c - 0x30
    } else if c >= 0x61 {
        c - 0x61 + 10
    } else {
        c - 0x41 + 10
    }
}

fn digit(n: u8) -> (res: u8)
    requires
        n < 16,
    ensures
        res == digit_of(n as int),
        is_hex_digit(res),
        res != 0x5f,
{
    if n < 10 {
        0x30 + n
    } else {
        0x61 + (n - 10)
    }
}

/// Writes `bytes` as lower-case hexadecimal text.
pub fn encode(bytes: &[u8]) -> (res: Vec<u8>)
    ensures
        res@ == encoded(bytes@),
{
    let mut out: Vec<u8> = Vec::new();
    let mut i: usize = 0;
    while i < bytes.len()
        invariant
            i <= bytes.len(),
            out@.len() == 2 * i,
            forall|j: int| 0 <= j < out@.len() ==> out@[j] == encoded(bytes@)[j],
        decreases bytes.len() - i,
    {
        let b: u8 = bytes[i];
        out.push(digit(b / 16));
        out.push(digit(b % 16));
        i = i + 1;
    }
    assert(out@ =~= encoded(bytes@));
    out
}

/// Reads hexadecimal text back into bytes; `None` where `text` holds
/// anything but digits, or an odd number of them.
pub fn decode(text: &[u8]) -> (res: Option<Vec<u8>>)
    ensures
        res is Some <==> decodable(text@),
        res matches Some(bytes) ==> bytes@ == decoded(text@),
{
    if text.len() % 2 != 0 {
        return None;
    }
    let mut out: Vec<u8> = Vec::new();
    let mut i: usize = 0;
    while i < text.len()
        invariant
            text.len() % 2 == 0,
            i % 2 == 0,
            i <= text.len(),
            out@.len() == i / 2,
            forall|j: int| 0 <= j < i ==> is_hex_digit(#[trigger] text@[j]),
            forall|j: int| 0 <= j < out@.len() ==> out@[j] == decoded(text@)[j],
        decreases text.len() - i,
    {
        let hi: u8 = text[i];
        let lo: u8 = text[i + 1];
        if !is_digit(hi) || !is_digit(lo) {
            assert(!all_hex(text@));
            return None;
        }
        out.push(value_of(hi) * 16 + value_of(lo));
        i = i + 2;
    }
    assert(out@ =~= decoded(text@));
    Some(out)
}

/// Decoding undoes encoding.
pub proof fn lemma_decode_encode(bytes: Seq<u8>)
    ensures
        decodable(encoded(bytes)),
        decoded(encoded(bytes)) == bytes,
{
    let text = encoded(bytes);
    assert forall|i: int| 0 <= i < text.len() implies is_hex_digit(#[trigger] text[i]) by {
        lemma_digit_of(bytes[i / 2] as int / 16);
        lemma_digit_of(bytes[i / 2] as int % 16);
    }
    assert forall|i: int| 0 <= i < bytes.len() implies decoded(text)[i] == bytes[i] by {
        lemma_digit_of(bytes[i] as int / 16);
        lemma_digit_of(bytes[i] as int % 16);
        assert((2 * i) % 2 == 0 && (2 * i) / 2 == i);
        assert((2 * i + 1) % 2 == 1 && (2 * i + 1) / 2 == i);
    }
    assert(decoded(text) =~= bytes);
}

/// A digit written for a half byte is a lower-case digit that reads back as
/// that half byte.
pub proof fn lemma_digit_of(n: int)
    requires
        0 <= n < 16,
    ensures
        is_hex_digit(digit_of(n)),
        digit_value(digit_of(n)) == n,
        digit_of(n) != 0x5f,
{
}

} // verus!
