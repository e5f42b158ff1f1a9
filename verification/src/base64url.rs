//! URL-safe Base64 without padding, as RFC 4648 has it.

use crate::text::lacks;
use vstd::prelude::*;

verus! {

/// The character for six bits.
pub open spec fn symbol(bits: int) -> char {
    if bits < 26 {
        ('A' as int + bits) as char
    } else if bits < 52 {
        ('a' as int + bits - 26) as char
    } else if bits < 62 {
        ('0' as int + bits - 52) as char
    } else if bits == 62 {
        '-'
    } else {
        '_'
    }
}

/// Whether `c` is one of the 64 characters of the alphabet.
pub open spec fn is_symbol(c: char) -> bool {
    'A' <= c <= 'Z' || 'a' <= c <= 'z' || '0' <= c <= '9' || c == '-' || c == '_'
}

/// `bytes` in Base64: four characters for every three bytes. One byte that is
/// left takes two characters, two take three; the bits that they do not use are
/// zero.
pub open spec fn base64_encoded(bytes: Seq<u8>) -> Seq<char>
    decreases bytes.len(),
{
    if bytes.len() == 0 {
        Seq::empty()
    } else if bytes.len() == 1 {
        seq![symbol(bytes[0] as int / 4), symbol(bytes[0] as int % 4 * 16)]
    } else if bytes.len() == 2 {
        seq![
            symbol(bytes[0] as int / 4),
            symbol(bytes[0] as int % 4 * 16 + bytes[1] as int / 16),
            symbol(bytes[1] as int % 16 * 4),
        ]
    } else {
        seq![
            symbol(bytes[0] as int / 4),
            symbol(bytes[0] as int % 4 * 16 + bytes[1] as int / 16),
            symbol(bytes[1] as int % 16 * 4 + bytes[2] as int / 64),
            symbol(bytes[2] as int % 64),
        ] + base64_encoded(bytes.skip(3))
    }
}

/// The bytes that `text` is the Base64 form of, if it is that of any.
pub open spec fn base64_decoded(text: Seq<char>) -> Option<Seq<u8>> {
    if exists|bytes: Seq<u8>| #[trigger] base64_encoded(bytes) == text {
        Some(choose|bytes: Seq<u8>| #[trigger] base64_encoded(bytes) == text)
    } else {
        None
    }
}

proof fn lemma_symbol(bits: int)
    requires
        0 <= bits < 64,
    ensures
        is_symbol(symbol(bits)),
{
}

proof fn lemma_symbol_injective(a: int, b: int)
    requires
        0 <= a < 64,
        0 <= b < 64,
        symbol(a) == symbol(b),
    ensures
        a == b,
{
}

proof fn lemma_encoding_length(bytes: Seq<u8>)
    ensures
        bytes.len() == 0 ==> base64_encoded(bytes).len() == 0,
        bytes.len() == 1 ==> base64_encoded(bytes).len() == 2,
        bytes.len() == 2 ==> base64_encoded(bytes).len() == 3,
        bytes.len() >= 3 ==> base64_encoded(bytes).len() >= 4,
{
}

/// Base64 text holds the characters of the alphabet only; so neither a dot nor
/// padding.
pub proof fn law_base64_alphabet(bytes: Seq<u8>)
    ensures
        forall|i: int|
            0 <= i < base64_encoded(bytes).len() ==> is_symbol(#[trigger] base64_encoded(bytes)[i]),
        lacks(base64_encoded(bytes), '.'),
        lacks(base64_encoded(bytes), '='),
    decreases bytes.len(),
{
    if bytes.len() > 0 {
        let first = bytes[0] as int;
        lemma_symbol(first / 4);
        lemma_symbol(first % 4 * 16);
        if bytes.len() > 1 {
            let second = bytes[1] as int;
            lemma_symbol(first % 4 * 16 + second / 16);
            lemma_symbol(second % 16 * 4);
            if bytes.len() > 2 {
                let third = bytes[2] as int;
                lemma_symbol(second % 16 * 4 + third / 64);
                lemma_symbol(third % 64);
                law_base64_alphabet(bytes.skip(3));
            }
        }
    }
    let text = base64_encoded(bytes);
    assert forall|i: int| 0 <= i < text.len() implies is_symbol(#[trigger] text[i]) by {
        if bytes.len() > 2 && i >= 4 {
            assert(text[i] == base64_encoded(bytes.skip(3))[i - 4]);
        }
    }
}

/// Different bytes have different Base64 forms.
pub proof fn law_base64_injective(a: Seq<u8>, b: Seq<u8>)
    requires
        base64_encoded(a) == base64_encoded(b),
    ensures
        a == b,
    decreases a.len(),
{
    lemma_encoding_length(a);
    lemma_encoding_length(b);
    let text = base64_encoded(a);
    if a.len() == 0 {
        assert(a =~= b);
    } else {
        let (a0, b0) = (a[0] as int, b[0] as int);
        assert(text[0] == symbol(a0 / 4) && text[0] == symbol(b0 / 4));
        lemma_symbol_injective(a0 / 4, b0 / 4);
        if a.len() == 1 {
            assert(text[1] == symbol(a0 % 4 * 16) && text[1] == symbol(b0 % 4 * 16));
            lemma_symbol_injective(a0 % 4 * 16, b0 % 4 * 16);
            assert(a =~= b);
        } else {
            let (a1, b1) = (a[1] as int, b[1] as int);
            assert(text[1] == symbol(a0 % 4 * 16 + a1 / 16));
            assert(text[1] == symbol(b0 % 4 * 16 + b1 / 16));
            lemma_symbol_injective(a0 % 4 * 16 + a1 / 16, b0 % 4 * 16 + b1 / 16);
            if a.len() == 2 {
                assert(text[2] == symbol(a1 % 16 * 4) && text[2] == symbol(b1 % 16 * 4));
                lemma_symbol_injective(a1 % 16 * 4, b1 % 16 * 4);
                assert(a =~= b);
            } else {
                let (a2, b2) = (a[2] as int, b[2] as int);
                assert(text[2] == symbol(a1 % 16 * 4 + a2 / 64));
                assert(text[2] == symbol(b1 % 16 * 4 + b2 / 64));
                lemma_symbol_injective(a1 % 16 * 4 + a2 / 64, b1 % 16 * 4 + b2 / 64);
                assert(text[3] == symbol(a2 % 64) && text[3] == symbol(b2 % 64));
                lemma_symbol_injective(a2 % 64, b2 % 64);
                assert(base64_encoded(a.skip(3)) =~= text.skip(4));
                assert(base64_encoded(b.skip(3)) =~= text.skip(4));
                law_base64_injective(a.skip(3), b.skip(3));
                assert(a =~= seq![a[0], a[1], a[2]] + a.skip(3));
                assert(b =~= seq![b[0], b[1], b[2]] + b.skip(3));
            }
        }
    }
}

/// Decoding a Base64 text gives back the bytes that it was made of.
pub proof fn law_base64_round_trip(bytes: Seq<u8>)
    ensures
        base64_decoded(base64_encoded(bytes)) == Some(bytes),
{
    let found = base64_decoded(base64_encoded(bytes))->0;
    law_base64_injective(found, bytes);
}

} // verus!
