//! ECDSA signatures: from the DER form to the fixed-width form.
//!
//! A signature is a pair of unsigned integers R and S. Its DER form is a
//! SEQUENCE of two INTEGERs; its raw form is R and S in big-endian order, each
//! left-padded with zeros to the width of the curve.

use crate::algorithm::Algorithm;
use vstd::prelude::*;
use vstd::slice::slice_subrange;

verus! {

/// DER tag of a SEQUENCE.
pub const SEQUENCE_TAG: u8 = 0x30;

/// DER tag of an INTEGER.
pub const INTEGER_TAG: u8 = 0x02;

/// The bytes of an INTEGER without the zero that DER puts before a value whose
/// high bit is set. A lone zero is a value and stays.
pub open spec fn stripped(bytes: Seq<u8>) -> Seq<u8> {
    if bytes.len() > 1 && bytes[0] == 0 {
        bytes.skip(1)
    } else {
        bytes
    }
}

/// `bytes` with zeros in front, `width` bytes in all.
pub open spec fn left_padded(bytes: Seq<u8>, width: nat) -> Seq<u8> {
    Seq::new((width - bytes.len()) as nat, |i: int| 0u8) + bytes
}

/// Whether `der` starts with a SEQUENCE header of two bytes followed by two
/// INTEGERs whose lengths take one byte each. Neither the length in the
/// SEQUENCE header nor what follows the second INTEGER is looked at.
pub open spec fn is_der_signature(der: Seq<u8>) -> bool {
    &&& der.len() >= 6
    &&& der[0] == SEQUENCE_TAG
    &&& der[2] == INTEGER_TAG
    &&& 6 + der[3] <= der.len()
    &&& der[4 + der[3]] == INTEGER_TAG
    &&& 6 + der[3] + der[5 + der[3]] <= der.len()
}

/// The bytes of the first INTEGER of a DER signature.
pub open spec fn r_bytes(der: Seq<u8>) -> Seq<u8> {
    der.subrange(4, 4 + der[3])
}

/// The bytes of the second INTEGER of a DER signature.
pub open spec fn s_bytes(der: Seq<u8>) -> Seq<u8> {
    der.subrange(6 + der[3], 6 + der[3] + der[5 + der[3]])
}

/// Whether the integers `r` and `s` both fit in `width` bytes.
pub open spec fn fit(r: Seq<u8>, s: Seq<u8>, width: nat) -> bool {
    stripped(r).len() <= width && stripped(s).len() <= width
}

/// The raw form of the signature (`r`, `s`): each integer in `width` bytes.
pub open spec fn raw_form(r: Seq<u8>, s: Seq<u8>, width: nat) -> Seq<u8> {
    left_padded(stripped(r), width) + left_padded(stripped(s), width)
}

/// The raw form, for `alg`, of the signature that `der` holds, if it holds one
/// that has a raw form.
pub open spec fn der_to_raw(der: Seq<u8>, alg: Algorithm) -> Option<Seq<u8>> {
    match alg.component_len() {
        Some(width) => if is_der_signature(der) && fit(r_bytes(der), s_bytes(der), width) {
            Some(raw_form(r_bytes(der), s_bytes(der), width))
        } else {
            None
        },
        None => None,
    }
}

/// Removes the zero byte that DER puts before an unsigned INTEGER whose high
/// bit is set.
pub fn strip_der_leading_zero(bytes: &[u8]) -> (value: &[u8])
    ensures
        value@ == stripped(bytes@),
{
    if bytes.len() > 1 && bytes[0] == 0x00 {
        slice_subrange(bytes, 1, bytes.len())
    } else {
        bytes
    }
}

/// Appends `bytes` to `out`, with zeros before them to make `width` bytes.
fn push_left_padded(out: &mut Vec<u8>, bytes: &[u8], width: usize)
    requires
        bytes@.len() <= width,
    ensures
        final(out)@ == old(out)@ + left_padded(bytes@, width as nat),
{
    let zeros: usize = width - bytes.len();
    let mut i: usize = 0;
    while i < zeros
        invariant
            i <= zeros,
            out@ == old(out)@ + Seq::new(i as nat, |j: int| 0u8),
        decreases zeros - i,
    {
        out.push(0);
        i = i + 1;
    }
    let mut k: usize = 0;
    while k < bytes.len()
        invariant
            k <= bytes@.len(),
            zeros == width - bytes@.len(),
            out@ == old(out)@ + Seq::new(zeros as nat, |j: int| 0u8) + bytes@.take(k as int),
        decreases bytes@.len() - k,
    {
        out.push(bytes[k]);
        k = k + 1;
    }
    assert(bytes@.take(k as int) =~= bytes@);
}

/// Converts a DER-encoded ECDSA signature to its raw form R||S.
///
/// Returns `None` for the algorithms that are not ECDSA, for bytes that do not
/// start like a DER signature, and for integers too wide for the curve. A
/// caller then takes the bytes as they are: they may be in raw form already.
pub fn try_der_to_raw(der: &[u8], alg: Algorithm) -> (raw: Option<Vec<u8>>)
    ensures
        raw is Some <==> der_to_raw(der@, alg) is Some,
        raw matches Some(bytes) ==> der_to_raw(der@, alg) == Some(bytes@),
{
    let width: usize = match alg {
        Algorithm::ES256 => 32,
        Algorithm::ES384 => 48,
        _ => {
            return None;
        },
    };
    if der.len() < 6 || der[0] != SEQUENCE_TAG || der[2] != INTEGER_TAG {
        return None;
    }
    let r_len: usize = der[3] as usize;
    if der.len() - 4 < r_len {
        return None;
    }
    let r_slice = slice_subrange(der, 4, 4 + r_len);
    let pos: usize = 4 + r_len;
    if der.len() - pos < 2 || der[pos] != INTEGER_TAG {
        return None;
    }
    let s_len: usize = der[pos + 1] as usize;
    if der.len() - pos - 2 < s_len {
        return None;
    }
    let s_slice = slice_subrange(der, pos + 2, pos + 2 + s_len);

    let r = strip_der_leading_zero(r_slice);
    let s = strip_der_leading_zero(s_slice);
    if r.len() > width || s.len() > width {
        return None;
    }
    let mut raw: Vec<u8> = Vec::new();
    push_left_padded(&mut raw, r, width);
    push_left_padded(&mut raw, s, width);
    Some(raw)
}

/// The DER signature of the integers `r` and `s`: `length` is the length byte
/// of the SEQUENCE, `rest` what stands after it.
pub open spec fn der_form(length: u8, r: Seq<u8>, s: Seq<u8>, rest: Seq<u8>) -> Seq<u8> {
    seq![SEQUENCE_TAG, length, INTEGER_TAG, r.len() as u8] + r + seq![
        INTEGER_TAG,
        s.len() as u8,
    ] + s + rest
}

/// Every DER signature is read: its raw form holds exactly the two integers
/// that were written, and there is none where one is too wide for the curve.
pub proof fn law_der_form_is_read(
    length: u8,
    r: Seq<u8>,
    s: Seq<u8>,
    rest: Seq<u8>,
    alg: Algorithm,
)
    requires
        r.len() <= 255,
        s.len() <= 255,
        alg.component_len() is Some,
    ensures
        ({
            let width = alg.component_len()->0;
            der_to_raw(der_form(length, r, s, rest), alg) == if fit(r, s, width) {
                Some(raw_form(r, s, width))
            } else {
                None
            }
        }),
{
    let der = der_form(length, r, s, rest);
    assert(der[3] == r.len());
    assert(der[4 + r.len() as int] == INTEGER_TAG);
    assert(der[5 + r.len() as int] == s.len());
    assert(r_bytes(der) =~= r);
    assert(s_bytes(der) =~= s);
}

/// The unsigned integer that `bytes` spell in big-endian order.
pub open spec fn big_endian(bytes: Seq<u8>) -> nat
    decreases bytes.len(),
{
    if bytes.len() == 0 {
        0
    } else {
        256 * big_endian(bytes.drop_last()) + bytes.last() as nat
    }
}

proof fn lemma_leading_zero_adds_nothing(bytes: Seq<u8>)
    ensures
        big_endian(seq![0u8] + bytes) == big_endian(bytes),
    decreases bytes.len(),
{
    let longer = seq![0u8] + bytes;
    if bytes.len() == 0 {
        assert(longer.drop_last() =~= Seq::<u8>::empty());
        assert(big_endian(longer.drop_last()) == 0);
    } else {
        lemma_leading_zero_adds_nothing(bytes.drop_last());
        assert(longer.drop_last() =~= seq![0u8] + bytes.drop_last());
        assert(longer.last() == bytes.last());
    }
}

proof fn lemma_padding_adds_nothing(bytes: Seq<u8>, width: nat)
    requires
        bytes.len() <= width,
    ensures
        big_endian(left_padded(bytes, width)) == big_endian(bytes),
    decreases width - bytes.len(),
{
    if bytes.len() < width {
        let longer = seq![0u8] + bytes;
        lemma_padding_adds_nothing(longer, width);
        lemma_leading_zero_adds_nothing(bytes);
        assert(left_padded(longer, width) =~= left_padded(bytes, width));
    } else {
        assert(left_padded(bytes, width) =~= bytes);
    }
}

proof fn lemma_stripping_keeps_value(bytes: Seq<u8>)
    ensures
        big_endian(stripped(bytes)) == big_endian(bytes),
{
    if bytes.len() > 1 && bytes[0] == 0 {
        assert(bytes =~= seq![0u8] + bytes.skip(1));
        lemma_leading_zero_adds_nothing(bytes.skip(1));
    }
}

/// The conversion keeps both integers: the halves of the raw form spell the
/// same two numbers as the INTEGERs of the DER form.
pub proof fn law_conversion_keeps_integers(der: Seq<u8>, alg: Algorithm)
    requires
        der_to_raw(der, alg) is Some,
    ensures
        ({
            let width = alg.component_len()->0 as int;
            let raw = der_to_raw(der, alg)->0;
            &&& raw.len() == 2 * width
            &&& big_endian(raw.take(width)) == big_endian(r_bytes(der))
            &&& big_endian(raw.skip(width)) == big_endian(s_bytes(der))
        }),
{
    let width = alg.component_len()->0;
    let raw = der_to_raw(der, alg)->0;
    let r = stripped(r_bytes(der));
    let s = stripped(s_bytes(der));
    assert(raw.take(width as int) =~= left_padded(r, width));
    assert(raw.skip(width as int) =~= left_padded(s, width));
    lemma_padding_adds_nothing(r, width);
    lemma_padding_adds_nothing(s, width);
    lemma_stripping_keeps_value(r_bytes(der));
    lemma_stripping_keeps_value(s_bytes(der));
}

/// `bytes` without leading zeros, but for a last byte that is zero.
pub open spec fn without_leading_zeros(bytes: Seq<u8>) -> Seq<u8>
    decreases bytes.len(),
{
    if bytes.len() > 1 && bytes[0] == 0 {
        without_leading_zeros(bytes.skip(1))
    } else {
        bytes
    }
}

/// The shortest DER INTEGER for the unsigned number that `bytes` spell: a zero
/// stands before it where its high bit is set.
pub open spec fn der_integer(bytes: Seq<u8>) -> Seq<u8> {
    let short = without_leading_zeros(bytes);
    if short.len() > 0 && short[0] >= 0x80 {
        seq![0u8] + short
    } else {
        short
    }
}

proof fn lemma_padding_restores(bytes: Seq<u8>, width: nat)
    requires
        0 < bytes.len() <= width,
    ensures
        left_padded(without_leading_zeros(bytes), width) == left_padded(bytes, width),
        0 < without_leading_zeros(bytes).len() <= bytes.len(),
        without_leading_zeros(bytes).len() > 1 ==> without_leading_zeros(bytes)[0] != 0,
    decreases bytes.len(),
{
    if bytes.len() > 1 && bytes[0] == 0 {
        lemma_padding_restores(bytes.skip(1), width);
        assert(left_padded(bytes.skip(1), width) =~= left_padded(bytes, width));
    }
}

proof fn lemma_der_integer_is_read(bytes: Seq<u8>, width: nat)
    requires
        bytes.len() == width,
        width > 0,
    ensures
        stripped(der_integer(bytes)).len() <= width,
        left_padded(stripped(der_integer(bytes)), width) == bytes,
        der_integer(bytes).len() <= width + 1,
{
    let short = without_leading_zeros(bytes);
    lemma_padding_restores(bytes, width);
    assert(left_padded(bytes, width) =~= bytes);
    if short[0] >= 0x80 {
        assert((seq![0u8] + short).skip(1) =~= short);
    }
    assert(stripped(der_integer(bytes)) == short);
}

/// A raw signature that was written as DER comes back unchanged.
pub proof fn law_raw_survives_der(raw: Seq<u8>, alg: Algorithm, length: u8)
    requires
        alg.component_len() matches Some(width) && raw.len() == 2 * width,
    ensures
        ({
            let width = alg.component_len()->0 as int;
            let r = der_integer(raw.take(width));
            let s = der_integer(raw.skip(width));
            der_to_raw(der_form(length, r, s, Seq::empty()), alg) == Some(raw)
        }),
{
    let width = alg.component_len()->0;
    let high = raw.take(width as int);
    let low = raw.skip(width as int);
    lemma_der_integer_is_read(high, width);
    lemma_der_integer_is_read(low, width);
    law_der_form_is_read(length, der_integer(high), der_integer(low), Seq::empty(), alg);
    assert(high + low =~= raw);
}

/// Whether an integer, in the bytes of a DER INTEGER, fits the curve of `alg`: it
/// takes as many bytes as the curve's numbers, or fewer, or one more that is a
/// zero in front.
pub open spec fn integer_fits(bytes: Seq<u8>, alg: Algorithm) -> bool {
    match alg {
        Algorithm::ES256 => bytes.len() <= 32 || bytes.len() == 33 && bytes[0] == 0,
        Algorithm::ES384 => bytes.len() <= 48 || bytes.len() == 49 && bytes[0] == 0,
        _ => false,
    }
}

/// A DER signature written out: a sequence tag and a length byte, then two
/// integers, each after its tag and its length, then whatever follows.
pub open spec fn written_der(length: u8, r: Seq<u8>, s: Seq<u8>, rest: Seq<u8>) -> Seq<u8> {
    seq![0x30u8, length, 0x02u8, r.len() as u8] + r + seq![0x02u8, s.len() as u8] + s + rest
}

/// A DER signature whose integers fit the curve becomes the one text of the
/// curve's width that spells the same two numbers.
pub proof fn law_der_signature_becomes_its_integers(
    length: u8,
    r: Seq<u8>,
    s: Seq<u8>,
    rest: Seq<u8>,
    raw: Seq<u8>,
    alg: Algorithm,
)
    requires
        integer_fits(r, alg),
        integer_fits(s, alg),
        ({
            let width: int = if alg == Algorithm::ES256 {
                32
            } else {
                48
            };
            &&& raw.len() == 2 * width
            &&& big_endian(raw.take(width)) == big_endian(r)
            &&& big_endian(raw.skip(width)) == big_endian(s)
        }),
    ensures
        der_to_raw(written_der(length, r, s, rest), alg) == Some(raw),
{
    let der = written_der(length, r, s, rest);
    assert(der =~= der_form(length, r, s, rest));
    law_der_form_is_read(length, r, s, rest, alg);
    lemma_read_parts(length, r, s, rest);
    law_conversion_keeps_integers(der, alg);
    let width = alg.component_len()->0 as int;
    let found = der_to_raw(der, alg)->0;
    lemma_same_number(found.take(width), raw.take(width));
    lemma_same_number(found.skip(width), raw.skip(width));
    assert(found =~= found.take(width) + found.skip(width));
    assert(raw =~= raw.take(width) + raw.skip(width));
}

proof fn lemma_read_parts(length: u8, r: Seq<u8>, s: Seq<u8>, rest: Seq<u8>)
    requires
        r.len() <= 255,
        s.len() <= 255,
    ensures
        r_bytes(der_form(length, r, s, rest)) == r,
        s_bytes(der_form(length, r, s, rest)) == s,
{
    let der = der_form(length, r, s, rest);
    assert(der[3] == r.len());
    assert(der[5 + r.len() as int] == s.len());
    assert(r_bytes(der) =~= r);
    assert(s_bytes(der) =~= s);
}

/// Texts of the same length that spell the same number are the same.
proof fn lemma_same_number(a: Seq<u8>, b: Seq<u8>)
    requires
        a.len() == b.len(),
        big_endian(a) == big_endian(b),
    ensures
        a == b,
    decreases a.len(),
{
    if a.len() > 0 {
        let (high_a, high_b) = (big_endian(a.drop_last()), big_endian(b.drop_last()));
        assert(256 * high_a + a.last() == 256 * high_b + b.last());
        assert(high_a == high_b && a.last() == b.last());
        lemma_same_number(a.drop_last(), b.drop_last());
        assert(a =~= a.drop_last().push(a.last()));
        assert(b =~= b.drop_last().push(b.last()));
    } else {
        assert(a =~= b);
    }
}

/// Bytes are converted only where they are a sequence tag, any length byte, and
/// two integers that fit the curve, each after its tag and its length; what
/// follows is free. Without ECDSA nothing is converted.
pub proof fn law_der_form_is_needed(der: Seq<u8>, alg: Algorithm)
    requires
        ({
            ||| alg != Algorithm::ES256 && alg != Algorithm::ES384
            ||| forall|length: u8, r: Seq<u8>, s: Seq<u8>, rest: Seq<u8>|
                r.len() <= 255 && s.len() <= 255 && der == #[trigger] written_der(
                    length,
                    r,
                    s,
                    rest,
                ) ==> !(integer_fits(r, alg) && integer_fits(s, alg))
        }),
    ensures
        der_to_raw(der, alg) is None,
{
    if der_to_raw(der, alg) is Some {
        let (r, s) = (r_bytes(der), s_bytes(der));
        let rest = der.skip((6 + r.len() + s.len()) as int);
        assert(der =~= written_der(der[1], r, s, rest));
        assert(integer_fits(r, alg) && integer_fits(s, alg));
    }
}

} // verus!
