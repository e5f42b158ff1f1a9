use gateway_auth::{strip_der_leading_zero, try_der_to_raw, Algorithm};

fn der(r: &[u8], s: &[u8]) -> Vec<u8> {
    let mut bytes = vec![0x30, (r.len() + s.len() + 4) as u8, 0x02, r.len() as u8];
    bytes.extend_from_slice(r);
    bytes.push(0x02);
    bytes.push(s.len() as u8);
    bytes.extend_from_slice(s);
    bytes
}

#[test]
fn test_try_der_to_raw_non_der_passthrough() {
    // 64 bytes of raw R||S, not DER.
    let raw = vec![0x01; 64];
    assert!(try_der_to_raw(&raw, Algorithm::ES256).is_none());
}

#[test]
fn test_try_der_to_raw_valid_der() {
    // SEQUENCE { INTEGER(r, 32 bytes), INTEGER(s, 32 bytes) }
    let r = vec![0x01; 32];
    let s = vec![0x02; 32];
    let mut der = vec![0x30, 68];
    der.push(0x02);
    der.push(32);
    der.extend_from_slice(&r);
    der.push(0x02);
    der.push(32);
    der.extend_from_slice(&s);

    let raw = try_der_to_raw(&der, Algorithm::ES256).expect("should parse DER");
    assert_eq!(raw.len(), 64);
    assert_eq!(&raw[..32], &r[..]);
    assert_eq!(&raw[32..], &s[..]);
}

#[test]
fn test_try_der_to_raw_with_leading_zero() {
    // DER adds a 0x00 prefix when the high bit of an INTEGER is set.
    let r = {
        let mut v = vec![0x00];
        v.extend_from_slice(&[0x80; 32]);
        v
    };
    let s = vec![0x01; 32];
    let mut der = vec![0x30, 69];
    der.push(0x02);
    der.push(33);
    der.extend_from_slice(&r);
    der.push(0x02);
    der.push(32);
    der.extend_from_slice(&s);

    let raw = try_der_to_raw(&der, Algorithm::ES256).expect("should parse DER");
    assert_eq!(raw.len(), 64);
    // R should have the leading zero stripped.
    assert_eq!(raw[0], 0x80);
}

#[test]
fn test_strip_der_leading_zero() {
    assert_eq!(strip_der_leading_zero(&[0x00, 0x80, 0x01]), &[0x80, 0x01]);
    assert_eq!(strip_der_leading_zero(&[0x80, 0x01]), &[0x80, 0x01]);
    assert_eq!(strip_der_leading_zero(&[0x00]), &[0x00]);
}

#[test]
fn short_integers_are_padded() {
    let raw = try_der_to_raw(&der(&[7], &[1, 2]), Algorithm::ES256).unwrap();
    let mut expected = vec![0u8; 64];
    expected[31] = 7;
    expected[62] = 1;
    expected[63] = 2;
    assert_eq!(raw, expected);

    let raw = try_der_to_raw(&der(&[7], &[1, 2]), Algorithm::ES384).unwrap();
    let mut expected = vec![0u8; 96];
    expected[47] = 7;
    expected[94] = 1;
    expected[95] = 2;
    assert_eq!(raw, expected);
}

#[test]
fn empty_integers_are_zero() {
    let raw = try_der_to_raw(&der(&[], &[]), Algorithm::ES256).unwrap();
    assert_eq!(raw, vec![0u8; 64]);
}

#[test]
fn integers_must_fit_the_curve() {
    assert!(try_der_to_raw(&der(&[1; 33], &[1; 32]), Algorithm::ES256).is_none());
    assert!(try_der_to_raw(&der(&[1; 32], &[1; 33]), Algorithm::ES256).is_none());
    assert!(try_der_to_raw(&der(&[1; 33], &[1; 33]), Algorithm::ES384).is_some());
    // Only one leading zero is taken off.
    let mut two_zeros = vec![0, 0];
    two_zeros.extend_from_slice(&[1; 32]);
    assert!(try_der_to_raw(&der(&two_zeros, &[1; 32]), Algorithm::ES256).is_none());
}

#[test]
fn only_ecdsa_signatures_are_converted() {
    let bytes = der(&[1; 32], &[2; 32]);
    for alg in [
        Algorithm::HS256,
        Algorithm::HS384,
        Algorithm::HS512,
        Algorithm::RS256,
        Algorithm::RS384,
        Algorithm::RS512,
        Algorithm::PS256,
        Algorithm::PS384,
        Algorithm::PS512,
        Algorithm::EdDSA,
    ] {
        assert!(try_der_to_raw(&bytes, alg).is_none());
    }
}

#[test]
fn truncated_signatures_are_not_der() {
    let bytes = der(&[1; 32], &[2; 32]);
    for len in 0..bytes.len() {
        assert!(try_der_to_raw(&bytes[..len], Algorithm::ES256).is_none());
    }
    assert!(try_der_to_raw(&bytes, Algorithm::ES256).is_some());
}

#[test]
fn wrong_tags_are_not_der() {
    let bytes = der(&[1; 32], &[2; 32]);
    for at in [0, 2, 36] {
        let mut changed = bytes.clone();
        changed[at] = 0x05;
        assert!(try_der_to_raw(&changed, Algorithm::ES256).is_none());
    }
}

#[test]
fn sequence_length_and_trailing_bytes_are_not_looked_at() {
    let mut bytes = der(&[1; 32], &[2; 32]);
    let raw = try_der_to_raw(&bytes, Algorithm::ES256);
    bytes[1] = 0;
    bytes.push(9);
    assert_eq!(try_der_to_raw(&bytes, Algorithm::ES256), raw);
}

#[test]
fn raw_signature_survives_der() {
    let mut raw = vec![0u8; 64];
    raw[3] = 0x90;
    raw[31] = 5;
    raw[32] = 0x7f;
    raw[63] = 1;
    let mut r = vec![0u8];
    r.extend_from_slice(&raw[3..32]);
    let bytes = der(&r, &raw[32..]);
    assert_eq!(try_der_to_raw(&bytes, Algorithm::ES256), Some(raw));
}
