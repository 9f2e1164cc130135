use secure_sign::{der_to_p1363_internal, ErrorKind};

/// DER-encode the signature (r, s) from magnitude bytes, the way a strict
/// encoder does: minimal big-endian content with sign padding.
fn der_encode(r_mag: &[u8], s_mag: &[u8]) -> Vec<u8> {
    fn der_int(mag: &[u8]) -> Vec<u8> {
        let mut content: Vec<u8> = Vec::new();
        if mag.is_empty() || mag[0] >= 0x80 {
            content.push(0);
        }
        content.extend_from_slice(mag);
        let mut out = vec![0x02, content.len() as u8];
        out.extend_from_slice(&content);
        out
    }
    let mut body = der_int(r_mag);
    body.extend_from_slice(&der_int(s_mag));
    let mut out = vec![0x30, body.len() as u8];
    out.extend_from_slice(&body);
    out
}

fn padded(mag: &[u8]) -> [u8; 32] {
    let mut out = [0u8; 32];
    out[32 - mag.len()..].copy_from_slice(mag);
    out
}

#[test]
fn small_components_round_trip() {
    let der = der_encode(&[1], &[2]);
    assert_eq!(der, vec![0x30, 0x06, 0x02, 0x01, 0x01, 0x02, 0x01, 0x02]);
    let out = der_to_p1363_internal(&der).unwrap();
    assert_eq!(&out[..32], &padded(&[1]));
    assert_eq!(&out[32..], &padded(&[2]));
}

#[test]
fn sign_padded_components_round_trip() {
    // Leading magnitude byte with the top bit set forces one zero byte of
    // DER sign padding, which the converter must strip again.
    let r_mag = [0x80u8];
    let s_mag = [0xFFu8; 32];
    let der = der_encode(&r_mag, &s_mag);
    let out = der_to_p1363_internal(&der).unwrap();
    assert_eq!(&out[..32], &padded(&r_mag));
    assert_eq!(&out[32..], &s_mag);
}

#[test]
fn full_width_components_round_trip() {
    let r_mag: Vec<u8> = (1..=32).collect();
    let s_mag: Vec<u8> = (1..=32).rev().collect();
    let der = der_encode(&r_mag, &s_mag);
    let out = der_to_p1363_internal(&der).unwrap();
    assert_eq!(&out[..32], r_mag.as_slice());
    assert_eq!(&out[32..], s_mag.as_slice());
}

#[test]
fn zero_component_is_thirty_two_zero_bytes() {
    let der = der_encode(&[], &[7]);
    assert_eq!(der, vec![0x30, 0x06, 0x02, 0x01, 0x00, 0x02, 0x01, 0x07]);
    let out = der_to_p1363_internal(&der).unwrap();
    assert_eq!(&out[..32], &[0u8; 32]);
    assert_eq!(&out[32..], &padded(&[7]));
}

#[test]
fn agrees_with_reference_encoder() {
    // Encode a fixed signature with the ecdsa crate and feed its DER form
    // to the converter: the original 64 raw bytes must come back.
    let mut raw = [0u8; 64];
    for i in 0..32 {
        raw[i] = (i + 1) as u8;
        raw[32 + i] = (64 - i) as u8;
    }
    let sig = p256::ecdsa::Signature::from_slice(&raw).unwrap();
    let der = sig.to_der();
    let out = der_to_p1363_internal(der.as_bytes()).unwrap();
    assert_eq!(out, raw);
}

#[test]
fn empty_and_short_inputs_rejected() {
    assert_eq!(der_to_p1363_internal(&[]), Err(ErrorKind::MalformedSignature));
    assert_eq!(
        der_to_p1363_internal(&[0x30, 0x04, 0x02, 0x01, 0x01]),
        Err(ErrorKind::MalformedSignature)
    );
}

#[test]
fn wrong_tags_rejected() {
    let mut der = der_encode(&[1], &[2]);
    der[0] = 0x31;
    assert_eq!(der_to_p1363_internal(&der), Err(ErrorKind::MalformedSignature));
    let mut der = der_encode(&[1], &[2]);
    der[2] = 0x03;
    assert_eq!(der_to_p1363_internal(&der), Err(ErrorKind::MalformedSignature));
    let mut der = der_encode(&[1], &[2]);
    der[5] = 0x03;
    assert_eq!(der_to_p1363_internal(&der), Err(ErrorKind::MalformedSignature));
}

#[test]
fn trailing_bytes_rejected() {
    let mut der = der_encode(&[1], &[2]);
    der.push(0x00);
    assert_eq!(der_to_p1363_internal(&der), Err(ErrorKind::MalformedSignature));
}

#[test]
fn wrong_outer_length_rejected() {
    let mut der = der_encode(&[1], &[2]);
    der[1] = der[1] + 1;
    assert_eq!(der_to_p1363_internal(&der), Err(ErrorKind::MalformedSignature));
}

#[test]
fn negative_component_rejected() {
    // 0x81 with no sign padding is a negative DER integer.
    let der = vec![0x30, 0x06, 0x02, 0x01, 0x81, 0x02, 0x01, 0x02];
    assert_eq!(der_to_p1363_internal(&der), Err(ErrorKind::MalformedSignature));
}

#[test]
fn non_minimal_component_rejected() {
    // A redundant leading zero before a byte without its top bit set.
    let der = vec![0x30, 0x07, 0x02, 0x02, 0x00, 0x05, 0x02, 0x01, 0x02];
    assert_eq!(der_to_p1363_internal(&der), Err(ErrorKind::MalformedSignature));
}

#[test]
fn oversized_component_rejected() {
    // 33 magnitude bytes never fit a 32-byte P1363 slot.
    let mut r_mag = vec![0x01u8];
    r_mag.extend_from_slice(&[0u8; 32]);
    let der = der_encode(&r_mag, &[2]);
    assert_eq!(der_to_p1363_internal(&der), Err(ErrorKind::MalformedSignature));
}

#[test]
fn long_form_length_rejected() {
    // Long-form lengths are never minimal for a signature this small.
    let der = vec![0x30, 0x81, 0x06, 0x02, 0x01, 0x01, 0x02, 0x01, 0x02];
    assert_eq!(der_to_p1363_internal(&der), Err(ErrorKind::MalformedSignature));
}

#[test]
fn empty_integer_body_rejected() {
    let der = vec![0x30, 0x05, 0x02, 0x00, 0x02, 0x01, 0x02];
    assert_eq!(der_to_p1363_internal(&der), Err(ErrorKind::MalformedSignature));
}
