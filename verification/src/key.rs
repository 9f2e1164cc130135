//! Conversion of an uncompressed SEC1 public key to a base64url-encoded
//! SPKI DER document.
//!
//! The input must be exactly 65 bytes starting with the uncompressed-point
//! marker `0x04` and must name a point on the P-256 curve; the output is
//! the standard SubjectPublicKeyInfo wrapping of that point, encoded with
//! the URL-safe base64 alphabet and no padding.

use vstd::prelude::*;
use pkcs8::EncodePublicKey;
use crate::errors::ErrorKind;

verus! {

/// Whether 65 uncompressed-form bytes name a point on the P-256 curve:
/// coordinates that are canonical field elements and satisfy the curve
/// equation. Only the point decoder decides this; nothing is assumed of it
/// beyond being a function of the bytes.
pub uninterp spec fn p256_on_curve(sec1: Seq<u8>) -> bool;

/// The fixed SubjectPublicKeyInfo prefix for an uncompressed P-256 key:
/// the outer SEQUENCE header, the algorithm identifier (the ecPublicKey and
/// prime256v1 object identifiers), and the BIT STRING header with zero
/// unused bits. The 65 SEC1 bytes follow it unchanged.
pub open spec fn spki_prefix() -> Seq<u8> {
    seq![
        0x30u8, 0x59, 0x30, 0x13, 0x06, 0x07, 0x2a, 0x86, 0x48, 0xce, 0x3d, 0x02, 0x01, 0x06,
        0x08, 0x2a, 0x86, 0x48, 0xce, 0x3d, 0x03, 0x01, 0x07, 0x03, 0x42, 0x00,
    ]
}

/// The character of one 6-bit value in the URL-safe base64 alphabet.
pub open spec fn b64_char(v: int) -> char {
    if 0 <= v < 26 {
        (65 + v) as char  // 'A'..='Z'
    } else if 26 <= v < 52 {
        (97 + (v - 26)) as char  // 'a'..='z'
    } else if 52 <= v < 62 {
        (48 + (v - 52)) as char  // '0'..='9'
    } else if v == 62 {
        '-'
    } else {
        '_'
    }
}

/// Unpadded base64url: each full 3-byte group becomes four characters, a
/// trailing group of one or two bytes becomes two or three, and no `=` is
/// emitted.
pub open spec fn b64url_chars(b: Seq<u8>) -> Seq<char>
    decreases b.len(),
{
    if b.len() == 0 {
        Seq::empty()
    } else if b.len() == 1 {
        seq![b64_char(b[0] as int / 4), b64_char((b[0] as int % 4) * 16)]
    } else if b.len() == 2 {
        seq![
            b64_char(b[0] as int / 4),
            b64_char((b[0] as int % 4) * 16 + b[1] as int / 16),
            b64_char((b[1] as int % 16) * 4),
        ]
    } else {
        seq![
            b64_char(b[0] as int / 4),
            b64_char((b[0] as int % 4) * 16 + b[1] as int / 16),
            b64_char((b[1] as int % 16) * 4 + b[2] as int / 64),
            b64_char(b[2] as int % 64),
        ] + b64url_chars(b.skip(3))
    }
}

/// A character of the URL-safe base64 alphabet: a letter, a digit, `'-'`
/// or `'_'`.
pub open spec fn is_b64url_char(c: char) -> bool {
    ||| 65 <= c as int <= 90
    ||| 97 <= c as int <= 122
    ||| 48 <= c as int <= 57
    ||| c == '-'
    ||| c == '_'
}

/// Every character of an encoding is from the URL-safe alphabet — in
/// particular the output holds no `'='` padding, no newline, and no `'+'`
/// or `'/'` of the standard alphabet.
pub proof fn lemma_b64url_alphabet(b: Seq<u8>)
    ensures
        forall|i: int|
            0 <= i < b64url_chars(b).len() ==> is_b64url_char(#[trigger] b64url_chars(b)[i]),
    decreases b.len(),
{
    assert forall|v: int| 0 <= v < 64 implies is_b64url_char(#[trigger] b64_char(v)) by {
        if 0 <= v < 26 {
            assert(b64_char(v) as int == 65 + v);
        } else if 26 <= v < 52 {
            assert(b64_char(v) as int == 97 + (v - 26));
        } else if 52 <= v < 62 {
            assert(b64_char(v) as int == 48 + (v - 52));
        }
    }
    if b.len() == 0 {
    } else if b.len() == 1 {
        assert(0 <= b[0] as int / 4 < 64);
        assert(0 <= (b[0] as int % 4) * 16 < 64);
    } else if b.len() == 2 {
        assert(0 <= b[0] as int / 4 < 64);
        assert(0 <= (b[0] as int % 4) * 16 + b[1] as int / 16 < 64);
        assert(0 <= (b[1] as int % 16) * 4 < 64);
    } else {
        lemma_b64url_alphabet(b.skip(3));
        let head = seq![
            b64_char(b[0] as int / 4),
            b64_char((b[0] as int % 4) * 16 + b[1] as int / 16),
            b64_char((b[1] as int % 16) * 4 + b[2] as int / 64),
            b64_char(b[2] as int % 64),
        ];
        assert(0 <= b[0] as int / 4 < 64);
        assert(0 <= (b[0] as int % 4) * 16 + b[1] as int / 16 < 64);
        assert(0 <= (b[1] as int % 16) * 4 + b[2] as int / 64 < 64);
        assert(0 <= b[2] as int % 64 < 64);
        assert(b64url_chars(b) == head + b64url_chars(b.skip(3)));
        assert forall|i: int| 0 <= i < b64url_chars(b).len() implies is_b64url_char(
            #[trigger] b64url_chars(b)[i],
        ) by {
            if i < 4 {
                assert(b64url_chars(b)[i] == head[i]);
            } else {
                assert(b64url_chars(b)[i] == b64url_chars(b.skip(3))[i - 4]);
            }
        }
    }
}

/// Relies on `p256::PublicKey::from_sec1_bytes` and
/// `pkcs8::EncodePublicKey::to_public_key_der`: decoding 65
/// uncompressed-form bytes succeeds exactly when they name a point on the
/// P-256 curve, and the SPKI document re-encodes the same point
/// uncompressed, so its bytes are the fixed algorithm prefix followed by
/// the input bytes.
#[verifier::external_body]
fn sec1_point_to_spki(sec1: &[u8]) -> (r: Result<Vec<u8>, ()>)
    requires
        sec1@.len() == 65,
        sec1@[0] == 0x04,
    ensures
        r is Ok <==> p256_on_curve(sec1@),
        r matches Ok(der) ==> der@ == spki_prefix() + sec1@,
{
    let pk = match p256::PublicKey::from_sec1_bytes(sec1) {
        Ok(pk) => pk,
        Err(_) => return Err(()),
    };
    match pk.to_public_key_der() {
        Ok(doc) => Ok(doc.as_bytes().to_vec()),
        Err(_) => Err(()),
    }
}

/// Relies on base64's `URL_SAFE_NO_PAD` engine: it encodes with the
/// URL-safe alphabet and emits no padding characters.
#[verifier::external_body]
fn b64url_encode(b: &[u8]) -> (r: String)
    ensures
        r@ == b64url_chars(b@),
{
    base64::Engine::encode(&base64::engine::general_purpose::URL_SAFE_NO_PAD, b)
}

/// Convert an uncompressed SEC1 public key to its base64url-encoded SPKI
/// DER form.
///
/// Any input that is not exactly 65 bytes with the `0x04` marker fails with
/// `MalformedKey` before any decoding is attempted; a 65-byte input that is
/// not on the curve fails the same way. The output is a pure function of
/// the input bytes.
pub fn sec1_to_spki_der_b64url_internal(sec1: &[u8]) -> (r: Result<String, ErrorKind>)
    ensures
        sec1@.len() != 65 || sec1@[0] != 0x04 ==> r == Err::<String, _>(ErrorKind::MalformedKey),
        sec1@.len() == 65 && sec1@[0] == 0x04 ==> (r is Ok <==> p256_on_curve(sec1@)),
        r is Err ==> r == Err::<String, _>(ErrorKind::MalformedKey),
        r matches Ok(s) ==> s@ == b64url_chars(spki_prefix() + sec1@),
{
    if sec1.len() != 65 {
        return Err(ErrorKind::MalformedKey);
    }
    if sec1[0] != 0x04 {
        return Err(ErrorKind::MalformedKey);
    }
    let der = match sec1_point_to_spki(sec1) {
        Ok(der) => der,
        Err(_) => return Err(ErrorKind::MalformedKey),
    };
    Ok(b64url_encode(der.as_slice()))
}

} // verus!
