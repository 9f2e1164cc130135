use secure_sign::{canonical_string, Challenge, ErrorKind};

fn base_challenge() -> Challenge {
    Challenge {
        ver: String::from("SS1"),
        alg: String::from("ES256"),
        sig_format: String::from("P1363"),
        kid: String::from("k1"),
        aud: String::from("svc"),
        nonce: String::from("n1"),
        ts: 1000,
        exp: 2000,
        method: String::from("post"),
        path: String::from("/x"),
        query: None,
        body_hash: None,
        challenge_id: None,
    }
}

#[test]
fn canonical_scenario() {
    let ch = base_challenge();
    let s = canonical_string(&ch).unwrap();
    assert_eq!(s, "SS1|ES256|P1363|svc|n1|1000|2000|POST|/x|||k1||");
}

#[test]
fn canonical_is_deterministic() {
    let ch = base_challenge();
    let first = canonical_string(&ch).unwrap();
    for _ in 0..10 {
        assert_eq!(canonical_string(&ch).unwrap(), first);
    }
}

#[test]
fn canonical_delimiter_count() {
    let ch = base_challenge();
    let s = canonical_string(&ch).unwrap();
    assert_eq!(s.chars().filter(|c| *c == '|').count(), 13);
}

#[test]
fn reversed_time_window_rejected() {
    let mut ch = base_challenge();
    ch.ts = 2000;
    ch.exp = 1000;
    assert_eq!(canonical_string(&ch), Err(ErrorKind::InvalidTimeWindow));
}

#[test]
fn equal_time_window_rejected() {
    let mut ch = base_challenge();
    ch.ts = 1500;
    ch.exp = 1500;
    assert_eq!(canonical_string(&ch), Err(ErrorKind::InvalidTimeWindow));
}

#[test]
fn nonce_with_delimiter_rejected() {
    let mut ch = base_challenge();
    ch.nonce = String::from("a|b");
    assert_eq!(canonical_string(&ch), Err(ErrorKind::IllegalCharacterInField));
}

#[test]
fn nul_byte_rejected() {
    let mut ch = base_challenge();
    ch.path = String::from("/a\0b");
    assert_eq!(canonical_string(&ch), Err(ErrorKind::IllegalCharacterInField));
}

#[test]
fn optional_field_with_delimiter_rejected() {
    let mut ch = base_challenge();
    ch.query = Some(String::from("a=1|b=2"));
    assert_eq!(canonical_string(&ch), Err(ErrorKind::IllegalCharacterInField));
}

#[test]
fn wrong_version_rejected() {
    let mut ch = base_challenge();
    ch.ver = String::from("SS2");
    assert_eq!(canonical_string(&ch), Err(ErrorKind::UnsupportedVersion));
}

#[test]
fn wrong_version_rejected_before_other_errors() {
    let mut ch = base_challenge();
    ch.ver = String::from("SS2");
    ch.alg = String::from("none");
    ch.ts = 9;
    ch.exp = 9;
    ch.nonce = String::from("a|b");
    assert_eq!(canonical_string(&ch), Err(ErrorKind::UnsupportedVersion));
}

#[test]
fn wrong_algorithm_rejected() {
    let mut ch = base_challenge();
    ch.alg = String::from("ES384");
    assert_eq!(canonical_string(&ch), Err(ErrorKind::UnsupportedAlgorithm));
}

#[test]
fn wrong_signature_format_rejected() {
    let mut ch = base_challenge();
    ch.sig_format = String::from("DER");
    assert_eq!(canonical_string(&ch), Err(ErrorKind::UnsupportedSignatureFormat));
}

#[test]
fn time_window_checked_before_fields() {
    let mut ch = base_challenge();
    ch.ts = 5;
    ch.exp = 5;
    ch.nonce = String::from("a|b");
    assert_eq!(canonical_string(&ch), Err(ErrorKind::InvalidTimeWindow));
}

#[test]
fn negative_timestamps_render_with_sign() {
    let mut ch = base_challenge();
    ch.ts = -5;
    ch.exp = 10;
    let s = canonical_string(&ch).unwrap();
    assert_eq!(s, "SS1|ES256|P1363|svc|n1|-5|10|POST|/x|||k1||");
}

#[test]
fn extreme_timestamps_render_in_decimal() {
    let mut ch = base_challenge();
    ch.ts = i64::MIN;
    ch.exp = i64::MAX;
    let s = canonical_string(&ch).unwrap();
    assert_eq!(
        s,
        "SS1|ES256|P1363|svc|n1|-9223372036854775808|9223372036854775807|POST|/x|||k1||"
    );
}

#[test]
fn method_upper_cased_ascii_only() {
    let mut ch = base_challenge();
    ch.method = String::from("gEt\u{e9}x");
    let s = canonical_string(&ch).unwrap();
    assert_eq!(s, "SS1|ES256|P1363|svc|n1|1000|2000|GET\u{e9}X|/x|||k1||");
}

#[test]
fn present_optional_fields_are_emitted() {
    let mut ch = base_challenge();
    ch.query = Some(String::from("a=1"));
    ch.body_hash = Some(String::from("deadbeef"));
    ch.challenge_id = Some(String::from("c-7"));
    let s = canonical_string(&ch).unwrap();
    assert_eq!(s, "SS1|ES256|P1363|svc|n1|1000|2000|POST|/x|a=1|deadbeef|k1|c-7|");
}

#[test]
fn explicitly_empty_optionals_match_absent_ones() {
    let mut with_empty = base_challenge();
    with_empty.query = Some(String::new());
    with_empty.body_hash = Some(String::new());
    with_empty.challenge_id = Some(String::new());
    let absent = base_challenge();
    assert_eq!(
        canonical_string(&with_empty).unwrap(),
        canonical_string(&absent).unwrap()
    );
}

#[test]
fn error_codes_are_stable() {
    assert_eq!(ErrorKind::InvalidInput.code(), 1001);
    assert_eq!(ErrorKind::MalformedDocument.code(), 3001);
    assert_eq!(ErrorKind::EncodingFailure.code(), 5001);
    assert_eq!(ErrorKind::UnsupportedVersion.code(), 3002);
    assert_eq!(ErrorKind::UnsupportedAlgorithm.code(), 3003);
    assert_eq!(ErrorKind::UnsupportedSignatureFormat.code(), 3004);
    assert_eq!(ErrorKind::InvalidTimeWindow.code(), 3005);
    assert_eq!(ErrorKind::IllegalCharacterInField.code(), 3006);
    assert_eq!(ErrorKind::MalformedKey.code(), 1010);
    assert_eq!(ErrorKind::MalformedSignature.code(), 4001);
}

#[test]
fn forbidden_char_check_is_exact() {
    assert!(secure_sign::assert_no_forbidden_chars("plain-text_123"));
    assert!(secure_sign::assert_no_forbidden_chars(""));
    assert!(!secure_sign::assert_no_forbidden_chars("a|b"));
    assert!(!secure_sign::assert_no_forbidden_chars("a\0b"));
}
