//! The challenge record and its canonicalization.
//!
//! A challenge is validated (fixed version / algorithm / signature-format
//! literals, a strictly increasing time window, and no delimiter or NUL
//! character in any field) and then rendered to one deterministic delimited
//! string, the exact payload an ECDSA signer and verifier both hash.

use vstd::prelude::*;
use crate::decimal::{dec_int, i64_to_string, lemma_dec_int_no_forbidden};
use crate::errors::ErrorKind;
use crate::text::{
    ascii_uppercase, count_char, lemma_count_char_absent, lemma_count_char_concat, push_char,
    str_eq, upper_chars,
};

verus! {

/// One signing request: an immutable record with no identity beyond its
/// field values. Optional fields absent from the wire document are `None`
/// and canonicalize as the empty string.
#[derive(Debug)]
pub struct Challenge {
    pub ver: String,
    pub alg: String,
    pub sig_format: String,
    pub kid: String,
    pub aud: String,
    pub nonce: String,
    pub ts: i64,
    pub exp: i64,
    pub method: String,
    pub path: String,
    pub query: Option<String>,
    pub body_hash: Option<String>,
    pub challenge_id: Option<String>,
}

/// The characters of an optional field: absent means empty.
pub open spec fn opt_str(o: Option<String>) -> Seq<char> {
    match o {
        Some(s) => s@,
        None => Seq::empty(),
    }
}

/// No character of the field is the delimiter `'|'` or NUL.
pub open spec fn field_ok(s: Seq<char>) -> bool {
    forall|i: int| 0 <= i < s.len() ==> s[i] != '|' && s[i] != '\0'
}

/// Every field that canonicalization emits (with optional ones defaulted to
/// empty) passes the forbidden-character check.
pub open spec fn fields_ok(ch: Challenge) -> bool {
    &&& field_ok(ch.kid@)
    &&& field_ok(ch.aud@)
    &&& field_ok(ch.nonce@)
    &&& field_ok(ch.method@)
    &&& field_ok(ch.path@)
    &&& field_ok(opt_str(ch.query))
    &&& field_ok(opt_str(ch.body_hash))
    &&& field_ok(opt_str(ch.challenge_id))
}

/// A challenge that passes the whole validation sequence.
pub open spec fn valid_challenge(ch: Challenge) -> bool {
    &&& ch.ver@ == "SS1"@
    &&& ch.alg@ == "ES256"@
    &&& ch.sig_format@ == "P1363"@
    &&& ch.exp > ch.ts
    &&& fields_ok(ch)
}

/// The canonical string of a valid challenge: the thirteen fields in
/// protocol order, each followed by one `'|'`.
pub open spec fn canonical_of(ch: Challenge) -> Seq<char> {
    ch.ver@ + seq!['|'] + ch.alg@ + seq!['|'] + ch.sig_format@ + seq!['|'] + ch.aud@ + seq!['|']
        + ch.nonce@ + seq!['|'] + dec_int(ch.ts as int) + seq!['|'] + dec_int(ch.exp as int)
        + seq!['|'] + upper_chars(ch.method@) + seq!['|'] + ch.path@ + seq!['|'] + opt_str(ch.query)
        + seq!['|'] + opt_str(ch.body_hash) + seq!['|'] + ch.kid@ + seq!['|'] + opt_str(
        ch.challenge_id,
    ) + seq!['|']
}

/// True when the string holds no `'|'` and no NUL character.
pub fn assert_no_forbidden_chars(s: &str) -> (r: bool)
    ensures
        r == field_ok(s@),
{
    let n = s.unicode_len();
    let mut i: usize = 0;
    while i < n
        invariant
            n == s@.len(),
            i <= n,
            forall|j: int| 0 <= j < i ==> s@[j] != '|' && s@[j] != '\0',
        decreases n - i,
    {
        let c = s.get_char(i);
        if c == '|' || c == '\0' {
            return false;
        }
        i += 1;
    }
    true
}

/// View an optional field as a string slice, absent meaning empty.
fn opt_as_str(o: &Option<String>) -> (r: &str)
    ensures
        r@ == opt_str(*o),
{
    match o {
        Some(s) => s.as_str(),
        None => {
            let e = "";
            proof {
                reveal_strlit("");
                assert(e@ =~= Seq::<char>::empty());
            }
            e
        },
    }
}

/// Validate a challenge and render its canonical string.
///
/// The validation sequence fails fast, in a fixed order, so the error kind
/// is reproducible: version, algorithm, signature format, time window, then
/// the forbidden-character check over every emitted field. Only a challenge
/// that passes all five produces output, and the output is a pure function
/// of the record's field values, so repeated calls agree byte for byte.
pub fn canonical_string(ch: &Challenge) -> (r: Result<String, ErrorKind>)
    ensures
        r is Ok <==> valid_challenge(*ch),
        r matches Ok(s) ==> s@ == canonical_of(*ch),
        ch.ver@ != "SS1"@ ==> r == Err::<String, _>(ErrorKind::UnsupportedVersion),
        ch.ver@ == "SS1"@ && ch.alg@ != "ES256"@ ==> r == Err::<String, _>(
            ErrorKind::UnsupportedAlgorithm,
        ),
        ch.ver@ == "SS1"@ && ch.alg@ == "ES256"@ && ch.sig_format@ != "P1363"@ ==> r == Err::<
            String,
            _,
        >(ErrorKind::UnsupportedSignatureFormat),
        ch.ver@ == "SS1"@ && ch.alg@ == "ES256"@ && ch.sig_format@ == "P1363"@ && ch.exp <= ch.ts
            ==> r == Err::<String, _>(ErrorKind::InvalidTimeWindow),
        ch.ver@ == "SS1"@ && ch.alg@ == "ES256"@ && ch.sig_format@ == "P1363"@ && ch.exp > ch.ts
            && !fields_ok(*ch) ==> r == Err::<String, _>(ErrorKind::IllegalCharacterInField),
{
    if !str_eq(ch.ver.as_str(), "SS1") {
        return Err(ErrorKind::UnsupportedVersion);
    }
    if !str_eq(ch.alg.as_str(), "ES256") {
        return Err(ErrorKind::UnsupportedAlgorithm);
    }
    if !str_eq(ch.sig_format.as_str(), "P1363") {
        return Err(ErrorKind::UnsupportedSignatureFormat);
    }
    if ch.exp <= ch.ts {
        return Err(ErrorKind::InvalidTimeWindow);
    }
    if !assert_no_forbidden_chars(ch.kid.as_str()) {
        return Err(ErrorKind::IllegalCharacterInField);
    }
    if !assert_no_forbidden_chars(ch.aud.as_str()) {
        return Err(ErrorKind::IllegalCharacterInField);
    }
    if !assert_no_forbidden_chars(ch.nonce.as_str()) {
        return Err(ErrorKind::IllegalCharacterInField);
    }
    if !assert_no_forbidden_chars(ch.method.as_str()) {
        return Err(ErrorKind::IllegalCharacterInField);
    }
    if !assert_no_forbidden_chars(ch.path.as_str()) {
        return Err(ErrorKind::IllegalCharacterInField);
    }
    if !assert_no_forbidden_chars(opt_as_str(&ch.query)) {
        return Err(ErrorKind::IllegalCharacterInField);
    }
    if !assert_no_forbidden_chars(opt_as_str(&ch.body_hash)) {
        return Err(ErrorKind::IllegalCharacterInField);
    }
    if !assert_no_forbidden_chars(opt_as_str(&ch.challenge_id)) {
        return Err(ErrorKind::IllegalCharacterInField);
    }

    let method_upper = ascii_uppercase(ch.method.as_str());
    let ts_s = i64_to_string(ch.ts);
    let exp_s = i64_to_string(ch.exp);

    let mut out = String::new();
    out.append(ch.ver.as_str());
    push_char(&mut out, '|');
    out.append(ch.alg.as_str());
    push_char(&mut out, '|');
    out.append(ch.sig_format.as_str());
    push_char(&mut out, '|');
    out.append(ch.aud.as_str());
    push_char(&mut out, '|');
    out.append(ch.nonce.as_str());
    push_char(&mut out, '|');
    out.append(ts_s.as_str());
    push_char(&mut out, '|');
    out.append(exp_s.as_str());
    push_char(&mut out, '|');
    out.append(method_upper.as_str());
    push_char(&mut out, '|');
    out.append(ch.path.as_str());
    push_char(&mut out, '|');
    out.append(opt_as_str(&ch.query));
    push_char(&mut out, '|');
    out.append(opt_as_str(&ch.body_hash));
    push_char(&mut out, '|');
    out.append(ch.kid.as_str());
    push_char(&mut out, '|');
    out.append(opt_as_str(&ch.challenge_id));
    push_char(&mut out, '|');
    proof {
        assert(out@ =~= canonical_of(*ch));
    }
    Ok(out)
}

/// Delimiter safety: the canonical string of a valid challenge holds
/// exactly thirteen `'|'` characters — the twelve separators plus the
/// mandated trailing one — because no validated field contributes any.
pub proof fn lemma_canonical_delimiters(ch: Challenge)
    requires
        valid_challenge(ch),
    ensures
        count_char(canonical_of(ch), '|') == 13,
{
    broadcast use lemma_count_char_concat;

    let bar = seq!['|'];
    assert(bar.drop_last() =~= Seq::<char>::empty());
    assert(count_char(Seq::<char>::empty(), '|') == 0);
    assert(bar.last() == '|');
    assert(count_char(bar, '|') == 1);
    reveal_strlit("SS1");
    reveal_strlit("ES256");
    reveal_strlit("P1363");
    lemma_count_char_absent(ch.ver@, '|');
    lemma_count_char_absent(ch.alg@, '|');
    lemma_count_char_absent(ch.sig_format@, '|');
    lemma_count_char_absent(ch.aud@, '|');
    lemma_count_char_absent(ch.nonce@, '|');
    lemma_dec_int_no_forbidden(ch.ts as int);
    lemma_count_char_absent(dec_int(ch.ts as int), '|');
    lemma_dec_int_no_forbidden(ch.exp as int);
    lemma_count_char_absent(dec_int(ch.exp as int), '|');
    assert forall|i: int| 0 <= i < upper_chars(ch.method@).len() implies #[trigger] upper_chars(
        ch.method@,
    )[i] != '|' by {
        assert(ch.method@[i] != '|');
    }
    lemma_count_char_absent(upper_chars(ch.method@), '|');
    lemma_count_char_absent(ch.path@, '|');
    lemma_count_char_absent(opt_str(ch.query), '|');
    lemma_count_char_absent(opt_str(ch.body_hash), '|');
    lemma_count_char_absent(ch.kid@, '|');
    lemma_count_char_absent(opt_str(ch.challenge_id), '|');
}

/// Canonicalization is deterministic: any two canonical strings produced
/// for the same challenge are identical, character for character.
pub proof fn lemma_canonical_deterministic(ch: Challenge, s1: Seq<char>, s2: Seq<char>)
    requires
        s1 == canonical_of(ch),
        s2 == canonical_of(ch),
    ensures
        s1 == s2,
{
}

} // verus!
