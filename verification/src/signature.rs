//! Conversion of a DER-encoded ECDSA signature to the fixed 64-byte P1363
//! form: big-endian r and s, each left-padded with zeros to 32 bytes.
//!
//! The DER form is `SEQUENCE { INTEGER r, INTEGER s }` with strict,
//! minimal encodings: short-form lengths, no redundant leading zero on an
//! integer, and one leading zero byte exactly where the magnitude's top bit
//! is set. Anything else — a wrong tag, a length that does not match,
//! trailing bytes, a negative component, or a component wider than 32 bytes
//! once the sign padding is removed — is rejected.

use vstd::prelude::*;
use vstd::arithmetic::power2::{lemma2_to64, lemma_pow2_adds, pow2};
use crate::errors::ErrorKind;

verus! {

/// A structurally valid DER INTEGER body for a nonnegative value: nonempty,
/// not negative (top bit of the first byte clear), and minimal (a leading
/// zero byte only as sign padding for a byte with the top bit set).
pub open spec fn int_content_ok(c: Seq<u8>) -> bool {
    &&& c.len() >= 1
    &&& c[0] < 0x80
    &&& (c.len() >= 2 ==> !(c[0] == 0 && c[1] < 0x80))
}

/// The magnitude bytes of a DER INTEGER body: the body with its sign
/// padding removed.
pub open spec fn unpad(c: Seq<u8>) -> Seq<u8> {
    if c.len() >= 2 && c[0] == 0 {
        c.skip(1)
    } else {
        c
    }
}

/// A byte string left-padded with zeros to exactly 32 bytes.
pub open spec fn pad32(c: Seq<u8>) -> Seq<u8> {
    Seq::new(
        32,
        |i: int|
            if i < 32 - c.len() {
                0u8
            } else {
                c[i - (32 - c.len())]
            },
    )
}

/// The body length of the first INTEGER of the signature.
pub open spec fn rlen(d: Seq<u8>) -> int {
    d[3] as int
}

/// The body of the first INTEGER of the signature.
pub open spec fn r_content(d: Seq<u8>) -> Seq<u8> {
    d.subrange(4, 4 + rlen(d))
}

/// The body length of the second INTEGER of the signature.
pub open spec fn slen(d: Seq<u8>) -> int {
    d[5 + rlen(d)] as int
}

/// The body of the second INTEGER of the signature.
pub open spec fn s_content(d: Seq<u8>) -> Seq<u8> {
    d.subrange(6 + rlen(d), 6 + rlen(d) + slen(d))
}

/// The bytes are one strict DER `SEQUENCE` of two INTEGERs, with nothing
/// trailing, and each component fits 32 bytes once unpadded.
pub open spec fn der_sig_ok(d: Seq<u8>) -> bool {
    &&& d.len() >= 8
    &&& d[0] == 0x30
    &&& d[1] < 0x80
    &&& d[1] as int == d.len() - 2
    &&& d[2] == 0x02
    &&& d[3] < 0x80
    &&& 6 + rlen(d) <= d.len()
    &&& int_content_ok(r_content(d))
    &&& unpad(r_content(d)).len() <= 32
    &&& d[4 + rlen(d)] == 0x02
    &&& d[5 + rlen(d)] < 0x80
    &&& 6 + rlen(d) + slen(d) == d.len()
    &&& int_content_ok(s_content(d))
    &&& unpad(s_content(d)).len() <= 32
}

/// The P1363 form of a structurally valid DER signature: r then s, each
/// zero-padded to 32 bytes.
pub open spec fn der_sig_p1363(d: Seq<u8>) -> Seq<u8> {
    pad32(unpad(r_content(d))) + pad32(unpad(s_content(d)))
}

/// Parse a DER-encoded ECDSA signature and return its fixed 64-byte P1363
/// form, or `MalformedSignature` for anything that is not one strict DER
/// signature with components of at most 32 magnitude bytes.
pub fn der_to_p1363_internal(der: &[u8]) -> (r: Result<[u8; 64], ErrorKind>)
    ensures
        r is Ok <==> der_sig_ok(der@),
        r matches Ok(out) ==> out@ == der_sig_p1363(der@),
        r is Err ==> r == Err::<[u8; 64], _>(ErrorKind::MalformedSignature),
{
    let n = der.len();
    if n < 8 {
        return Err(ErrorKind::MalformedSignature);
    }
    if der[0] != 0x30 || der[1] >= 0x80 || der[1] as usize != n - 2 {
        return Err(ErrorKind::MalformedSignature);
    }
    if der[2] != 0x02 || der[3] >= 0x80 {
        return Err(ErrorKind::MalformedSignature);
    }
    let rl = der[3] as usize;
    if rl == 0 || rl + 6 > n {
        return Err(ErrorKind::MalformedSignature);
    }
    let rc0 = der[4];
    if rc0 >= 0x80 {
        return Err(ErrorKind::MalformedSignature);
    }
    if rl >= 2 && rc0 == 0 && der[5] < 0x80 {
        return Err(ErrorKind::MalformedSignature);
    }
    let rstart: usize = if rl >= 2 && rc0 == 0 {
        5
    } else {
        4
    };
    let rulen = 4 + rl - rstart;
    proof {
        assert(unpad(r_content(der@)) =~= der@.subrange(rstart as int, 4 + rl));
    }
    if rulen > 32 {
        return Err(ErrorKind::MalformedSignature);
    }
    let so = 4 + rl;
    if der[so] != 0x02 || der[so + 1] >= 0x80 {
        return Err(ErrorKind::MalformedSignature);
    }
    let sl = der[so + 1] as usize;
    if sl == 0 || so + 2 + sl != n {
        return Err(ErrorKind::MalformedSignature);
    }
    let sc0 = der[so + 2];
    if sc0 >= 0x80 {
        return Err(ErrorKind::MalformedSignature);
    }
    if sl >= 2 && sc0 == 0 && der[so + 3] < 0x80 {
        return Err(ErrorKind::MalformedSignature);
    }
    let sstart: usize = if sl >= 2 && sc0 == 0 {
        so + 3
    } else {
        so + 2
    };
    let sulen = so + 2 + sl - sstart;
    proof {
        assert(unpad(s_content(der@)) =~= der@.subrange(sstart as int, n as int));
    }
    if sulen > 32 {
        return Err(ErrorKind::MalformedSignature);
    }

    let mut out = [0u8; 64];
    let mut i: usize = 0;
    while i < rulen
        invariant
            i <= rulen,
            rulen <= 32,
            n == der@.len(),
            rstart + rulen <= n,
            forall|k: int| 0 <= k < 32 - rulen ==> out@[k] == 0,
            forall|k: int|
                32 - rulen <= k < 32 - rulen + i ==> out@[k] == der@[rstart + (k - (32 - rulen))],
            forall|k: int| 32 - rulen + i <= k < 64 ==> out@[k] == 0,
        decreases rulen - i,
    {
        out[32 - rulen + i] = der[rstart + i];
        i += 1;
    }
    let mut j: usize = 0;
    while j < sulen
        invariant
            j <= sulen,
            sulen <= 32,
            rulen <= 32,
            n == der@.len(),
            rstart + rulen <= n,
            sstart + sulen <= n,
            forall|k: int| 0 <= k < 32 - rulen ==> out@[k] == 0,
            forall|k: int|
                32 - rulen <= k < 32 ==> out@[k] == der@[rstart + (k - (32 - rulen))],
            forall|k: int| 32 <= k < 64 - sulen ==> out@[k] == 0,
            forall|k: int|
                64 - sulen <= k < 64 - sulen + j ==> out@[k] == der@[sstart + (k - (64 - sulen))],
            forall|k: int| 64 - sulen + j <= k < 64 ==> out@[k] == 0,
        decreases sulen - j,
    {
        out[64 - sulen + j] = der[sstart + j];
        j += 1;
    }
    proof {
        assert(out@ =~= der_sig_p1363(der@));
    }
    Ok(out)
}

/// The big-endian value of a byte string.
pub open spec fn be_val(s: Seq<u8>) -> nat
    decreases s.len(),
{
    if s.len() == 0 {
        0
    } else {
        be_val(s.drop_last()) * 256 + s.last() as nat
    }
}

/// The minimal big-endian encoding of a nonnegative integer: no leading
/// zero byte, and empty for zero itself.
pub open spec fn min_be(n: nat) -> Seq<u8>
    decreases n,
{
    if n == 0 {
        Seq::empty()
    } else {
        min_be(n / 256).push((n % 256) as u8)
    }
}

/// The magnitude bytes of a DER INTEGER: minimal big-endian, with one zero
/// byte for the value zero.
pub open spec fn mag_bytes(n: nat) -> Seq<u8> {
    if n == 0 {
        seq![0u8]
    } else {
        min_be(n)
    }
}

/// The body of the DER INTEGER of a nonnegative value: one zero byte of
/// sign padding exactly when the leading magnitude byte has its top bit
/// set.
pub open spec fn der_int_content(n: nat) -> Seq<u8> {
    let m = mag_bytes(n);
    if m[0] >= 0x80 {
        seq![0u8] + m
    } else {
        m
    }
}

/// The DER INTEGER encoding of a nonnegative value below 2^256.
pub open spec fn der_int(n: nat) -> Seq<u8> {
    let c = der_int_content(n);
    seq![0x02u8, c.len() as u8] + c
}

/// The DER encoding of the ECDSA signature with components r and s, each
/// below 2^256.
pub open spec fn der_sig(r: nat, s: nat) -> Seq<u8> {
    let body = der_int(r) + der_int(s);
    seq![0x30u8, body.len() as u8] + body
}

/// A value below 2^(8k) takes at most k big-endian bytes.
proof fn lemma_min_be_len(n: nat, k: nat)
    requires
        n < pow2(8 * k),
    ensures
        min_be(n).len() <= k,
    decreases k,
{
    if n > 0 {
        if k == 0 {
            lemma2_to64();
        } else {
            lemma_pow2_adds(8 * (k - 1) as nat, 8);
            lemma2_to64();
            assert(n / 256 < pow2(8 * (k - 1) as nat)) by (nonlinear_arith)
                requires
                    n < pow2(8 * (k - 1) as nat) * 256,
            ;
            lemma_min_be_len(n / 256, (k - 1) as nat);
        }
    }
}

/// The minimal big-endian encoding of a positive value starts with a
/// nonzero byte.
proof fn lemma_min_be_leading(n: nat)
    requires
        n > 0,
    ensures
        min_be(n).len() >= 1,
        min_be(n)[0] != 0,
    decreases n,
{
    if n >= 256 {
        lemma_min_be_leading(n / 256);
        assert(min_be(n)[0] == min_be(n / 256)[0]);
    } else {
        assert(n / 256 == 0) by (nonlinear_arith)
            requires
                0 < n < 256,
        ;
        assert(n % 256 == n) by (nonlinear_arith)
            requires
                0 < n < 256,
        ;
        assert(min_be((n / 256) as nat) =~= Seq::<u8>::empty());
        assert(min_be(n) =~= seq![(n % 256) as u8]);
    }
}

/// The big-endian value of a minimal encoding is the encoded number.
proof fn lemma_be_val_min_be(n: nat)
    ensures
        be_val(min_be(n)) == n,
    decreases n,
{
    if n > 0 {
        lemma_be_val_min_be(n / 256);
        let m = min_be(n / 256).push((n % 256) as u8);
        assert(m.drop_last() =~= min_be(n / 256));
        assert(be_val(m) == be_val(min_be(n / 256)) * 256 + n % 256);
        assert(n / 256 * 256 + n % 256 == n) by (nonlinear_arith);
    }
}

/// A zero byte in front does not change the big-endian value.
proof fn lemma_be_val_zero_prepend(m: Seq<u8>)
    ensures
        be_val(seq![0u8] + m) == be_val(m),
    decreases m.len(),
{
    if m.len() == 0 {
        let z = seq![0u8] + m;
        assert(z =~= seq![0u8]);
        assert(z.drop_last() =~= Seq::<u8>::empty());
        assert(be_val(Seq::<u8>::empty()) == 0);
        assert(z.last() == 0);
        assert(be_val(m) == 0);
    } else {
        lemma_be_val_zero_prepend(m.drop_last());
        assert((seq![0u8] + m).drop_last() =~= seq![0u8] + m.drop_last());
        assert((seq![0u8] + m).last() == m.last());
    }
}

/// Padding to 32 bytes does not change the big-endian value.
proof fn lemma_be_val_pad32(m: Seq<u8>)
    requires
        m.len() <= 32,
    ensures
        be_val(pad32(m)) == be_val(m),
    decreases 32 - m.len(),
{
    if m.len() == 32 {
        assert(pad32(m) =~= m);
    } else {
        assert(pad32(m) =~= pad32(seq![0u8] + m));
        lemma_be_val_pad32(seq![0u8] + m);
        lemma_be_val_zero_prepend(m);
    }
}

/// The DER INTEGER body of a value below 2^256 is well formed, at most 33
/// bytes, and unpads to the magnitude bytes.
proof fn lemma_der_int_content(n: nat)
    requires
        n < pow2(256),
    ensures
        int_content_ok(der_int_content(n)),
        1 <= der_int_content(n).len() <= 33,
        unpad(der_int_content(n)) == mag_bytes(n),
        mag_bytes(n).len() <= 32,
        be_val(mag_bytes(n)) == n,
{
    lemma_min_be_len(n, 32);
    lemma_be_val_min_be(n);
    let m = mag_bytes(n);
    if n == 0 {
        assert(m =~= seq![0u8]);
        assert(m.drop_last() =~= Seq::<u8>::empty());
        assert(be_val(m) == 0);
        assert(unpad(der_int_content(n)) =~= m);
    } else {
        lemma_min_be_leading(n);
        if m[0] >= 0x80 {
            let c = seq![0u8] + m;
            assert(c[0] == 0 && c[1] == m[0]);
            assert(unpad(c) =~= m);
        } else {
            assert(unpad(m) =~= m);
        }
    }
}

/// Round trip on signatures: DER-encode any signature whose components are
/// below 2^256, convert the encoding to P1363 form, and the result is
/// exactly the two components in 32-byte zero-padded big-endian form — r
/// then s, 64 bytes whose two halves carry the original values.
#[verifier::rlimit(50)]
pub proof fn lemma_der_round_trip(r: nat, s: nat)
    requires
        r < pow2(256),
        s < pow2(256),
    ensures
        der_sig_ok(der_sig(r, s)),
        der_sig_p1363(der_sig(r, s)) == pad32(mag_bytes(r)) + pad32(mag_bytes(s)),
        be_val(pad32(mag_bytes(r))) == r,
        be_val(pad32(mag_bytes(s))) == s,
{
    lemma_der_int_content(r);
    lemma_der_int_content(s);
    lemma_be_val_pad32(mag_bytes(r));
    lemma_be_val_pad32(mag_bytes(s));
    let cr = der_int_content(r);
    let cs = der_int_content(s);
    let d = der_sig(r, s);
    let flat = seq![0x30u8, (4 + cr.len() + cs.len()) as u8, 0x02u8, cr.len() as u8] + cr + seq![
        0x02u8,
        cs.len() as u8,
    ] + cs;
    assert(d =~= flat);
    assert(d.len() == 6 + cr.len() + cs.len());
    assert(d[1] == (4 + cr.len() + cs.len()) as u8);
    assert(d[3] == cr.len() as u8);
    assert(rlen(d) == cr.len());
    assert(r_content(d) =~= cr);
    assert(d[4 + rlen(d)] == 0x02);
    assert(d[5 + rlen(d)] == cs.len() as u8);
    assert(slen(d) == cs.len());
    assert(s_content(d) =~= cs);
    assert(der_sig_ok(d));
    assert(der_sig_p1363(d) == pad32(mag_bytes(r)) + pad32(mag_bytes(s)));
}

} // verus!

