//! Verified rendering of signed integers to their base-10 textual form: no
//! leading zeros, a leading `-` for negative values.

use vstd::prelude::*;
use crate::text::push_char;

verus! {

/// The character for one decimal digit value.
pub open spec fn dec_digit(d: int) -> char {
    (48 + d) as char
}

/// The decimal digits of a nonnegative integer, most significant first,
/// with no leading zeros (a single `'0'` for zero).
pub open spec fn dec_nat(n: nat) -> Seq<char>
    decreases n,
{
    if n < 10 {
        seq![dec_digit(n as int)]
    } else {
        dec_nat(n / 10) + seq![dec_digit((n % 10) as int)]
    }
}

/// The standard signed decimal representation of an integer.
pub open spec fn dec_int(v: int) -> Seq<char> {
    if v >= 0 {
        dec_nat(v as nat)
    } else {
        seq!['-'] + dec_nat((-v) as nat)
    }
}

/// Every character of a decimal rendering is a digit or a leading `-`.
pub proof fn lemma_dec_nat_digits(n: nat)
    ensures
        forall|i: int|
            0 <= i < dec_nat(n).len() ==> 48 <= #[trigger] dec_nat(n)[i] as int <= 57,
    decreases n,
{
    if n < 10 {
        assert(dec_nat(n)[0] == dec_digit(n as int));
    } else {
        lemma_dec_nat_digits(n / 10);
        assert forall|i: int| 0 <= i < dec_nat(n).len() implies 48 <= #[trigger] dec_nat(
            n,
        )[i] as int <= 57 by {
            if i < dec_nat(n / 10).len() {
                assert(dec_nat(n)[i] == dec_nat(n / 10)[i]);
            } else {
                assert(dec_nat(n)[i] == dec_digit((n % 10) as int));
            }
        }
    }
}

/// A decimal rendering never holds a delimiter or NUL character.
pub proof fn lemma_dec_int_no_forbidden(v: int)
    ensures
        forall|i: int|
            0 <= i < dec_int(v).len() ==> #[trigger] dec_int(v)[i] != '|' && dec_int(v)[i] != '\0',
{
    if v >= 0 {
        lemma_dec_nat_digits(v as nat);
    } else {
        lemma_dec_nat_digits((-v) as nat);
        assert forall|i: int| 0 <= i < dec_int(v).len() implies dec_int(v)[i] != '|'
            && dec_int(v)[i] != '\0' by {
            if i > 0 {
                assert(dec_int(v)[i] == dec_nat((-v) as nat)[i - 1]);
            }
        }
    }
}

/// Render a nonnegative 64-bit value in decimal.
fn u64_to_string(n: u64) -> (s: String)
    ensures
        s@ == dec_nat(n as nat),
{
    let mut digits: Vec<u8> = Vec::new();
    let mut m = n;
    while m >= 10
        invariant
            dec_nat(n as nat) == dec_nat(m as nat) + digits@.map_values(
                |b: u8| b as char,
            ).reverse(),
        decreases m,
    {
        let ghost pre = digits@.map_values(|b: u8| b as char).reverse();
        digits.push(48 + (m % 10) as u8);
        proof {
            let post = digits@.map_values(|b: u8| b as char).reverse();
            assert(post =~= seq![dec_digit((m % 10) as int)] + pre);
            assert(dec_nat(m as nat) + pre =~= dec_nat((m / 10) as nat) + post);
        }
        m = m / 10;
    }
    let ghost pre = digits@.map_values(|b: u8| b as char).reverse();
    digits.push(48 + (m as u8));
    proof {
        let post = digits@.map_values(|b: u8| b as char).reverse();
        assert(post =~= seq![dec_digit(m as int)] + pre);
        assert(dec_nat(n as nat) =~= post);
    }
    let mut s = String::new();
    let mut j = digits.len();
    while j > 0
        invariant
            j <= digits.len(),
            dec_nat(n as nat) == digits@.map_values(|b: u8| b as char).reverse(),
            s@ =~= digits@.map_values(|b: u8| b as char).reverse().take(
                digits@.len() - j,
            ),
        decreases j,
    {
        j -= 1;
        let b = digits[j];
        push_char(&mut s, b as char);
        proof {
            let full = digits@.map_values(|b: u8| b as char).reverse();
            assert(full[digits@.len() - 1 - j] == b as char);
            assert(s@ =~= full.take(digits@.len() - j));
        }
    }
    proof {
        let full = digits@.map_values(|b: u8| b as char).reverse();
        assert(full.take(digits@.len() as int) =~= full);
    }
    s
}

/// Render a signed 64-bit value in decimal.
pub fn i64_to_string(v: i64) -> (s: String)
    ensures
        s@ == dec_int(v as int),
{
    if v >= 0 {
        u64_to_string(v as u64)
    } else {
        let mag: u64 = (-(v + 1)) as u64 + 1;
        assert(mag as int == -(v as int));
        let digits = u64_to_string(mag);
        let mut s = String::new();
        push_char(&mut s, '-');
        let r = s.concat(digits.as_str());
        proof {
            assert(r@ =~= dec_int(v as int));
        }
        r
    }
}

} // verus!
