//! Verified decimal text encoders: minimal decimal representation for
//! unsigned and signed integers, and fixed-width zero-padded decimal fields.
//! The fixed-width encoder reports an error instead of silently truncating a
//! number that does not fit the mandated width.
use vstd::prelude::*;
use crate::types::WriteError;

verus! {

/// `10^w`.
pub open spec fn pow10(w: nat) -> nat
    decreases w,
{
    if w == 0 {
        1
    } else {
        10 * pow10((w - 1) as nat)
    }
}

/// ASCII byte of the decimal digit `d` (meaningful for `d < 10`).
pub open spec fn digit_byte(d: nat) -> u8 {
    (0x30 + d) as u8
}

/// Minimal decimal representation of `n`: no sign, no leading zeros,
/// `"0"` for zero.
pub open spec fn dec_digits(n: nat) -> Seq<u8>
    decreases n,
{
    if n < 10 {
        seq![digit_byte(n)]
    } else {
        dec_digits(n / 10).push(digit_byte(n % 10))
    }
}

/// Minimal decimal representation of a signed value: a leading `-` for
/// negative values, then the digits of the magnitude.
pub open spec fn dec_signed(v: int) -> Seq<u8> {
    if v < 0 {
        seq![0x2du8] + dec_digits((-v) as nat)
    } else {
        dec_digits(v as nat)
    }
}

/// `k` ASCII zero bytes.
pub open spec fn zero_bytes(k: nat) -> Seq<u8> {
    Seq::new(k, |i: int| 0x30u8)
}

/// Decimal representation of `n` left-padded with zeros to exactly `w`
/// bytes (meaningful when the digits of `n` fit in `w`).
pub open spec fn dec_padded(n: nat, w: nat) -> Seq<u8>
    recommends
        dec_digits(n).len() <= w,
{
    zero_bytes((w - dec_digits(n).len()) as nat) + dec_digits(n)
}

/// The minimal decimal representation is never empty.
pub proof fn lemma_dec_digits_nonempty(n: nat)
    ensures
        dec_digits(n).len() >= 1,
    decreases n,
{
    if n >= 10 {
        lemma_dec_digits_nonempty(n / 10);
    }
}

/// `10^w` is positive.
pub proof fn lemma_pow10_pos(w: nat)
    ensures
        pow10(w) >= 1,
    decreases w,
{
    if w > 0 {
        lemma_pow10_pos((w - 1) as nat);
    }
}

/// The digits of `n` fit in `w` bytes exactly when `n < 10^w`.
pub proof fn lemma_dec_digits_len(n: nat, w: nat)
    requires
        w >= 1,
    ensures
        dec_digits(n).len() <= w <==> n < pow10(w),
    decreases w,
{
    lemma_pow10_pos((w - 1) as nat);
    if n < 10 {
        // One digit always fits, and n < 10 <= 10^w.
        assert(pow10(w) >= 10);
    } else {
        lemma_dec_digits_nonempty(n / 10);
        if w == 1 {
            assert(dec_digits(n).len() >= 2);
            assert(n >= 10);
        } else {
            lemma_dec_digits_len(n / 10, (w - 1) as nat);
            assert(n == 10 * (n / 10) + n % 10) by (nonlinear_arith);
            assert(n / 10 < pow10((w - 1) as nat) <==> n < 10 * pow10((w - 1) as nat))
                by (nonlinear_arith)
                requires
                    n >= 10,
                    pow10((w - 1) as nat) >= 1,
                    n == 10 * (n / 10) + n % 10,
                    n % 10 < 10,
            ;
        }
    }
}

/// A padded field is exactly `w` bytes wide.
pub proof fn lemma_dec_padded_len(n: nat, w: nat)
    requires
        dec_digits(n).len() <= w,
    ensures
        dec_padded(n, w).len() == w,
{
}

/// Minimal decimal representation of `n` as bytes.
pub fn encode_u64(n: u64) -> (r: Vec<u8>)
    ensures
        r@ == dec_digits(n as nat),
{
    let mut rev: Vec<u8> = Vec::new();
    let mut m: u64 = n;
    rev.push(0x30 + (m % 10) as u8);
    m = m / 10;
    while m > 0
        invariant
            dec_digits(n as nat) == (if m == 0 {
                Seq::<u8>::empty()
            } else {
                dec_digits(m as nat)
            }) + rev@.reverse(),
            rev@.len() >= 1,
        decreases m,
    {
        let ghost prev = m as nat;
        let ghost prev_rev = rev@;
        rev.push(0x30 + (m % 10) as u8);
        m = m / 10;
        proof {
            assert(rev@.reverse() =~= seq![digit_byte(prev % 10)] + prev_rev.reverse());
            if m == 0 {
                assert(dec_digits(prev) == seq![digit_byte(prev)]);
                assert(dec_digits(n as nat) =~= Seq::<u8>::empty() + rev@.reverse());
            } else {
                assert(dec_digits(prev) == dec_digits(prev / 10).push(digit_byte(prev % 10)));
                assert(dec_digits(prev) =~= dec_digits(prev / 10) + seq![digit_byte(prev % 10)]);
                assert(dec_digits(n as nat) =~= dec_digits(m as nat) + rev@.reverse());
            }
        }
    }
    proof {
        assert(dec_digits(n as nat) =~= Seq::<u8>::empty() + rev@.reverse());
        assert(rev@.reverse() == dec_digits(n as nat));
    }
    let mut r: Vec<u8> = Vec::new();
    let mut i: usize = rev.len();
    while i > 0
        invariant
            i <= rev@.len(),
            rev@.reverse() == dec_digits(n as nat),
            r@ =~= dec_digits(n as nat).subrange(0, rev@.len() - i),
        decreases i,
    {
        let ghost before = r@;
        r.push(rev[i - 1]);
        i = i - 1;
        proof {
            assert(rev@[i as int] == rev@.reverse()[rev@.len() - 1 - i]);
            assert(r@ =~= dec_digits(n as nat).subrange(0, rev@.len() - i));
        }
    }
    proof {
        assert(dec_digits(n as nat).subrange(0, dec_digits(n as nat).len() as int) =~= dec_digits(
            n as nat,
        ));
    }
    r
}

/// Minimal signed decimal representation of `v` as bytes.
pub fn encode_i32(v: i32) -> (r: Vec<u8>)
    ensures
        r@ == dec_signed(v as int),
{
    if v < 0 {
        let mag: u64 = (-(v as i64)) as u64;
        let digits = encode_u64(mag);
        let mut r: Vec<u8> = vec![0x2d];
        proof {
            assert(r@ =~= seq![0x2du8] + digits@.subrange(0, 0));
        }
        let mut j: usize = 0;
        while j < digits.len()
            invariant
                j <= digits@.len(),
                digits@ == dec_digits(mag as nat),
                r@ == seq![0x2du8] + digits@.subrange(0, j as int),
            decreases digits@.len() - j,
        {
            r.push(digits[j]);
            j = j + 1;
            proof {
                assert(r@ =~= seq![0x2du8] + digits@.subrange(0, j as int));
            }
        }
        proof {
            assert(digits@.subrange(0, digits@.len() as int) =~= digits@);
            assert(r@ == dec_signed(v as int));
        }
        r
    } else {
        let r = encode_u64(v as u64);
        r
    }
}

/// Decimal representation of `n` left-padded with ASCII zeros to exactly
/// `width` bytes. Fails with [`WriteError::FieldOverflow`] exactly when the
/// digits of `n` do not fit in `width` bytes.
pub fn encode_padded(n: u64, width: usize) -> (r: Result<Vec<u8>, WriteError>)
    requires
        width >= 1,
    ensures
        r is Ok <==> (n as nat) < pow10(width as nat),
        r matches Ok(v) ==> v@ == dec_padded(n as nat, width as nat) && v@.len() == width,
        r is Err ==> r == Err::<Vec<u8>, WriteError>(WriteError::FieldOverflow),
{
    let digits = encode_u64(n);
    proof {
        lemma_dec_digits_len(n as nat, width as nat);
    }
    if digits.len() > width {
        return Err(WriteError::FieldOverflow);
    }
    let mut r: Vec<u8> = Vec::new();
    let pad: usize = width - digits.len();
    let mut i: usize = 0;
    while i < pad
        invariant
            i <= pad,
            r@ =~= zero_bytes(i as nat),
        decreases pad - i,
    {
        r.push(0x30);
        i = i + 1;
        proof {
            assert(r@ =~= zero_bytes(i as nat));
        }
    }
    let mut j: usize = 0;
    while j < digits.len()
        invariant
            j <= digits@.len(),
            r@ == zero_bytes(pad as nat) + digits@.subrange(0, j as int),
        decreases digits@.len() - j,
    {
        r.push(digits[j]);
        j = j + 1;
        proof {
            assert(r@ =~= zero_bytes(pad as nat) + digits@.subrange(0, j as int));
        }
    }
    proof {
        assert(digits@.subrange(0, digits@.len() as int) =~= digits@);
        assert(r@ == dec_padded(n as nat, width as nat));
        lemma_dec_padded_len(n as nat, width as nat);
    }
    Ok(r)
}

} // verus!
