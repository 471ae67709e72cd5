//! Decimal rendering of the integer and fixed-point quantities that the
//! scene serializer writes into attribute values.
//!
//! Coordinates are carried as signed integers counting thousandths of a
//! pixel; `fmt_mpx` renders such a value as a pixel count with exactly
//! three fraction digits.

use vstd::prelude::*;

verus! {

/// The character for one decimal digit.
pub open spec fn digit_char(d: int) -> char
    recommends
        0 <= d < 10,
{
    ((d + 48) as u8) as char
}

/// The decimal digits of `n`, most significant first, with no sign and
/// no leading zero (a single `'0'` for zero).
pub open spec fn u64_chars(n: nat) -> Seq<char>
    decreases n,
{
    if n < 10 {
        seq![digit_char(n as int)]
    } else {
        u64_chars(n / 10) + seq![digit_char((n % 10) as int)]
    }
}

/// The decimal form of a signed value: a `'-'` before the digits of the
/// magnitude when the value is negative.
pub open spec fn i64_chars(v: int) -> Seq<char> {
    if v < 0 {
        seq!['-'] + u64_chars((-v) as nat)
    } else {
        u64_chars(v as nat)
    }
}

/// Three zero-padded digits for a fraction of a pixel, `0 <= f < 1000`.
pub open spec fn frac3_chars(f: int) -> Seq<char>
    recommends
        0 <= f < 1000,
{
    seq![digit_char(f / 100), digit_char((f / 10) % 10), digit_char(f % 10)]
}

/// A coordinate in thousandths of a pixel, rendered as pixels with three
/// fraction digits: `-500` becomes `-0.500`, `256000` becomes `256.000`.
pub open spec fn mpx_chars(v: int) -> Seq<char> {
    if v < 0 {
        seq!['-'] + mpx_mag_chars((-v) as nat)
    } else {
        mpx_mag_chars(v as nat)
    }
}

/// The unsigned part of `mpx_chars`.
pub open spec fn mpx_mag_chars(m: nat) -> Seq<char> {
    u64_chars(m / 1000) + seq!['.'] + frac3_chars((m % 1000) as int)
}

/// Relies on `String::push`: appends one character to the string.
#[verifier::external_body]
pub fn push_char(s: &mut String, c: char)
    ensures
        final(s)@ == old(s)@ + seq![c],
{
    s.push(c);
}

pub fn push_digit(s: &mut String, d: u64)
    requires
        d < 10,
    ensures
        final(s)@ == old(s)@ + seq![digit_char(d as int)],
{
    let c = (48 + d as u8) as char;
    push_char(s, c);
}

/// The decimal digits of `n`, appended to `out`.
pub fn push_u64(out: &mut String, n: u64)
    ensures
        final(out)@ == old(out)@ + u64_chars(n as nat),
    decreases n,
{
    if n < 10 {
        push_digit(out, n);
    } else {
        push_u64(out, n / 10);
        push_digit(out, n % 10);
        proof {
            assert(old(out)@ + u64_chars((n / 10) as nat) + seq![digit_char((n % 10) as int)]
                =~= old(out)@ + u64_chars(n as nat));
        }
    }
}

/// The decimal form of an unsigned value.
pub fn u64_to_string(n: u64) -> (r: String)
    ensures
        r@ == u64_chars(n as nat),
{
    let mut out = String::new();
    push_u64(&mut out, n);
    proof {
        assert(Seq::<char>::empty() + u64_chars(n as nat) =~= u64_chars(n as nat));
    }
    out
}

/// The decimal form of a signed value.
pub fn i64_to_string(v: i64) -> (r: String)
    ensures
        r@ == i64_chars(v as int),
{
    let mut out = String::new();
    push_i64(&mut out, v);
    proof {
        assert(Seq::<char>::empty() + i64_chars(v as int) =~= i64_chars(v as int));
    }
    out
}

/// The decimal form of a signed value, appended to `out`.
pub fn push_i64(out: &mut String, v: i64)
    ensures
        final(out)@ == old(out)@ + i64_chars(v as int),
{
    if v < 0 {
        push_char(out, '-');
        let m = ((-(v as i128)) as u64);
        push_u64(out, m);
        proof {
            assert(m as nat == (-(v as int)) as nat);
            assert(old(out)@ + seq!['-'] + u64_chars(m as nat)
                =~= old(out)@ + i64_chars(v as int));
        }
    } else {
        push_u64(out, v as u64);
    }
}

/// A coordinate in thousandths of a pixel, rendered as pixels with three
/// fraction digits, appended to `out`.
pub fn push_mpx(out: &mut String, v: i64)
    ensures
        final(out)@ == old(out)@ + mpx_chars(v as int),
{
    let ghost start = out@;
    let m: u64 = if v < 0 {
        push_char(out, '-');
        (-(v as i128)) as u64
    } else {
        v as u64
    };
    let whole = m / 1000;
    let frac = m % 1000;
    push_u64(out, whole);
    push_char(out, '.');
    push_digit(out, frac / 100);
    push_digit(out, (frac / 10) % 10);
    push_digit(out, frac % 10);
    proof {
        assert(out@ =~= start + mpx_chars(v as int));
    }
}

/// A coordinate in thousandths of a pixel as a pixel string.
pub fn fmt_mpx(v: i64) -> (r: String)
    ensures
        r@ == mpx_chars(v as int),
{
    let mut out = String::new();
    push_mpx(&mut out, v);
    proof {
        assert(Seq::<char>::empty() + mpx_chars(v as int) =~= mpx_chars(v as int));
    }
    out
}


/// The decimal digits of a wide unsigned value, appended to `out`.
pub fn push_u128(out: &mut String, n: u128)
    ensures
        final(out)@ == old(out)@ + u64_chars(n as nat),
    decreases n,
{
    if n < 10 {
        push_digit(out, n as u64);
    } else {
        push_u128(out, n / 10);
        push_digit(out, (n % 10) as u64);
        proof {
            assert(old(out)@ + u64_chars((n / 10) as nat) + seq![digit_char((n % 10) as int)]
                =~= old(out)@ + u64_chars(n as nat));
        }
    }
}

/// A wide coordinate in thousandths of a pixel, rendered as pixels with
/// three fraction digits, appended to `out`.
pub fn push_mpx_wide(out: &mut String, v: i128)
    requires
        v > i128::MIN,
    ensures
        final(out)@ == old(out)@ + mpx_chars(v as int),
{
    let ghost start = out@;
    let m: u128 = if v < 0 {
        push_char(out, '-');
        (-v) as u128
    } else {
        v as u128
    };
    let whole = m / 1000;
    let frac = (m % 1000) as u64;
    push_u128(out, whole);
    push_char(out, '.');
    push_digit(out, frac / 100);
    push_digit(out, (frac / 10) % 10);
    push_digit(out, frac % 10);
    proof {
        assert(out@ =~= start + mpx_chars(v as int));
    }
}

} // verus!
