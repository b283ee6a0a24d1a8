//! Byte counts for people: binary prefixes with two decimals.
//!
//! The rendering is exactly what dividing the count, as an `f64`, by the unit and printing it
//! with `{:.2}` gives: the count is first rounded to the nearest `f64` (ties to even), the
//! quotient by a power of two is exact, and the two decimals are rounded half to even on the
//! exact value. All of it is computed here with integers.

use vstd::prelude::*;

use crate::text::{decimal, digit_char, owned, push_decimal_str, push_str};

verus! {

/// The spacing of the `f64` values around `b`: doubles in `[2^(52+k), 2^(53+k))` are `2^k` apart.
pub open spec fn f64_spacing(b: nat) -> nat {
    if b < 0x20000000000000 {
        1
    } else if b < 0x40000000000000 {
        2
    } else if b < 0x80000000000000 {
        4
    } else if b < 0x100000000000000 {
        8
    } else if b < 0x200000000000000 {
        16
    } else if b < 0x400000000000000 {
        32
    } else if b < 0x800000000000000 {
        64
    } else if b < 0x1000000000000000 {
        128
    } else if b < 0x2000000000000000 {
        256
    } else if b < 0x4000000000000000 {
        512
    } else if b < 0x8000000000000000 {
        1024
    } else {
        2048
    }
}

/// `b` rounded to the nearest `f64`, ties to the even multiple (what `b as f64` gives).
pub open spec fn nearest_f64(b: nat) -> nat {
    let u = f64_spacing(b);
    let q = b / u;
    let r = b % u;
    if r * 2 > u || (r * 2 == u && q % 2 == 1) {
        (q + 1) * u
    } else {
        q * u
    }
}

/// `m / d` in hundredths, rounded half to even.
pub open spec fn centi_round(m: nat, d: nat) -> nat {
    let n = m * 100;
    let q = n / d;
    let r = n % d;
    if r * 2 > d || (r * 2 == d && q % 2 == 1) {
        q + 1
    } else {
        q
    }
}

/// A number of hundredths written with two decimals.
pub open spec fn fixed2(c: nat) -> Seq<char> {
    decimal(c / 100) + "."@ + seq![digit_char((c % 100) / 10), digit_char(c % 10)]
}

/// What `format_bytes` writes for `bytes`.
pub open spec fn bytes_text(bytes: u64) -> Seq<char> {
    if bytes < 1024 {
        if bytes == 1 {
            "1 byte"@
        } else {
            decimal(bytes as nat) + " bytes"@
        }
    } else if bytes < 1048576 {
        fixed2(centi_round(bytes as nat, 1024)) + " KiB"@
    } else if bytes < 1073741824 {
        fixed2(centi_round(bytes as nat, 1048576)) + " MiB"@
    } else if bytes < 1099511627776 {
        fixed2(centi_round(bytes as nat, 1073741824)) + " GiB"@
    } else {
        fixed2(centi_round(nearest_f64(bytes as nat), 1099511627776)) + " TiB"@
    }
}

fn spacing_of(b: u64) -> (u: u64)
    ensures
        u == f64_spacing(b as nat),
        1 <= u <= 2048,
{
    if b < 0x20000000000000 {
        1
    } else if b < 0x40000000000000 {
        2
    } else if b < 0x80000000000000 {
        4
    } else if b < 0x100000000000000 {
        8
    } else if b < 0x200000000000000 {
        16
    } else if b < 0x400000000000000 {
        32
    } else if b < 0x800000000000000 {
        64
    } else if b < 0x1000000000000000 {
        128
    } else if b < 0x2000000000000000 {
        256
    } else if b < 0x4000000000000000 {
        512
    } else if b < 0x8000000000000000 {
        1024
    } else {
        2048
    }
}

fn nearest_f64_exec(b: u64) -> (m: u128)
    ensures
        m == nearest_f64(b as nat),
        m <= 18446744073709553664,
{
    let u = spacing_of(b);
    let q = b / u;
    let r = b % u;
    proof {
        vstd::arithmetic::div_mod::lemma_fundamental_div_mod(b as int, u as int);
    }
    let q128 = q as u128;
    let u128v = u as u128;
    assert(q128 * u128v <= b) by (nonlinear_arith)
        requires
            u128v * q128 + r == b,
            r >= 0,
    ;
    assert((q128 + 1) * u128v <= b + 2048) by (nonlinear_arith)
        requires
            q128 * u128v <= b,
            u128v <= 2048,
    ;
    if r * 2 > u || (r * 2 == u && q % 2 == 1) {
        (q128 + 1) * u128v
    } else {
        q128 * u128v
    }
}

fn digit_of(d: u128) -> (c: char)
    requires
        d < 10,
    ensures
        c == digit_char(d as nat),
{
    if d == 0 { '0' } else if d == 1 { '1' } else if d == 2 { '2' } else if d == 3 { '3' }
    else if d == 4 { '4' } else if d == 5 { '5' } else if d == 6 { '6' } else if d == 7 { '7' }
    else if d == 8 { '8' } else { '9' }
}

/// `m / d` with two decimals (rounded half to even), followed by `unit`.
fn scaled_text(m: u128, d: u128, unit: &str) -> (r: String)
    requires
        1024 <= d <= 1099511627776,
        m <= 18446744073709553664,
    ensures
        r@ == fixed2(centi_round(m as nat, d as nat)) + unit@,
{
    let n = m * 100;
    let q = n / d;
    let rem = n % d;
    assert(q <= 1801439850948198600) by {
        vstd::arithmetic::div_mod::lemma_div_is_ordered_by_denominator(n as int, 1024, d as int);
        vstd::arithmetic::div_mod::lemma_div_is_ordered(n as int, 1844674407370955366400, 1024);
    }
    let c = if rem * 2 > d || (rem * 2 == d && q % 2 == 1) { q + 1 } else { q };
    let whole = c / 100;
    assert(whole <= u64::MAX);
    let mut out = String::new();
    push_decimal_str(&mut out, whole as u64);
    push_str(&mut out, ".");
    let frac = c % 100;
    let mut tail: Vec<char> = Vec::new();
    tail.push(digit_of(frac / 10));
    tail.push(digit_of(frac % 10));
    let t = crate::text::string_from_chars(&tail);
    out.append(t.as_str());
    push_str(&mut out, unit);
    assert(tail@ =~= seq![digit_char(((c % 100) / 10) as nat), digit_char((c % 10) as nat)]);
    proof {
        assert((c % 100) % 10 == c % 10) by (nonlinear_arith);
    }
    out
}

/// Writes a byte count with binary prefixes: `0 bytes`, `1 byte`, `1023 bytes`, then
/// `1.00 KiB`, `1.50 KiB`, … up to TiB, with two decimals.
pub fn format_bytes(bytes: u64) -> (r: String)
    ensures
        r@ == bytes_text(bytes),
{
    if bytes < 1024 {
        if bytes == 1 {
            return owned("1 byte");
        }
        let mut out = String::new();
        push_decimal_str(&mut out, bytes);
        push_str(&mut out, " bytes");
        return out;
    }
    if bytes < 1048576 {
        scaled_text(bytes as u128, 1024, " KiB")
    } else if bytes < 1073741824 {
        scaled_text(bytes as u128, 1048576, " MiB")
    } else if bytes < 1099511627776 {
        scaled_text(bytes as u128, 1073741824, " GiB")
    } else {
        let m = nearest_f64_exec(bytes);
        scaled_text(m, 1099511627776, " TiB")
    }
}

} // verus!
