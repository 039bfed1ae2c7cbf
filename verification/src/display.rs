//! How spans of time and sizes are shown to people.

use crate::text::{decimal, decimal_text, digit_char, push_decimal, string_of};
use vstd::prelude::*;
use vstd::string::StringExecFns;

verus! {

/// How long ago something happened, `secs` seconds back, in the largest
/// unit that fits: seconds below a minute, minutes below an hour, hours
/// below a day, and days. A time that lies ahead is shown as `just now`.
pub open spec fn human_duration(secs: i64) -> Seq<char> {
    if secs < 0 {
        "just now"@
    } else if secs < 60 {
        decimal_text(secs as nat) + "s ago"@
    } else if secs < 3600 {
        if secs / 60 == 1 {
            "1 min ago"@
        } else {
            decimal_text((secs / 60) as nat) + " mins ago"@
        }
    } else if secs < 86400 {
        if secs / 3600 == 1 {
            "1 hour ago"@
        } else {
            decimal_text((secs / 3600) as nat) + " hours ago"@
        }
    } else {
        if secs / 86400 == 1 {
            "1 day ago"@
        } else {
            decimal_text((secs / 86400) as nat) + " days ago"@
        }
    }
}

/// Shows how long ago something happened. See `human_duration`.
pub fn format_human_duration(secs: i64) -> (out: String)
    ensures
        out@ == human_duration(secs),
{
    if secs < 0 {
        return String::from_str("just now");
    }
    let s: u64 = secs as u64;
    if s < 60 {
        decimal(s).concat("s ago")
    } else if s < 3600 {
        let mins: u64 = s / 60;
        if mins == 1 {
            String::from_str("1 min ago")
        } else {
            decimal(mins).concat(" mins ago")
        }
    } else if s < 86400 {
        let hours: u64 = s / 3600;
        if hours == 1 {
            String::from_str("1 hour ago")
        } else {
            decimal(hours).concat(" hours ago")
        }
    } else {
        let days: u64 = s / 86400;
        if days == 1 {
            String::from_str("1 day ago")
        } else {
            decimal(days).concat(" days ago")
        }
    }
}


/// The largest power of two by which `n` has to be divided to fit 53 bits.
pub open spec fn binary_step(n: nat) -> nat
    decreases n,
{
    if n < 0x20_0000_0000_0000 {
        1
    } else {
        2 * binary_step(n / 2)
    }
}

/// `numerator / unit` rounded to the nearest whole number, and to the even
/// one of two that are equally near.
pub open spec fn rounded_half_even(numerator: nat, unit: nat) -> nat {
    let q = numerator / unit;
    let r = numerator % unit;
    if 2 * r > unit || (2 * r == unit && q % 2 == 1) {
        q + 1
    } else {
        q
    }
}

/// The number with 53 significant bits that is nearest to `n`: the
/// binary64 number that stands for `n`.
pub open spec fn nearest_binary64(n: nat) -> nat {
    rounded_half_even(n, binary_step(n)) * binary_step(n)
}

/// `bytes` in units of `unit` bytes, in tenths of the unit, counted on the
/// binary64 number that stands for `bytes`.
pub open spec fn tenths(bytes: u64, unit: nat) -> nat {
    rounded_half_even(nearest_binary64(bytes as nat) * 10, unit)
}

/// `tenths` tenths as a figure with one digit behind the point, and the
/// name of the unit.
pub open spec fn figure(tenths: nat, unit: Seq<char>) -> Seq<char> {
    decimal_text(tenths / 10) + seq!['.'] + seq![digit_char(tenths % 10)] + seq![' '] + unit
}

/// How a size of `bytes` bytes is shown: in bytes below 1024, and else in
/// the largest of the units KiB, MiB and GiB that it reaches, with one
/// digit behind the point.
pub open spec fn size_text(bytes: u64) -> Seq<char> {
    if bytes < 1024 {
        decimal_text(bytes as nat) + " B"@
    } else if bytes < 1024 * 1024 {
        figure(tenths(bytes, 1024), "KiB"@)
    } else if bytes < 1024 * 1024 * 1024 {
        figure(tenths(bytes, 1024 * 1024), "MiB"@)
    } else {
        figure(tenths(bytes, 1024 * 1024 * 1024), "GiB"@)
    }
}

fn round_half_even(numerator: u128, unit: u128) -> (out: u128)
    requires
        unit > 0,
        numerator < 0x1_0000_0000_0000_0000_0000,
    ensures
        out == rounded_half_even(numerator as nat, unit as nat),
{
    let q: u128 = numerator / unit;
    let r: u128 = numerator % unit;
    if r > unit - r || (r == unit - r && q % 2 == 1) {
        q + 1
    } else {
        q
    }
}

/// Rounds `n` to 53 significant bits.
fn to_binary64(n: u64) -> (out: u128)
    ensures
        out == nearest_binary64(n as nat),
        out <= 0x1_0000_0000_0000_0000,
{
    let mut step: u128 = 1;
    let mut m: u64 = n;
    while m >= 0x20_0000_0000_0000
        invariant
            1 <= step <= 0x800,
            step == 1 || step == 2 || step == 4 || step == 8 || step == 0x10 || step == 0x20
                || step == 0x40 || step == 0x80 || step == 0x100 || step == 0x200 || step == 0x400
                || step == 0x800,
            m as nat * step as nat <= n as nat,
            binary_step(n as nat) == step as nat * binary_step(m as nat),
            m == n as nat / step as nat,
        decreases m,
    {
        proof {
            assert(binary_step(m as nat) == 2 * binary_step(m as nat / 2));
            assert(step < 0x800) by {
                if step >= 0x800 {
                    assert(m as nat * step as nat >= 0x20_0000_0000_0000 * 0x800) by (nonlinear_arith)
                        requires
                            m >= 0x20_0000_0000_0000,
                            step >= 0x800,
                    ;
                }
            }
            assert((n as nat / step as nat) / 2 == n as nat / (step as nat * 2)) by (nonlinear_arith)
                requires
                    step >= 1,
            ;
            assert((m as nat / 2) * (step as nat * 2) <= m as nat * step as nat) by (nonlinear_arith);
            assert(step as nat * (2 * binary_step(m as nat / 2)) == (step as nat * 2) * binary_step(
                m as nat / 2,
            )) by (nonlinear_arith);
        }
        m = m / 2;
        step = step * 2;
    }
    assert(binary_step(m as nat) == 1);
    assert(step as nat * 1 == step as nat);
    let rounded = round_half_even(n as u128, step);
    assert(rounded <= n as nat / step as nat + 1);
    assert(rounded * step <= 0x1_0000_0000_0000_0000) by (nonlinear_arith)
        requires
            rounded <= m + 1,
            m < 0x20_0000_0000_0000,
            step <= 0x800,
            m as nat * step as nat <= n as nat,
            n < 0x1_0000_0000_0000_0000,
    ;
    rounded * step
}

fn show_figure(tenths_of_unit: u128, unit: &str) -> (out: String)
    requires
        tenths_of_unit <= 0xffff_ffff_ffff_ffff,
    ensures
        out@ == figure(tenths_of_unit as nat, unit@),
{
    let mut digits: Vec<char> = Vec::new();
    push_decimal(&mut digits, (tenths_of_unit / 10) as u64);
    digits.push('.');
    let d: u8 = (tenths_of_unit % 10) as u8;
    digits.push((48 + d) as char);
    digits.push(' ');
    assert(digits@ =~= decimal_text(tenths_of_unit as nat / 10) + seq!['.'] + seq![
        digit_char(tenths_of_unit as nat % 10),
    ] + seq![' ']);
    string_of(&digits).concat(unit)
}

/// Shows a size in bytes. See `size_text`.
pub fn format_size(bytes: u64) -> (out: String)
    ensures
        out@ == size_text(bytes),
{
    if bytes < 1024 {
        return decimal(bytes).concat(" B");
    }
    let x = to_binary64(bytes);
    if bytes < 1024 * 1024 {
        let t = round_half_even(x * 10, 1024);
        show_figure(t, "KiB")
    } else if bytes < 1024 * 1024 * 1024 {
        let t = round_half_even(x * 10, 1024 * 1024);
        show_figure(t, "MiB")
    } else {
        let t = round_half_even(x * 10, 1024 * 1024 * 1024);
        show_figure(t, "GiB")
    }
}

} // verus!
