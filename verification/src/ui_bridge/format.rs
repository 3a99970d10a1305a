//! Names, sizes and times as text.

use crate::path::{file_name, MediaPath};
use crate::text::{decimal, from_utf8_lossy, push_decimal, utf8_lossy};
use vstd::prelude::*;

verus! {

/// The text by which a path is listed: its file name, or all of it where it has none.
pub open spec fn base_name(path: Seq<u8>) -> Seq<char> {
    match file_name(path) {
        Some(name) => utf8_lossy(name),
        None => utf8_lossy(path),
    }
}

/// The file name of a path, or the whole path where it has none.
pub fn basename(path: &MediaPath) -> (name: String)
    ensures
        name@ == base_name(path@),
{
    match path.file_name() {
        Some(name) => from_utf8_lossy(&name),
        None => path.to_text(),
    }
}

/// The smallest power of two of which less than two to the power of 53 make up `n`.
pub open spec fn float_step(n: nat) -> nat
    decreases n,
{
    if n < 0x20_0000_0000_0000 {
        1
    } else {
        2 * float_step(n / 2)
    }
}

/// The quotient of `a` and `b` rounded to the nearest whole number, halves to the even one.
pub open spec fn nearest_quotient(a: nat, b: nat) -> nat {
    let q = a / b;
    let r = a % b;
    if 2 * r > b || (2 * r == b && q % 2 == 1) {
        q + 1
    } else {
        q
    }
}

/// The number nearest to `n` that has at most 53 significant bits.
pub open spec fn nearest_float(n: nat) -> nat {
    nearest_quotient(n, float_step(n)) * float_step(n)
}

/// The unit in which a size is shown, as a power of 1024.
pub open spec fn size_unit(size: nat) -> nat {
    if size < 0x400 {
        0
    } else if size < 0x10_0000 {
        1
    } else if size < 0x4000_0000 {
        2
    } else if size < 0x100_0000_0000 {
        3
    } else {
        4
    }
}

/// How many bytes a unit stands for.
pub open spec fn unit_bytes(unit: nat) -> nat {
    if unit == 0 {
        1
    } else if unit == 1 {
        0x400
    } else if unit == 2 {
        0x10_0000
    } else if unit == 3 {
        0x4000_0000
    } else {
        0x100_0000_0000
    }
}

/// The sign of a unit.
pub open spec fn unit_sign(unit: nat) -> Seq<char> {
    if unit == 0 {
        "B"@
    } else if unit == 1 {
        "KB"@
    } else if unit == 2 {
        "MB"@
    } else if unit == 3 {
        "GB"@
    } else {
        "TB"@
    }
}

/// A file size as text: whole bytes below 1024, otherwise one decimal of the largest unit that
/// the size reaches.
pub open spec fn size_text(bytes: nat) -> Seq<char> {
    let size = nearest_float(bytes);
    let unit = size_unit(size);
    if unit == 0 {
        decimal(bytes) + " "@ + unit_sign(unit)
    } else {
        let tenths = nearest_quotient(10 * size, unit_bytes(unit));
        decimal(tenths / 10) + "."@ + decimal(tenths % 10) + " "@ + unit_sign(unit)
    }
}

proof fn lemma_float_step_positive(n: nat)
    ensures
        float_step(n) >= 1,
        n < 0x1_0000_0000_0000_0000 ==> float_step(n) <= 2048,
    decreases n,
{
    reveal_with_fuel(float_step, 12);
    if n >= 0x20_0000_0000_0000 {
        lemma_float_step_positive(n / 2);
    }
}

fn round_to_float(n: u64) -> (rounded: u128)
    ensures
        rounded == nearest_float(n as nat),
        rounded <= 0x2_0000_0000_0000_0000,
{
    let mut step: u128 = 1;
    let mut rest: u64 = n;
    proof {
        lemma_float_step_positive(n as nat);
    }
    while rest >= 0x20_0000_0000_0000
        invariant
            float_step(n as nat) == step * float_step(rest as nat),
            1 <= float_step(n as nat) <= 2048,
            1 <= step <= 2048,
        decreases rest,
    {
        proof {
            lemma_float_step_positive((rest / 2) as nat);
            let inner = float_step((rest / 2) as nat);
            assert(step * (2 * inner) == (step * 2) * inner) by (nonlinear_arith);
            assert(step * 2 <= (step * 2) * inner) by (nonlinear_arith)
                requires
                    inner >= 1,
            ;
        }
        rest = rest / 2;
        step = step * 2;
    }
    assert(float_step(rest as nat) == 1);
    assert(step == float_step(n as nat)) by (nonlinear_arith)
        requires
            float_step(n as nat) == step * float_step(rest as nat),
            float_step(rest as nat) == 1,
    ;
    let q: u128 = n as u128 / step;
    let r: u128 = n as u128 % step;
    let rounded: u128 = if 2 * r > step || (2 * r == step && q % 2 == 1) {
        q + 1
    } else {
        q
    };
    proof {
        assert(q * step <= n) by (nonlinear_arith)
            requires
                q == n as u128 / step,
                step >= 1,
        ;
        assert(rounded * step <= q * step + step) by (nonlinear_arith)
            requires
                rounded <= q + 1,
                step >= 1,
        ;
    }
    rounded * step
}

/// A file size as text.
pub fn format_file_size(bytes: u64) -> (text: String)
    ensures
        text@ == size_text(bytes as nat),
{
    let size = round_to_float(bytes);
    let mut text = String::new();
    if size < 0x400 {
        push_decimal(&mut text, bytes);
        text.push_str(" ");
        text.push_str("B");
        assert(text@ =~= size_text(bytes as nat));
        return text;
    }
    let scale: u128 = if size < 0x10_0000 {
        0x400
    } else if size < 0x4000_0000 {
        0x10_0000
    } else if size < 0x100_0000_0000 {
        0x4000_0000
    } else {
        0x100_0000_0000
    };
    let q: u128 = (10 * size) / scale;
    let r: u128 = (10 * size) % scale;
    let tenths: u128 = if 2 * r > scale || (2 * r == scale && q % 2 == 1) {
        q + 1
    } else {
        q
    };
    assert(tenths == nearest_quotient((10 * size) as nat, scale as nat));
    push_decimal(&mut text, (tenths / 10) as u64);
    text.push_str(".");
    push_decimal(&mut text, (tenths % 10) as u64);
    text.push_str(" ");
    if size < 0x10_0000 {
        text.push_str("KB");
    } else if size < 0x4000_0000 {
        text.push_str("MB");
    } else if size < 0x100_0000_0000 {
        text.push_str("GB");
    } else {
        text.push_str("TB");
    }
    assert(text@ =~= size_text(bytes as nat));
    text
}

/// A number below 100 with two digits.
pub open spec fn two_digits(n: nat) -> Seq<char> {
    if n < 10 {
        "0"@ + decimal(n)
    } else {
        decimal(n)
    }
}

/// A time as text: hours only where there are any, then minutes and seconds.
pub open spec fn time_text(seconds: nat) -> Seq<char> {
    let s = seconds % 60;
    let m = (seconds / 60) % 60;
    let h = seconds / 3600;
    if h > 0 {
        decimal(h) + ":"@ + two_digits(m) + ":"@ + two_digits(s)
    } else {
        decimal(m) + ":"@ + two_digits(s)
    }
}

fn push_two_digits(text: &mut String, n: u64)
    ensures
        final(text)@ == old(text)@ + two_digits(n as nat),
{
    if n < 10 {
        text.push_str("0");
    }
    push_decimal(text, n);
    assert(text@ =~= old(text)@ + two_digits(n as nat));
}

/// A time in whole seconds as text; `None`, for a time that is not known, reads as zero.
pub fn format_time(seconds: Option<u64>) -> (text: String)
    ensures
        text@ == time_text(match seconds {
            Some(s) => s as nat,
            None => 0,
        }),
{
    let total: u64 = match seconds {
        Some(s) => s,
        None => 0,
    };
    let s: u64 = total % 60;
    let m: u64 = (total / 60) % 60;
    let h: u64 = total / 3600;
    let mut text = String::new();
    if h > 0 {
        push_decimal(&mut text, h);
        text.push_str(":");
        push_two_digits(&mut text, m);
    } else {
        push_decimal(&mut text, m);
    }
    text.push_str(":");
    push_two_digits(&mut text, s);
    assert(text@ =~= time_text(total as nat));
    text
}

} // verus!
