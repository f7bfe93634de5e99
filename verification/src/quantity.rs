//! Amounts in words.

use crate::text::{decimal, digits};
use vstd::prelude::*;
use vstd::string::*;

verus! {

/// The nearest multiple of `d` to `a`, counted in `d`. Halfway between two, the even one.
pub open spec fn nearest_even(a: nat, d: nat) -> nat {
    let q = a / d;
    let r = a % d;
    if 2 * r < d || (2 * r == d && q % 2 == 0) {
        q
    } else {
        q + 1
    }
}

/// The first number with more digits than a double has room for: two to the power of 53.
pub const FLOAT_LIMIT: u64 = 0x20_0000_0000_0000;

/// The distance between doubles at a number: one below the limit, and twice as much for
/// every doubling from there.
pub open spec fn float_step(n: nat) -> nat
    decreases n,
{
    if n < FLOAT_LIMIT {
        1
    } else {
        2 * float_step(n / 2)
    }
}

/// A number as the nearest double.
pub open spec fn as_float(n: nat) -> nat {
    nearest_even(n, float_step(n)) * float_step(n)
}

/// The size of the binary unit that a number of bytes is shown in, at least `unit`: the
/// largest that it fills, but none above the `left` next ones.
pub open spec fn unit_size(n: nat, unit: nat, left: nat) -> nat
    decreases left,
{
    if left == 0 || n < unit * 1024 {
        unit
    } else {
        unit_size(n, unit * 1024, (left - 1) as nat)
    }
}

/// The name of a binary unit.
pub open spec fn unit_name(unit: nat) -> Seq<char> {
    if unit == 1024 {
        "KiB"@
    } else if unit == 1048576 {
        "MiB"@
    } else if unit == 1073741824 {
        "GiB"@
    } else if unit == 1099511627776 {
        "TiB"@
    } else if unit == 1125899906842624 {
        "PiB"@
    } else {
        "EiB"@
    }
}

/// A number of tenths, with one decimal that is left out when it is zero.
pub open spec fn tenths_text(t: nat) -> Seq<char> {
    if t % 10 == 0 {
        digits(t / 10)
    } else {
        digits(t / 10) + "."@ + digits(t % 10)
    }
}

/// A number of bytes in words: in the largest binary unit it fills, to one decimal.
pub open spec fn bytes_text(n: nat) -> Seq<char> {
    if n < 1024 {
        digits(n) + " B"@
    } else {
        let value = as_float(n);
        let unit = unit_size(value, 1024, 5);
        tenths_text(nearest_even(value * 10, unit)) + " "@ + unit_name(unit)
    }
}

fn round_even(a: u128, d: u128) -> (r: u128)
    requires
        0 < d <= 0x1_0000_0000_0000_0000,
        a <= 0x1_0000_0000_0000_0000_0000,
    ensures
        r == nearest_even(a as nat, d as nat),
{
    let q: u128 = a / d;
    let rest: u128 = a % d;
    assert(q <= a) by (nonlinear_arith)
        requires
            q == a / d,
            d > 0,
    ;
    if 2 * rest < d || (2 * rest == d && q % 2 == 0) {
        q
    } else {
        q + 1
    }
}

/// The steps between doubles up to the largest `u64`.
spec fn is_step(s: u64) -> bool {
    s == 1 || s == 2 || s == 4 || s == 8 || s == 16 || s == 32 || s == 64 || s == 128 || s == 256
        || s == 512 || s == 1024 || s == 2048
}

proof fn lemma_scaled(n: u64, step: u64, q: nat)
    requires
        is_step(step),
        q == nearest_even(n as nat, step as nat),
    ensures
        q * step <= 0x1_0000_0000_0000_0000,
        n >= 4096 ==> q * step >= 1024,
        step == 1 ==> q * step == n,
{
}

fn to_float(n: u64) -> (r: u128)
    ensures
        r == as_float(n as nat),
        r <= 0x1_0000_0000_0000_0000,
        n >= 1024 ==> r >= 1024,
{
    let mut step: u64 = 1;
    let mut top: u64 = n;
    while top >= FLOAT_LIMIT
        invariant
            float_step(n as nat) == step * float_step(top as nat),
            is_step(step),
            top * step <= n,
            step == 1 ==> top == n,
            step > 1 ==> n >= FLOAT_LIMIT,
        decreases top,
    {
        let ghost s = float_step((top / 2) as nat);
        assert(step * (2 * s) == (2 * step) * s) by (nonlinear_arith);
        assert(step < 2048) by (nonlinear_arith)
            requires
                top * step <= n,
                top >= 0x20_0000_0000_0000,
                n <= 0xffff_ffff_ffff_ffff,
        ;
        assert((top / 2) * (step * 2) <= n) by (nonlinear_arith)
            requires
                top * step <= n,
        ;
        step = step * 2;
        top = top / 2;
    }
    assert(float_step(top as nat) == 1);
    let q: u128 = round_even(n as u128, step as u128);
    proof {
        lemma_scaled(n, step, q as nat);
    }
    q * (step as u128)
}

/// Binary units, the ones rclone counts in. One decimal, and no trailing `.0`.
pub fn human_bytes(n: u64) -> (r: String)
    ensures
        r@ == bytes_text(n as nat),
{
    if n < 1024 {
        let mut s = decimal(n);
        s.append(" B");
        return s;
    }
    let value: u128 = to_float(n);
    let mut unit: u128 = 1024;
    let mut name = "KiB";
    let mut left: u64 = 5;
    while left > 0 && value >= unit * 1024
        invariant
            unit_size(value as nat, 1024, 5) == unit_size(value as nat, unit as nat, left as nat),
            name@ == unit_name(unit as nat),
            ({
                ||| left == 5 && unit == 1024
                ||| left == 4 && unit == 1048576
                ||| left == 3 && unit == 1073741824
                ||| left == 2 && unit == 1099511627776
                ||| left == 1 && unit == 1125899906842624
                ||| left == 0 && unit == 1152921504606846976
            }),
        decreases left,
    {
        unit = unit * 1024;
        left = left - 1;
        name = if left == 4 {
            "MiB"
        } else if left == 3 {
            "GiB"
        } else if left == 2 {
            "TiB"
        } else if left == 1 {
            "PiB"
        } else {
            "EiB"
        };
    }
    let tenths: u128 = round_even(value * 10, unit);
    proof {
        lemma_tenths_fit(value as nat, unit as nat);
    }
    let mut s = decimal((tenths / 10) as u64);
    if tenths % 10 != 0 {
        s.append(".");
        s.append(decimal((tenths % 10) as u64).as_str());
    }
    s.append(" ");
    s.append(name);
    s
}

proof fn lemma_tenths_fit(value: nat, unit: nat)
    requires
        value <= 0x1_0000_0000_0000_0000,
        unit >= 1024,
    ensures
        nearest_even(value * 10, unit) <= 0xffff_ffff_ffff_ffff,
{
    let a = value * 10;
    assert(a / unit <= a / 1024) by (nonlinear_arith)
        requires
            unit >= 1024,
            a >= 0,
    ;
}

/// How many files there are, and how many bytes where that is known.
pub open spec fn files_text(files: nat, bytes: nat) -> Seq<char> {
    let count = digits(files) + " "@ + if files == 1 {
        "file"@
    } else {
        "files"@
    };
    if bytes == 0 {
        count
    } else {
        count + ", "@ + bytes_text(bytes)
    }
}

/// "3 files, 1.2 GiB", or just the count when no total is known.
pub fn files_and_bytes(files: u64, bytes: u64) -> (r: String)
    ensures
        r@ == files_text(files as nat, bytes as nat),
{
    let mut s = decimal(files);
    s.append(" ");
    s.append(
        if files == 1 {
            "file"
        } else {
            "files"
        },
    );
    if bytes != 0 {
        s.append(", ");
        s.append(human_bytes(bytes).as_str());
    }
    s
}

/// What is outstanding, in one phrase.
pub open spec fn pending_text(files: nat, bytes: nat, unknown: nat) -> Seq<char> {
    let line = files_text(files, bytes) + " pending"@;
    if unknown > 0 {
        line + " ("@ + digits(unknown) + " of unknown size)"@
    } else {
        line
    }
}

/// What is outstanding, in one phrase, wherever it is shown. The qualifier is part of it: a
/// count printed without it reads as a total.
pub fn pending_phrase(files: u64, bytes: u64, unknown_size_files: u64) -> (r: String)
    ensures
        r@ == pending_text(files as nat, bytes as nat, unknown_size_files as nat),
{
    let mut s = files_and_bytes(files, bytes);
    s.append(" pending");
    if unknown_size_files > 0 {
        s.append(" (");
        s.append(decimal(unknown_size_files).as_str());
        s.append(" of unknown size)");
    }
    s
}

/// How long is left, in words.
pub open spec fn eta_text(secs: nat) -> Seq<char> {
    if secs < 5 {
        "a few seconds"@
    } else if secs < 60 {
        "about "@ + digits(secs) + "s"@
    } else if secs < 3600 {
        "about "@ + digits(secs / 60) + "m"@
    } else if secs < 86400 {
        let hours = "about "@ + digits(secs / 3600) + "h"@;
        let minutes = (secs % 3600) / 60;
        if minutes == 0 {
            hours
        } else {
            hours + " "@ + digits(minutes) + "m"@
        }
    } else {
        "over a day"@
    }
}

/// How long is left, at the resolution someone waiting actually cares about. The hedging is
/// part of the phrase: the estimate swings while files are still being added.
pub fn eta_phrase(secs: u64) -> (r: String)
    ensures
        r@ == eta_text(secs as nat),
{
    if secs < 5 {
        return "a few seconds".to_owned();
    }
    if secs >= 86400 {
        return "over a day".to_owned();
    }
    let mut s = "about ".to_owned();
    if secs < 60 {
        s.append(decimal(secs).as_str());
        s.append("s");
    } else if secs < 3600 {
        s.append(decimal(secs / 60).as_str());
        s.append("m");
    } else {
        s.append(decimal(secs / 3600).as_str());
        s.append("h");
        let minutes: u64 = (secs % 3600) / 60;
        if minutes != 0 {
            s.append(" ");
            s.append(decimal(minutes).as_str());
            s.append("m");
        }
    }
    s
}

} // verus!
