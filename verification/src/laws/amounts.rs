//! What amounts in words say of the amounts.

use crate::laws::texts::{a_number_reads_back, number_in};
use crate::quantity::{
    as_float, bytes_text, eta_text, files_text, float_step, nearest_even, pending_text,
    tenths_text, unit_name, unit_size, FLOAT_LIMIT,
};
use crate::text::{begins_with, digits, finishes_with};
use vstd::prelude::*;

verus! {

/// Rounding is off by half a step at most, and where it is off by exactly half, it is to an
/// even number of steps. What is a number of steps already is kept.
pub proof fn rounding_is_to_the_nearest(a: nat, d: nat)
    requires
        d > 0,
    ensures
        2 * (nearest_even(a, d) * d - a) <= d,
        2 * (a - nearest_even(a, d) * d) <= d,
        2 * (nearest_even(a, d) * d - a) == d || 2 * (a - nearest_even(a, d) * d) == d
            ==> nearest_even(a, d) % 2 == 0,
        a % d == 0 ==> nearest_even(a, d) * d == a,
{
    let q = a / d;
    let r = a % d;
    vstd::arithmetic::div_mod::lemma_fundamental_div_mod(a as int, d as int);
    assert(a == d * q + r);
    assert(d * q == q * d) by (nonlinear_arith);
    assert((q + 1) * d == q * d + d) by (nonlinear_arith);
    if nearest_even(a, d) == q + 1 && 2 * r == d {
        assert(q % 2 == 1);
        assert((q + 1) % 2 == 0);
    }
}

/// Bytes below one unit are counted as they are.
pub proof fn few_bytes_are_counted(n: nat)
    requires
        n < 1024,
    ensures
        begins_with(bytes_text(n), digits(n)),
        finishes_with(bytes_text(n), " B"@),
        number_in(bytes_text(n).drop_last().drop_last()) == n,
{
    a_number_reads_back(n);
    let s = bytes_text(n);
    reveal_strlit(" B");
    assert(s.subrange(0, digits(n).len() as int) == digits(n));
    assert(s.subrange(s.len() - 2, s.len() as int) == " B"@);
    assert(s.drop_last().drop_last() == digits(n));
}

/// The binary units, by how often 1024 is taken.
pub open spec fn binary_unit(k: nat) -> nat
    decreases k,
{
    if k == 0 {
        1
    } else {
        1024 * binary_unit((k - 1) as nat)
    }
}

/// The unit that bytes are shown in is the largest that they fill, or the last there is.
pub proof fn the_largest_unit_filled_is_chosen(n: nat, unit: nat, left: nat)
    requires
        n >= unit,
        unit > 0,
    ensures
        unit_size(n, unit, left) <= n,
        n < unit_size(n, unit, left) * 1024 || unit_size(n, unit, left) == unit * binary_unit(left),
    decreases left,
{
    if left == 0 {
        assert(unit * 1 == unit) by (nonlinear_arith);
    } else if n >= unit * 1024 {
        let less = (left - 1) as nat;
        the_largest_unit_filled_is_chosen(n, unit * 1024, less);
        assert(unit * 1024 * binary_unit(less) == unit * (1024 * binary_unit(less)))
            by (nonlinear_arith);
    }
}

/// Every unit has a name of its own, by its first letter.
pub proof fn a_unit_has_its_own_name(k: nat)
    requires
        1 <= k <= 6,
    ensures
        unit_name(binary_unit(k)).len() == 3,
        unit_name(binary_unit(k))[0] == seq!['K', 'M', 'G', 'T', 'P', 'E'][k - 1],
        unit_name(binary_unit(k)).skip(1) == "iB"@,
{
    reveal_with_fuel(binary_unit, 7);
    reveal_strlit("KiB");
    reveal_strlit("MiB");
    reveal_strlit("GiB");
    reveal_strlit("TiB");
    reveal_strlit("PiB");
    reveal_strlit("EiB");
    reveal_strlit("iB");
}

/// A number of tenths is told by its whole part, and by its tenth unless that is none.
pub proof fn tenths_are_told(t: nat)
    ensures
        begins_with(tenths_text(t), digits(t / 10)),
        t % 10 == 0 ==> tenths_text(t) == digits(t / 10),
        t % 10 != 0 ==> finishes_with(tenths_text(t), "."@ + digits(t % 10)),
        t % 10 != 0 ==> tenths_text(t).len() == digits(t / 10).len() + 2,
{
    let s = tenths_text(t);
    reveal_strlit(".");
    assert(s.subrange(0, digits(t / 10).len() as int) == digits(t / 10));
    if t % 10 != 0 {
        let end = "."@ + digits(t % 10);
        assert(end.len() == 2);
        assert(s.subrange(s.len() - 2, s.len() as int) == end);
    }
}

/// Many bytes are told by a number of tenths of the unit that is named behind it, and that
/// number is off by half a tenth at most.
pub proof fn many_bytes_are_told_to_a_tenth(n: nat)
    requires
        1024 <= n < FLOAT_LIMIT,
    ensures
        exists|unit: nat, tenths: nat|
            unit >= 1024 && bytes_text(n) == #[trigger] tenths_text(tenths) + " "@
                + #[trigger] unit_name(unit) && unit <= n && 2 * (tenths * unit - 10 * n) <= unit
                && 2 * (10 * n - tenths * unit) <= unit && (n < unit * 1024 || unit
                == 1024 * binary_unit(5)),
{
    let step = float_step(n);
    assert(step == 1);
    assert(n / 1 == n && n % 1 == 0) by (nonlinear_arith);
    assert(as_float(n) == n);
    let unit = unit_size(n, 1024, 5);
    let tenths = nearest_even(n * 10, unit);
    lemma_unit_grows(n, 1024, 5);
    the_largest_unit_filled_is_chosen(n, 1024, 5);
    rounding_is_to_the_nearest(n * 10, unit);
    assert(bytes_text(n) == tenths_text(tenths) + " "@ + unit_name(unit));
}

proof fn lemma_unit_grows(n: nat, unit: nat, left: nat)
    ensures
        unit_size(n, unit, left) >= unit,
    decreases left,
{
    if left > 0 && n >= unit * 1024 {
        lemma_unit_grows(n, unit * 1024, (left - 1) as nat);
    }
}

/// A count of files begins with the number, and ends with the bytes where there are any. One
/// file is not said to be files.
pub proof fn files_are_counted(files: nat, bytes: nat)
    ensures
        begins_with(files_text(files, bytes), digits(files) + " file"@),
        bytes > 0 ==> finishes_with(files_text(files, bytes), ", "@ + bytes_text(bytes)),
        bytes == 0 && files == 1 ==> files_text(files, bytes) == digits(files) + " file"@,
        bytes == 0 && files != 1 ==> files_text(files, bytes) == digits(files) + " files"@,
{
    reveal_strlit(" ");
    reveal_strlit("file");
    reveal_strlit("files");
    reveal_strlit(" file");
    reveal_strlit(" files");
    let count = digits(files) + " "@ + if files == 1 {
        "file"@
    } else {
        "files"@
    };
    let head = digits(files) + " file"@;
    assert(count.subrange(0, head.len() as int) == head);
    assert(files == 1 ==> count == digits(files) + " file"@);
    assert(files != 1 ==> count == digits(files) + " files"@);
    let s = files_text(files, bytes);
    assert(s.subrange(0, count.len() as int) == count);
    assert(s.subrange(0, head.len() as int) == count.subrange(0, head.len() as int));
    if bytes > 0 {
        let end = ", "@ + bytes_text(bytes);
        assert(s == count + end);
        assert(s.subrange(s.len() - end.len(), s.len() as int) == end);
    }
}

/// What is outstanding begins with the files and the bytes, and says of how many files the size
/// is unknown exactly where there are any.
pub proof fn what_is_unknown_is_said(files: nat, bytes: nat, unknown: nat)
    ensures
        begins_with(pending_text(files, bytes, unknown), files_text(files, bytes) + " pending"@),
        unknown == 0 ==> pending_text(files, bytes, unknown) == files_text(files, bytes)
            + " pending"@,
        unknown > 0 ==> finishes_with(
            pending_text(files, bytes, unknown),
            " ("@ + digits(unknown) + " of unknown size)"@,
        ),
{
    let line = files_text(files, bytes) + " pending"@;
    let s = pending_text(files, bytes, unknown);
    assert(s.subrange(0, line.len() as int) == line);
    if unknown > 0 {
        let end = " ("@ + digits(unknown) + " of unknown size)"@;
        assert(s == line + end);
        assert(s.subrange(s.len() - end.len(), s.len() as int) == end);
    }
}

/// How long is left is told in the unit that it is a few of: in seconds below a minute, in
/// minutes below an hour, and below a day in hours and minutes that fall short of it by less
/// than a minute.
pub proof fn how_long_is_left_is_told(secs: nat)
    ensures
        5 <= secs < 60 ==> eta_text(secs) == "about "@ + digits(secs) + "s"@,
        60 <= secs < 3600 ==> exists|m: nat|
            eta_text(secs) == "about "@ + #[trigger] digits(m) + "m"@ && m * 60 <= secs < m * 60
                + 60,
        3600 <= secs < 86400 ==> exists|h: nat, m: nat|
            h * 3600 + m * 60 <= secs < h * 3600 + m * 60 + 60 && m < 60 && eta_text(secs)
                == "about "@ + #[trigger] digits(h) + "h"@ + if m == 0 {
                Seq::<char>::empty()
            } else {
                " "@ + #[trigger] digits(m) + "m"@
            },
        secs < 5 ==> eta_text(secs) == "a few seconds"@,
        secs >= 86400 ==> eta_text(secs) == "over a day"@,
{
    if 60 <= secs < 3600 {
        let m = secs / 60;
        assert(eta_text(secs) == "about "@ + digits(m) + "m"@);
        assert(m * 60 <= secs < m * 60 + 60);
    } else if 3600 <= secs < 86400 {
        let h = secs / 3600;
        let m = (secs % 3600) / 60;
        assert(h * 3600 + m * 60 <= secs < h * 3600 + m * 60 + 60 && m < 60);
        let hours = "about "@ + digits(h) + "h"@;
        let end = " "@ + digits(m) + "m"@;
        if m == 0 {
            assert(hours + Seq::<char>::empty() == hours);
        } else {
            assert(hours + " "@ + digits(m) + "m"@ == hours + end);
        }
    }
}

} // verus!
