//! What numbers, sizes, times and speeds read as text.

use crate::text::{ascii_lowered, decimal, digit};
use crate::thumbnails::hash::hex;
use crate::ui_bridge::controls::{speed_label, speed_list, SpeedCycle};
use crate::ui_bridge::format::{
    float_step, nearest_float, nearest_quotient, size_text, size_unit, time_text, two_digits,
    unit_bytes, unit_sign,
};
use vstd::prelude::*;

verus! {

/// The number that decimal digits stand for.
pub open spec fn number_read(text: Seq<char>) -> int
    decreases text.len(),
{
    if text.len() == 0 {
        0
    } else {
        10 * number_read(text.drop_last()) + (text.last() as int - 48)
    }
}

/// A number in decimal digits reads back as that number. There are digits only, and no zero leads
/// them.
pub proof fn decimal_reads_back(n: nat)
    ensures
        number_read(decimal(n)) == n,
        decimal(n).len() > 0,
        forall|k: int| 0 <= k < decimal(n).len() ==> '0' <= #[trigger] decimal(n)[k] <= '9',
        n > 0 ==> decimal(n)[0] != '0',
        n < 10 ==> decimal(n).len() == 1,
        n >= 10 ==> decimal(n).len() >= 2,
    decreases n,
{
    reveal_with_fuel(number_read, 2);
    let text = decimal(n);
    if n < 10 {
        assert(text.drop_last() =~= Seq::empty());
    } else {
        decimal_reads_back(n / 10);
        assert(text.drop_last() =~= decimal(n / 10));
    }
}

/// Lowercase turns the 26 capitals into their small letters, and leaves every other character.
pub proof fn lowercase_turns_capitals(text: Seq<char>, k: int)
    requires
        0 <= k < text.len(),
    ensures
        ascii_lowered(text).len() == text.len(),
        'A' <= text[k] <= 'Z' ==> ascii_lowered(text)[k] as int == text[k] as int + 32,
        !('A' <= text[k] <= 'Z') ==> ascii_lowered(text)[k] == text[k],
{
}

/// The number that a hexadecimal digit stands for.
pub open spec fn digit_read(c: char) -> int {
    if '0' <= c <= '9' {
        c as int - '0' as int
    } else {
        c as int - 'a' as int + 10
    }
}

/// Bytes in hexadecimal digits read back as those bytes, two digits for each, in their order. The
/// letters among the digits are small ones.
pub proof fn hex_reads_back(bytes: Seq<u8>, k: int)
    requires
        0 <= k < bytes.len(),
    ensures
        hex(bytes).len() == 2 * bytes.len(),
        digit_read(hex(bytes)[2 * k]) * 16 + digit_read(hex(bytes)[2 * k + 1]) == bytes[k],
        '0' <= hex(bytes)[2 * k] <= '9' || 'a' <= hex(bytes)[2 * k] <= 'f',
        '0' <= hex(bytes)[2 * k + 1] <= '9' || 'a' <= hex(bytes)[2 * k + 1] <= 'f',
    decreases bytes.len(),
{
    lemma_hex_len(bytes);
    let init = bytes.drop_last();
    lemma_hex_len(init);
    if k < init.len() {
        hex_reads_back(init, k);
        assert(init[k] == bytes[k]);
        assert(hex(bytes)[2 * k] == hex(init)[2 * k]);
        assert(hex(bytes)[2 * k + 1] == hex(init)[2 * k + 1]);
    }
}

proof fn lemma_hex_len(bytes: Seq<u8>)
    ensures
        hex(bytes).len() == 2 * bytes.len(),
    decreases bytes.len(),
{
    if bytes.len() > 0 {
        lemma_hex_len(bytes.drop_last());
    }
}

/// A number below 100 in two digits reads back as that number.
pub proof fn two_digits_read_back(n: nat)
    requires
        n < 100,
    ensures
        two_digits(n).len() == 2,
        number_read(two_digits(n)) == n,
{
    reveal_strlit("0");
    reveal_with_fuel(number_read, 3);
    reveal_with_fuel(decimal, 3);
    let text = two_digits(n);
    if n < 10 {
        assert(text =~= seq!['0', digit(n)]);
    } else {
        assert(decimal(n / 10) =~= seq![digit(n / 10)]);
        assert(text =~= seq![digit(n / 10), digit(n % 10)]);
    }
    assert(text.drop_last().drop_last() =~= Seq::empty());
    assert(text.drop_last().last() == text[0]);
}

/// A time of some hours, minutes and seconds names them in this order, with two digits for what is
/// not named first. Hours are left out where there are none.
pub proof fn time_names_hours_minutes_seconds(h: nat, m: nat, s: nat)
    requires
        m < 60,
        s < 60,
    ensures
        h > 0 ==> time_text(h * 3600 + m * 60 + s) == decimal(h) + ":"@ + two_digits(m) + ":"@
            + two_digits(s),
        time_text(m * 60 + s) == decimal(m) + ":"@ + two_digits(s),
{
    let t = h * 3600 + m * 60 + s;
    assert(t % 60 == s);
    assert(t / 60 == h * 60 + m);
    assert((t / 60) % 60 == m);
    assert(t / 3600 == h);
    let u = m * 60 + s;
    assert(u % 60 == s && u / 60 == m && u / 3600 == 0);
}

/// A size below 1024 bytes is shown in whole bytes. A larger one, as far as it is exact in double
/// precision, is shown in the largest of the units from 1024 bytes on that it reaches, to the
/// nearest tenth, and to the even one of two that are as near.
pub proof fn size_is_shown_to_the_nearest_tenth(n: nat)
    requires
        n < 0x20_0000_0000_0000,
    ensures
        n < 1024 ==> size_text(n) == decimal(n) + " "@ + "B"@,
        1024 <= n < 1048576 ==> exists|tenths: nat|
            rounds_to(n, 1024, tenths) && size_text(n) == #[trigger] tenths_text(tenths) + " "@
                + "KB"@,
        1048576 <= n < 1073741824 ==> exists|tenths: nat|
            rounds_to(n, 1048576, tenths) && size_text(n) == #[trigger] tenths_text(tenths) + " "@
                + "MB"@,
        1073741824 <= n < 1099511627776 ==> exists|tenths: nat|
            rounds_to(n, 1073741824, tenths) && size_text(n) == #[trigger] tenths_text(tenths)
                + " "@ + "GB"@,
        1099511627776 <= n ==> exists|tenths: nat|
            rounds_to(n, 1099511627776, tenths) && size_text(n) == #[trigger] tenths_text(tenths)
                + " "@ + "TB"@,
{
    assert(float_step(n) == 1);
    assert(nearest_quotient(n, 1) == n) by {
        assert(n / 1 == n && n % 1 == 0);
    }
    assert(nearest_float(n) == n);
    let unit = unit_bytes(size_unit(n));
    let tenths = nearest_quotient(10 * n, unit);
    if n >= 1024 {
        lemma_rounds(n, unit);
        assert(size_text(n) =~= tenths_text(tenths) + " "@ + unit_sign(size_unit(n)));
    }
}

/// A number of tenths with a point before the last of its digits.
pub open spec fn tenths_text(tenths: nat) -> Seq<char> {
    decimal(tenths / 10) + "."@ + decimal(tenths % 10)
}

/// Whether a number of tenths of a unit is the nearest to a number of bytes; of two that are as
/// near, the even one.
pub open spec fn rounds_to(n: nat, unit: nat, tenths: nat) -> bool {
    let off = 2 * (10 * n - tenths * unit);
    -(unit as int) <= off <= unit && ((off == unit || off == -(unit as int)) ==> tenths % 2 == 0)
}

proof fn lemma_rounds(n: nat, unit: nat)
    requires
        unit >= 1,
    ensures
        rounds_to(n, unit, nearest_quotient(10 * n, unit)),
{
    let a = 10 * n;
    let q = a / unit;
    let r = a % unit;
    let t = nearest_quotient(a, unit);
    assert(a == q * unit + r && 0 <= r < unit) by (nonlinear_arith)
        requires
            q == a / unit,
            r == a % unit,
            unit >= 1,
    ;
    assert((q + 1) * unit == q * unit + unit) by (nonlinear_arith);
    if t == q + 1 {
        assert(2 * (a - t * unit) == 2 * r - 2 * unit);
    } else {
        assert(2 * (a - t * unit) == 2 * r);
    }
}

/// A size that is not exact in double precision is first rounded to one that is: to the nearest
/// multiple of a power of two, of which there are less than two to the power of 53 in it.
pub proof fn large_sizes_are_rounded(n: nat)
    ensures
        ({
            let step = float_step(n);
            let off = 2 * (n - nearest_float(n));
            &&& step >= 1
            &&& n < 0x20_0000_0000_0000 ==> nearest_float(n) == n
            &&& n >= 0x20_0000_0000_0000 ==> step == 2 * float_step(n / 2)
            &&& -(step as int) <= off <= step
            &&& exists|times: nat| nearest_float(n) == #[trigger] (times * step)
        }),
    decreases n,
{
    if n >= 0x20_0000_0000_0000 {
        large_sizes_are_rounded(n / 2);
    }
    let step = float_step(n);
    let q = n / step;
    let r = n % step;
    assert(n == q * step + r && 0 <= r < step) by (nonlinear_arith)
        requires
            q == n / step,
            r == n % step,
            step >= 1,
    ;
    assert((q + 1) * step == q * step + step) by (nonlinear_arith);
    assert(q * step == nearest_float(n) || (q + 1) * step == nearest_float(n));
    if n < 0x20_0000_0000_0000 {
        assert(q == n && r == 0) by (nonlinear_arith)
            requires
                q == n / step,
                r == n % step,
                step == 1,
        ;
    }
}

/// A size that is not exact in double precision is shown in terabytes, to the tenth that is the
/// nearest to what it was rounded to.
pub proof fn large_sizes_are_shown_in_terabytes(n: nat)
    requires
        n >= 0x20_0000_0000_0000,
    ensures
        exists|tenths: nat|
            rounds_to(nearest_float(n), 1099511627776, tenths) && size_text(n)
                == #[trigger] tenths_text(tenths) + " "@ + "TB"@,
{
    large_sizes_are_rounded(n);
    lemma_step_is_small(n);
    let size = nearest_float(n);
    let tenths = nearest_quotient(10 * size, 1099511627776);
    assert(size_unit(size) == 4);
    lemma_rounds(size, 1099511627776);
    assert(size_text(n) =~= tenths_text(tenths) + " "@ + "TB"@);
}

proof fn lemma_step_is_small(n: nat)
    requires
        n >= 0x20_0000_0000_0000,
    ensures
        float_step(n) * 0x10_0000_0000_0000 <= n,
    decreases n,
{
    if n / 2 >= 0x20_0000_0000_0000 {
        lemma_step_is_small(n / 2);
    } else {
        assert(float_step(n / 2) == 1);
    }
}

/// A speed in hundredths names its whole part and then just the decimals that are not zero at
/// its end.
pub proof fn speed_names_needed_decimals(whole: nat, tenth: nat, hundredth: nat)
    requires
        tenth < 10,
        hundredth < 10,
    ensures
        hundredth > 0 ==> speed_label(100 * whole + 10 * tenth + hundredth) == decimal(whole)
            + "."@ + decimal(tenth) + decimal(hundredth) + "x"@,
        tenth > 0 ==> speed_label(100 * whole + 10 * tenth) == decimal(whole) + "."@ + decimal(
            tenth,
        ) + "x"@,
        speed_label(100 * whole) == decimal(whole) + "x"@,
{
    lemma_parts(whole, tenth, hundredth);
    lemma_parts(whole, tenth, 0);
    lemma_parts(whole, 0, 0);
}

proof fn lemma_parts(whole: nat, tenth: nat, hundredth: nat)
    requires
        tenth < 10,
        hundredth < 10,
    ensures
        ({
            let a = 100 * whole + 10 * tenth + hundredth;
            &&& a / 100 == whole
            &&& a % 100 == 10 * tenth + hundredth
            &&& a % 10 == hundredth
            &&& a % 100 / 10 == tenth
        }),
{
    let a = 100 * whole + 10 * tenth + hundredth;
    assert(a / 100 == whole);
    assert(a % 100 == 10 * tenth + hundredth);
    assert(a % 10 == hundredth);
}

/// The speeds follow each other from half speed to double speed, and then from the beginning.
pub proof fn speeds_rise_and_begin_anew(cycle: SpeedCycle)
    requires
        cycle.wf(),
    ensures
        cycle.current() == 50 || cycle.current() == 75 || cycle.current() == 100 || cycle.current()
            == 125 || cycle.current() == 150 || cycle.current() == 200,
        cycle.current() == 50 ==> cycle.next().current() == 75,
        cycle.current() == 75 ==> cycle.next().current() == 100,
        cycle.current() == 100 ==> cycle.next().current() == 125,
        cycle.current() == 125 ==> cycle.next().current() == 150,
        cycle.current() == 150 ==> cycle.next().current() == 200,
        cycle.current() == 200 ==> cycle.next().current() == 50,
        cycle.next().wf(),
{
    let list = speed_list();
    assert(list.len() == 6);
    assert(list[0] == 50 && list[1] == 75 && list[2] == 100 && list[3] == 125 && list[4] == 150
        && list[5] == 200);
}

} // verus!
