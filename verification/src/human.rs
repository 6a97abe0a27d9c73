//! Sizes, counts, durations and paths for human readers.

use vstd::prelude::*;

use crate::text;

verus! {

/// A kilobyte.
pub const KB: u64 = 1024;

/// A megabyte.
pub const MB: u64 = 1024 * 1024;

/// A gigabyte.
pub const GB: u64 = 1024 * 1024 * 1024;

/// `a / b` rounded to the nearest integer, and to the even one of two that are equally near.
pub open spec fn half_even(a: nat, b: nat) -> nat
    recommends
        b > 0,
{
    let q = a / b;
    let r = a % b;
    if 2 * r < b || (2 * r == b && q % 2 == 0) {
        q
    } else {
        q + 1
    }
}

/// The distance between neighbouring double-precision numbers of the size of `n`, for `n` from
/// 2^53 on; 1 below that.
pub open spec fn spacing(n: nat) -> nat
    decreases n,
{
    if n < 0x20_0000_0000_0000 {
        1
    } else {
        2 * spacing(n / 2)
    }
}

/// The double-precision number that is nearest to `n`.
pub open spec fn nearest_double(n: nat) -> nat {
    half_even(n, spacing(n)) * spacing(n)
}

/// `t` tenths, written with one decimal.
pub open spec fn tenths_text(t: nat) -> Seq<char> {
    text::decimal_text(t / 10) + "."@ + text::decimal_text(t % 10)
}

/// A number of bytes in the largest unit that it reaches: gigabytes with one decimal, megabytes
/// and kilobytes without.
pub open spec fn bytes_text(n: u64) -> Seq<char> {
    if n >= GB {
        tenths_text(half_even(10 * nearest_double(n as nat), GB as nat)) + " GB"@
    } else if n >= MB {
        text::decimal_text(half_even(n as nat, MB as nat)) + " MB"@
    } else if n >= KB {
        text::decimal_text(half_even(n as nat, KB as nat)) + " KB"@
    } else {
        text::decimal_text(n as nat) + " B"@
    }
}

/// `s` with a comma before each group of three characters, counted from the end.
pub open spec fn grouped(s: Seq<char>) -> Seq<char>
    decreases s.len(),
{
    if s.len() <= 3 {
        s
    } else {
        grouped(s.take(s.len() - 3)) + ","@ + s.skip(s.len() - 3)
    }
}

/// A count, with separators between the thousands.
pub open spec fn count_text(n: u64) -> Seq<char> {
    grouped(text::decimal_text(n as nat))
}

/// A duration in its two largest units.
pub open spec fn duration_text(secs: u64) -> Seq<char> {
    if secs < 60 {
        text::decimal_text(secs as nat) + "s"@
    } else if secs < 3600 {
        text::decimal_text(secs as nat / 60) + "m"@
    } else if secs < 86_400 {
        text::decimal_text(secs as nat / 3600) + "h"@ + text::two_digits_text(
            (secs as nat % 3600) / 60,
        ) + "m"@
    } else {
        text::decimal_text(secs as nat / 86_400) + "d"@ + text::two_digits_text(
            (secs as nat % 86_400) / 3600,
        ) + "h"@
    }
}

/// A duration given in milliseconds.
pub open spec fn duration_ms_text(ms: u64) -> Seq<char> {
    if ms < 1000 {
        text::decimal_text(ms as nat) + "ms"@
    } else {
        duration_text((ms / 1000) as u64)
    }
}

/// `s`, or an ellipsis and as much of its end as fits into `max` characters.
pub open spec fn tail_text(s: Seq<char>, max: int) -> Seq<char> {
    if s.len() <= max {
        s
    } else {
        "\u{2026}"@ + s.skip(s.len() - (max - 1))
    }
}

fn round_half_even(a: u128, b: u128) -> (r: u128)
    requires
        0 < b <= 0x1_0000_0000_0000_0000,
        a <= 0xff_ffff_ffff_ffff_ffff,
    ensures
        r == half_even(a as nat, b as nat),
        r <= a / b + 1,
{
    let q: u128 = a / b;
    let r: u128 = a % b;
    if 2 * r < b || (2 * r == b && q % 2 == 0) {
        q
    } else {
        assert(q <= a) by (nonlinear_arith)
            requires
                q == a / b,
                b > 0,
        ;
        q + 1
    }
}

fn double_spacing(n: u64) -> (r: u64)
    ensures
        r == spacing(n as nat),
        r >= 1,
        r == 1 || r * 0x10_0000_0000_0000 <= n,
    decreases n,
{
    if n < 0x20_0000_0000_0000 {
        1
    } else {
        2 * double_spacing(n / 2)
    }
}

fn round_to_double(n: u64) -> (r: u128)
    ensures
        r == nearest_double(n as nat),
        r <= n + 4096,
{
    let d: u64 = double_spacing(n);
    let q: u128 = round_half_even(n as u128, d as u128);
    assert(q * d <= n + d) by (nonlinear_arith)
        requires
            q <= (n as u128) / (d as u128) + 1,
            d > 0,
    ;
    q * d as u128
}

fn tenths(t: u64) -> (r: String)
    ensures
        r@ == tenths_text(t as nat),
{
    let mut r = text::decimal(t / 10);
    r.append(".");
    r.append(text::decimal(t % 10).as_str());
    r
}

/// Writes a number of bytes.
pub fn format_bytes(n: u64) -> (r: String)
    ensures
        r@ == bytes_text(n),
{
    if n >= GB {
        let t: u128 = round_half_even(10 * round_to_double(n), GB as u128);
        assert(t <= u64::MAX);
        let mut r = tenths(t as u64);
        r.append(" GB");
        r
    } else if n >= MB {
        let q: u128 = round_half_even(n as u128, MB as u128);
        let mut r = text::decimal(q as u64);
        r.append(" MB");
        r
    } else if n >= KB {
        let q: u128 = round_half_even(n as u128, KB as u128);
        let mut r = text::decimal(q as u64);
        r.append(" KB");
        r
    } else {
        let mut r = text::decimal(n);
        r.append(" B");
        r
    }
}

/// What has been written of `grouped(s)` after the first `n` characters of `s`.
spec fn grouped_front(s: Seq<char>, n: int) -> Seq<char>
    decreases n,
{
    if n <= 0 {
        seq![]
    } else {
        let front = grouped_front(s, n - 1);
        if n > 1 && (s.len() - (n - 1)) % 3 == 0 {
            (front + ","@).push(s[n - 1])
        } else {
            front.push(s[n - 1])
        }
    }
}

proof fn grouped_front_of_prefix(s: Seq<char>, n: int)
    requires
        0 <= n <= s.len() - 3,
    ensures
        grouped_front(s, n) == grouped_front(s.take(s.len() - 3), n),
    decreases n,
{
    if n > 0 {
        grouped_front_of_prefix(s, n - 1);
        assert((s.len() - (n - 1)) % 3 == ((s.len() - 3) - (n - 1)) % 3);
        assert(s.take(s.len() - 3)[n - 1] == s[n - 1]);
    }
}

proof fn grouped_front_is_grouped(s: Seq<char>)
    ensures
        grouped_front(s, s.len() as int) == grouped(s),
    decreases s.len(),
{
    let n = s.len() as int;
    reveal_with_fuel(grouped_front, 4);
    if n <= 3 {
        assert(grouped_front(s, n) =~= s);
    } else {
        let front = s.take(n - 3);
        grouped_front_is_grouped(front);
        grouped_front_of_prefix(s, n - 3);
        assert(grouped_front(s, n) =~= grouped(front) + ","@ + s.skip(n - 3));
    }
}

/// Writes a count.
pub fn format_count(n: u64) -> (r: String)
    ensures
        r@ == count_text(n),
{
    let digits = text::chars_of(text::decimal(n).as_str());
    let len: usize = digits.len();
    let mut out = String::new();
    let mut i: usize = 0;
    while i < len
        invariant
            len == digits@.len(),
            i <= len,
            out@ == grouped_front(digits@, i as int),
        decreases len - i,
    {
        if i > 0 && (len - i) % 3 == 0 {
            out.append(",");
        }
        out.push(digits[i]);
        i = i + 1;
    }
    proof {
        grouped_front_is_grouped(digits@);
    }
    out
}

/// Writes a duration given in seconds.
pub fn format_duration(secs: u64) -> (r: String)
    ensures
        r@ == duration_text(secs),
{
    if secs < 60 {
        let mut r = text::decimal(secs);
        r.append("s");
        r
    } else if secs < 3600 {
        let mut r = text::decimal(secs / 60);
        r.append("m");
        r
    } else if secs < 86_400 {
        let mut r = text::decimal(secs / 3600);
        r.append("h");
        r.append(text::two_digits((secs % 3600) / 60).as_str());
        r.append("m");
        r
    } else {
        let mut r = text::decimal(secs / 86_400);
        r.append("d");
        r.append(text::two_digits((secs % 86_400) / 3600).as_str());
        r.append("h");
        r
    }
}

/// Writes a duration given in milliseconds.
pub fn format_duration_ms(ms: u64) -> (r: String)
    ensures
        r@ == duration_ms_text(ms),
{
    if ms < 1000 {
        let mut r = text::decimal(ms);
        r.append("ms");
        r
    } else {
        format_duration(ms / 1000)
    }
}

/// Shortens a text from the left: paths differ mostly in their ends.
pub fn truncate_left(s: &str, max: usize) -> (r: String)
    requires
        max > 0 || s@.len() == 0,
    ensures
        r@ == tail_text(s@, max as int),
{
    let chars = text::chars_of(s);
    if chars.len() <= max {
        s.to_owned()
    } else {
        let mut r = "\u{2026}".to_owned();
        r.append(text::text_from(&chars, chars.len() - (max - 1)).as_str());
        r
    }
}

/// What is left of `s` without its commas.
pub open spec fn without_commas(s: Seq<char>) -> Seq<char>
    decreases s.len(),
{
    if s.len() == 0 {
        s
    } else if s.last() == ',' {
        without_commas(s.drop_last())
    } else {
        without_commas(s.drop_last()).push(s.last())
    }
}

/// The number that the decimal digits of `s` denote.
pub open spec fn number_of(s: Seq<char>) -> int
    decreases s.len(),
{
    if s.len() == 0 {
        0
    } else {
        10 * number_of(s.drop_last()) + (s.last() as int - '0' as int)
    }
}

proof fn without_commas_of_sum(a: Seq<char>, b: Seq<char>)
    ensures
        without_commas(a + b) == without_commas(a) + without_commas(b),
    decreases b.len(),
{
    if b.len() == 0 {
        assert(a + b =~= a);
        assert(without_commas(a) + without_commas(b) =~= without_commas(a));
    } else {
        assert((a + b).drop_last() =~= a + b.drop_last());
        without_commas_of_sum(a, b.drop_last());
        assert(without_commas(a + b) =~= without_commas(a) + without_commas(b));
    }
}

proof fn grouping_only_adds_commas(s: Seq<char>)
    requires
        forall|i: int| 0 <= i < s.len() ==> s[i] != ',',
    ensures
        without_commas(grouped(s)) == s,
    decreases s.len(),
{
    if s.len() <= 3 {
        nothing_to_remove(s);
    } else {
        let front = s.take(s.len() - 3);
        let back = s.skip(s.len() - 3);
        grouping_only_adds_commas(front);
        nothing_to_remove(back);
        without_commas_of_sum(grouped(front) + ","@, back);
        without_commas_of_sum(grouped(front), ","@);
        reveal_strlit(",");
        assert(without_commas(","@) =~= seq![]) by {
            reveal_with_fuel(without_commas, 2);
            assert(","@.last() == ',');
        }
        assert(s =~= front + back);
        assert(without_commas(grouped(s)) =~= s);
    }
}

proof fn nothing_to_remove(s: Seq<char>)
    requires
        forall|i: int| 0 <= i < s.len() ==> s[i] != ',',
    ensures
        without_commas(s) == s,
    decreases s.len(),
{
    if s.len() > 0 {
        nothing_to_remove(s.drop_last());
        assert(without_commas(s) =~= s);
    }
}

/// The decimal text of a number consists of digits, and they denote the number.
pub proof fn decimal_denotes_its_number(n: nat)
    ensures
        number_of(text::decimal_text(n)) == n,
        text::decimal_text(n).len() > 0,
        forall|i: int|
            0 <= i < text::decimal_text(n).len() ==> '0' as int <= (
            #[trigger] text::decimal_text(n)[i]) as int <= '9' as int,
    decreases n,
{
    let s = text::decimal_text(n);
    reveal_with_fuel(number_of, 2);
    if n < 10 {
        assert(s.drop_last() =~= seq![]);
    } else {
        decimal_denotes_its_number(n / 10);
        assert(s.drop_last() =~= text::decimal_text(n / 10));
    }
}

/// The decimal text of a number has no leading zero, but for the one of zero itself.
pub proof fn decimal_has_no_leading_zero(n: nat)
    ensures
        n > 0 ==> text::decimal_text(n)[0] != '0',
        text::decimal_text(n)[0] == '0' ==> text::decimal_text(n).len() == 1,
        n < 10 <==> text::decimal_text(n).len() == 1,
    decreases n,
{
    if n >= 10 {
        decimal_has_no_leading_zero(n / 10);
        decimal_denotes_its_number(n / 10);
        assert(text::decimal_text(n)[0] == text::decimal_text(n / 10)[0]);
    }
}

/// A minus sign stands before the digits of a negative number and of no other, and the digits
/// denote its size.
pub proof fn sign_stands_before_the_digits(i: int)
    ensures
        text::signed_text(i)[0] == '-' <==> i < 0,
        i < 0 ==> number_of(text::signed_text(i).skip(1)) == -i,
        i < 0 ==> text::signed_text(i).skip(1) == text::signed_text(-i),
        i >= 0 ==> number_of(text::signed_text(i)) == i,
        i >= 0 ==> text::signed_text(i) == text::decimal_text(i as nat),
{
    if i < 0 {
        decimal_denotes_its_number((-i) as nat);
        assert(text::signed_text(i).skip(1) =~= text::decimal_text((-i) as nat));
    } else {
        decimal_denotes_its_number(i as nat);
        assert('0' as int <= text::decimal_text(i as nat)[0] as int);
    }
}

proof fn leading_zero_adds_nothing(s: Seq<char>)
    ensures
        number_of(seq!['0'] + s) == number_of(s),
    decreases s.len(),
{
    let z = seq!['0'] + s;
    reveal_with_fuel(number_of, 2);
    if s.len() == 0 {
        assert(z.drop_last() =~= seq![]);
    } else {
        assert(z.drop_last() =~= seq!['0'] + s.drop_last());
        leading_zero_adds_nothing(s.drop_last());
    }
}

/// Two digits are written for every number below a hundred, and they denote it.
pub proof fn two_digits_denote_their_number(n: nat)
    ensures
        number_of(text::two_digits_text(n)) == n,
        n < 100 ==> text::two_digits_text(n).len() == 2,
        n >= 10 ==> text::two_digits_text(n) == text::decimal_text(n),
{
    decimal_denotes_its_number(n);
    leading_zero_adds_nothing(text::decimal_text(n));
    reveal_with_fuel(text::decimal_text, 2);
}

/// `q` is an integer that is nearest to `a / b`, and the even one where two are.
pub open spec fn is_nearest(q: int, a: int, b: int) -> bool {
    &&& -b <= 2 * (a - b * q) <= b
    &&& 2 * (a - b * q) == b || 2 * (a - b * q) == -b ==> q % 2 == 0
}

/// Rounding gives the nearest integer, and the even one of two that are equally near.
pub proof fn rounding_is_to_the_nearest(a: nat, b: nat)
    requires
        b > 0,
    ensures
        is_nearest(half_even(a, b) as int, a as int, b as int),
{
    let q = a / b;
    let r = a % b;
    assert(a == b * q + r && 0 <= r < b) by (nonlinear_arith)
        requires
            q == a / b,
            r == a % b,
            b > 0,
    ;
    assert(b * (q + 1) == b * q + b) by (nonlinear_arith);
}

/// The doubles of the size of a number from 2^53 on stand at a distance that is a power of two,
/// and such that 53 binary digits are enough for all of them.
pub proof fn doubles_have_their_spacing(n: nat)
    ensures
        n < 0x20_0000_0000_0000 ==> spacing(n) == 1,
        n >= 0x20_0000_0000_0000 ==> 0x10_0000_0000_0000 * spacing(n) <= n < 0x20_0000_0000_0000
            * spacing(n),
        spacing(n) >= 1,
        exists|k: nat| spacing(n) == #[trigger] vstd::arithmetic::power2::pow2(k),
    decreases n,
{
    if n < 0x20_0000_0000_0000 {
        vstd::arithmetic::power2::lemma2_to64();
        assert(spacing(n) == vstd::arithmetic::power2::pow2(0));
    } else {
        doubles_have_their_spacing(n / 2);
        let k = choose|k: nat| spacing(n / 2) == #[trigger] vstd::arithmetic::power2::pow2(k);
        vstd::arithmetic::power2::lemma_pow2_unfold(k + 1);
        assert(spacing(n) == vstd::arithmetic::power2::pow2(k + 1));
    }
}

/// The nearest double is one of the doubles of that size, and none is nearer.
pub proof fn nearest_double_is_nearest(n: nat)
    ensures
        exists|q: int|
            nearest_double(n) == #[trigger] (q * spacing(n)) && is_nearest(
                q,
                n as int,
                spacing(n) as int,
            ),
{
    doubles_have_their_spacing(n);
    rounding_is_to_the_nearest(n, spacing(n));
    let q = half_even(n, spacing(n)) as int;
    assert(nearest_double(n) == q * spacing(n));
}

/// A number of bytes is written in the largest of the units 1, 1024, 1024^2 and 1024^3 that it
/// reaches. Below a kilobyte it is written exactly; in kilobytes and megabytes it is rounded to
/// the nearest whole number, and in gigabytes to the nearest tenth, its nearest double being
/// rounded there.
pub proof fn size_is_rounded_in_its_unit(n: u64)
    ensures
        n < 1024 ==> bytes_text(n) == text::decimal_text(n as nat) + " B"@,
        1024 <= n < 1024 * 1024 ==> exists|q: nat|
            bytes_text(n) == #[trigger] text::decimal_text(q) + " KB"@ && is_nearest(
                q as int,
                n as int,
                1024,
            ),
        1024 * 1024 <= n < 1024 * 1024 * 1024 ==> exists|q: nat|
            bytes_text(n) == #[trigger] text::decimal_text(q) + " MB"@ && is_nearest(
                q as int,
                n as int,
                1_048_576,
            ),
        1024 * 1024 * 1024 <= n ==> exists|q: nat, d: nat|
            bytes_text(n) == #[trigger] text::decimal_text(q) + "."@
                + #[trigger] text::decimal_text(d) + " GB"@ && d < 10 && is_nearest(
                (10 * q + d) as int,
                10 * nearest_double(n as nat) as int,
                1_073_741_824,
            ),
{
    if 1024 <= n < 1024 * 1024 {
        rounding_is_to_the_nearest(n as nat, KB as nat);
        assert(bytes_text(n) == text::decimal_text(half_even(n as nat, KB as nat)) + " KB"@);
    } else if 1024 * 1024 <= n < 1024 * 1024 * 1024 {
        rounding_is_to_the_nearest(n as nat, MB as nat);
        assert(bytes_text(n) == text::decimal_text(half_even(n as nat, MB as nat)) + " MB"@);
    } else if 1024 * 1024 * 1024 <= n {
        let a = 10 * nearest_double(n as nat);
        rounding_is_to_the_nearest(a, GB as nat);
        let t = half_even(a, GB as nat);
        assert(10 * (t / 10) + t % 10 == t);
        assert(bytes_text(n) == text::decimal_text(t / 10) + "."@ + text::decimal_text(t % 10)
            + " GB"@);
    }
}

/// A duration of less than a minute is written in seconds, one of less than an hour in whole
/// minutes that have passed. From there on the largest unit comes first, and with two digits
/// what is left in the next smaller one.
pub proof fn duration_is_what_has_passed(secs: u64)
    ensures
        secs < 60 ==> duration_text(secs) == text::decimal_text(secs as nat) + "s"@,
        60 <= secs < 60 * 60 ==> exists|m: nat|
            duration_text(secs) == #[trigger] text::decimal_text(m) + "m"@ && 60 * m <= secs < 60
                * (m + 1),
        60 * 60 <= secs < 24 * 60 * 60 ==> exists|h: nat, m: nat|
            duration_text(secs) == #[trigger] text::decimal_text(h) + "h"@
                + #[trigger] text::two_digits_text(m) + "m"@ && m < 60 && 60 * (60 * h + m)
                <= secs < 60 * (60 * h + m + 1),
        24 * 60 * 60 <= secs ==> exists|d: nat, h: nat|
            duration_text(secs) == #[trigger] text::decimal_text(d) + "d"@
                + #[trigger] text::two_digits_text(h) + "h"@ && h < 24 && 3600 * (24 * d + h)
                <= secs < 3600 * (24 * d + h + 1),
{
    let s = secs as nat;
    if 60 <= s < 3600 {
        assert(duration_text(secs) == text::decimal_text(s / 60) + "m"@);
    } else if 3600 <= s < 86_400 {
        assert(duration_text(secs) == text::decimal_text(s / 3600) + "h"@ + text::two_digits_text(
            (s % 3600) / 60,
        ) + "m"@);
    } else if 86_400 <= s {
        assert(duration_text(secs) == text::decimal_text(s / 86_400) + "d"@
            + text::two_digits_text((s % 86_400) / 3600) + "h"@);
    }
}

/// Less than a second is written in milliseconds. From a second on, the milliseconds that make no
/// whole second do not show.
pub proof fn milliseconds_show_below_a_second(ms: u64, secs: u64)
    ensures
        ms < 1000 ==> duration_ms_text(ms) == text::decimal_text(ms as nat) + "ms"@,
        1 <= secs && 1000 * secs <= ms < 1000 * (secs + 1) ==> duration_ms_text(ms)
            == duration_text(secs),
{
}

proof fn grouped_has_commas_every_fourth(s: Seq<char>)
    requires
        forall|i: int| 0 <= i < s.len() ==> s[i] != ',',
    ensures
        s.len() > 0 ==> grouped(s).len() > 0 && grouped(s)[0] == s[0],
        s.len() > 0 ==> grouped(s).len() % 4 != 0,
        forall|i: int|
            0 <= i < grouped(s).len() ==> ((#[trigger] grouped(s)[i]) == ',' <==> (grouped(s).len()
                - i) % 4 == 0),
    decreases s.len(),
{
    reveal_strlit(",");
    if s.len() > 3 {
        let front = s.take(s.len() - 3);
        let back = s.skip(s.len() - 3);
        grouped_has_commas_every_fourth(front);
        let g = grouped(front);
        let all = grouped(s);
        assert(all =~= g + ","@ + back);
        assert(all.len() == g.len() + 4);
        assert forall|i: int| 0 <= i < all.len() implies ((#[trigger] all[i]) == ',' <==> (
        all.len() - i) % 4 == 0) by {
            if i < g.len() {
                assert(all[i] == g[i]);
                assert((all.len() - i) % 4 == (g.len() - i) % 4);
            } else if i > g.len() {
                assert(all[i] == back[i - g.len() - 1]);
            }
        }
    }
}

/// Counted from the end, a separator stands in each fourth place of a count and nowhere else, and
/// none stands at its beginning.
pub proof fn separators_stand_between_thousands(n: u64, i: int)
    requires
        0 <= i < count_text(n).len(),
    ensures
        count_text(n)[i] == ',' <==> (count_text(n).len() - i) % 4 == 0,
        count_text(n)[0] != ',',
{
    decimal_denotes_its_number(n as nat);
    grouped_has_commas_every_fourth(text::decimal_text(n as nat));
}

/// The separators do not change a count: without them its digits are those of the number.
pub proof fn count_denotes_its_number(n: u64)
    ensures
        without_commas(count_text(n)) == text::decimal_text(n as nat),
        number_of(without_commas(count_text(n))) == n,
{
    decimal_denotes_its_number(n as nat);
    grouping_only_adds_commas(text::decimal_text(n as nat));
}

/// Numbers below 2^53 are double-precision numbers themselves: sizes up to there are rounded
/// once only, when they are written.
pub proof fn doubles_are_exact_below_their_precision(n: nat)
    requires
        n < 0x20_0000_0000_0000,
    ensures
        nearest_double(n) == n,
{
    assert(spacing(n) == 1);
    assert(half_even(n, 1) * 1 == n);
}

/// A shortened text fits into its width, begins with an ellipsis, and ends as the whole text
/// does. A text that fits is not shortened.
pub proof fn shortened_text_fits(s: Seq<char>, max: int)
    requires
        max > 0,
    ensures
        tail_text(s, max).len() <= max,
        s.len() > max ==> tail_text(s, max).len() == max,
        s.len() > max ==> tail_text(s, max).skip(1) == s.skip(s.len() - (max - 1)),
        s.len() > max ==> tail_text(s, max)[0] == '\u{2026}',
        s.len() <= max ==> tail_text(s, max) == s,
{
    reveal_strlit("\u{2026}");
    if s.len() > max {
        assert(tail_text(s, max).skip(1) =~= s.skip(s.len() - (max - 1)));
    }
}

} // verus!
