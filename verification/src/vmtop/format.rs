//! Sizes and durations as terse labels; the columns are narrow.

use vstd::prelude::*;

use crate::text;

verus! {

/// The quotient of two numbers, rounded to the nearest whole, and where two
/// are equally near to the even one.
pub open spec fn rounded(n: nat, d: nat) -> nat {
    let q = n / d;
    let r = n % d;
    if 2 * r > d || (2 * r == d && q % 2 == 1) {
        q + 1
    } else {
        q
    }
}

/// A size in GiB with one decimal, such as `1.5G`.
pub open spec fn gib_label(mib: nat) -> Seq<char> {
    let tenths = rounded(mib * 10, 1024);
    text::decimal(tenths / 10) + "."@ + text::decimal(tenths % 10) + "G"@
}

/// A size that is given in MiB: below a GiB in MiB, otherwise in GiB.
pub open spec fn size_label(mib: nat) -> Seq<char> {
    if mib >= 1024 {
        gib_label(mib)
    } else {
        text::decimal(mib) + "M"@
    }
}

/// A size in GiB with one decimal.
pub fn gib(mib: u64) -> (s: String)
    ensures
        s@ == gib_label(mib as nat),
{
    let whole: u64 = mib / 1024;
    let part: u64 = (mib % 1024) * 10;
    let q: u64 = part / 1024;
    let r: u64 = part % 1024;
    let up = r > 512 || (r == 512 && q % 2 == 1);
    let tenths: u64 = if up {
        q + 1
    } else {
        q
    };
    proof {
        let n = mib as nat * 10;
        assert(n == 1024 * (whole * 10) + part);
        assert(n / 1024 == whole * 10 + q && n % 1024 == r);
        assert((whole * 10 + q) % 2 == q % 2);
    }
    let (gibs, tenth): (u64, u64) = if tenths == 10 {
        (whole + 1, 0)
    } else {
        (whole, tenths)
    };
    proof {
        let t = rounded(mib as nat * 10, 1024);
        assert(t == whole * 10 + tenths);
        assert(t / 10 == gibs && t % 10 == tenth);
    }
    text::cat4(&text::decimal_string(gibs), ".", &text::decimal_string(tenth), "G")
}

/// A memory size that is given in MiB.
pub fn memory_mib(mib: u64) -> (s: String)
    ensures
        s@ == size_label(mib as nat),
{
    if mib >= 1024 {
        gib(mib)
    } else {
        text::cat2(&text::decimal_string(mib), "M")
    }
}

/// A disk size that is given in MiB; labelled like memory.
pub fn disk_mib(mib: u64) -> (s: String)
    ensures
        s@ == size_label(mib as nat),
{
    memory_mib(mib)
}

/// A number below 100 with two digits.
pub open spec fn two_digits(n: nat) -> Seq<char> {
    if n < 10 {
        "0"@ + text::decimal(n)
    } else {
        text::decimal(n)
    }
}

/// A number of seconds: seconds below a minute, minutes below an hour, hours
/// and minutes below a day, days and hours above. Less than none counts as
/// none.
pub open spec fn duration_label(total_secs: int) -> Seq<char> {
    let secs = if total_secs < 0 {
        0
    } else {
        total_secs
    };
    let days = secs / 86_400;
    let hours = (secs % 86_400) / 3_600;
    let mins = (secs % 3_600) / 60;
    if days > 0 {
        text::decimal(days as nat) + "d"@ + text::decimal(hours as nat) + "h"@
    } else if hours > 0 {
        text::decimal(hours as nat) + "h"@ + two_digits(mins as nat) + "m"@
    } else if mins > 0 {
        text::decimal(mins as nat) + "m"@
    } else {
        text::decimal((secs % 60) as nat) + "s"@
    }
}

/// A number of seconds as a label.
pub fn duration(total_secs: i64) -> (s: String)
    ensures
        s@ == duration_label(total_secs as int),
{
    let secs: u64 = if total_secs < 0 {
        0
    } else {
        total_secs as u64
    };
    let days: u64 = secs / 86_400;
    let hours: u64 = (secs % 86_400) / 3_600;
    let mins: u64 = (secs % 3_600) / 60;
    let seconds: u64 = secs % 60;
    if days > 0 {
        text::cat4(&text::decimal_string(days), "d", &text::decimal_string(hours), "h")
    } else if hours > 0 {
        let minutes = if mins < 10 {
            text::cat2("0", &text::decimal_string(mins))
        } else {
            text::decimal_string(mins)
        };
        text::cat4(&text::decimal_string(hours), "h", &minutes, "m")
    } else if mins > 0 {
        text::cat2(&text::decimal_string(mins), "m")
    } else {
        text::cat2(&text::decimal_string(seconds), "s")
    }
}

/// The whole seconds between two times in nanoseconds, none if the second is
/// not later.
pub open spec fn elapsed_secs(now_ns: i64, then_ns: i64) -> int {
    if now_ns <= then_ns {
        0
    } else {
        (now_ns - then_ns) / 1_000_000_000
    }
}

/// The whole seconds between two times in nanoseconds.
fn secs_between(now_ns: i64, then_ns: i64) -> (secs: i64)
    ensures
        secs == elapsed_secs(now_ns, then_ns),
{
    if now_ns <= then_ns {
        0
    } else {
        ((now_ns as i128 - then_ns as i128) / 1_000_000_000) as i64
    }
}

/// How long ago a VM was created. Times are in nanoseconds since the Unix
/// epoch.
pub fn uptime(now_ns: i64, created_ns: i64) -> (s: String)
    ensures
        s@ == duration_label(elapsed_secs(now_ns, created_ns)),
{
    duration(secs_between(now_ns, created_ns))
}

/// How long ago something was, such as `12m ago`.
pub fn ago(now_ns: i64, when_ns: i64) -> (s: String)
    ensures
        s@ == duration_label(elapsed_secs(now_ns, when_ns)) + " ago"@,
{
    text::cat2(&duration(secs_between(now_ns, when_ns)), " ago")
}

/// A label in GiB is the nearest tenth to the size it stands for.
pub proof fn law_gib_label_is_nearest(mib: nat)
    ensures
        1024 * rounded(mib * 10, 1024) - mib * 10 <= 512,
        mib * 10 - 1024 * rounded(mib * 10, 1024) <= 512,
{
}

} // verus!
