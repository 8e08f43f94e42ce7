//! Clock arithmetic: saturating microsecond timestamps and elapsed times.

use vstd::prelude::*;

verus! {

/// The `i64` closest to `n`.
pub open spec fn clamp_i64(n: int) -> i64 {
    if n < i64::MIN {
        i64::MIN
    } else if n > i64::MAX {
        i64::MAX
    } else {
        n as i64
    }
}

/// The time of a telemetry row: GPS time carried forward by the local clock
/// since the last fix, or the local clock where there has been no GPS time.
pub open spec fn telemetry_time(epoch_us: i64, local_us: i64, local_now_us: i64) -> i64 {
    if epoch_us > 0 {
        clamp_i64(epoch_us + clamp_i64(local_now_us - local_us))
    } else {
        local_now_us
    }
}

/// Microseconds between two readings of a nanosecond clock; zero where the
/// second is the earlier.
pub open spec fn elapsed_us(since_ns: u64, now_ns: u64) -> u64 {
    if now_ns < since_ns {
        0
    } else {
        ((now_ns - since_ns) / 1000) as u64
    }
}

fn saturate(n: i128) -> (r: i64)
    ensures
        r == clamp_i64(n as int),
{
    if n < i64::MIN as i128 {
        i64::MIN
    } else if n > i64::MAX as i128 {
        i64::MAX
    } else {
        n as i64
    }
}

/// Milliseconds as microseconds, saturating.
pub fn ms_to_us(ms: i64) -> (us: i64)
    ensures
        us == clamp_i64(ms * 1000),
{
    saturate(ms as i128 * 1000)
}

/// The time of a telemetry row in microseconds.
pub fn telemetry_time_us(epoch_us: i64, local_us: i64, local_now_us: i64) -> (t: i64)
    ensures
        t == telemetry_time(epoch_us, local_us, local_now_us),
{
    if epoch_us > 0 {
        let since: i64 = saturate(local_now_us as i128 - local_us as i128);
        saturate(epoch_us as i128 + since as i128)
    } else {
        local_now_us
    }
}

/// Microseconds between two readings of a nanosecond clock.
pub fn elapsed_micros(since_ns: u64, now_ns: u64) -> (us: u64)
    ensures
        us == elapsed_us(since_ns, now_ns),
{
    now_ns.saturating_sub(since_ns) / 1000
}

/// Telemetry time follows the local clock: it never runs backwards while the
/// clock does not, and at the moment of the fix it is the GPS time.
pub proof fn telemetry_time_is_monotone(epoch_us: i64, local_us: i64, a: i64, b: i64)
    requires
        a <= b,
    ensures
        telemetry_time(epoch_us, local_us, a) <= telemetry_time(epoch_us, local_us, b),
        epoch_us > 0 ==> telemetry_time(epoch_us, local_us, local_us) == epoch_us,
{
}

/// Saturation leaves a number that fits as it is, and is otherwise the end of
/// the range that it is beyond.
pub proof fn saturation_keeps_what_fits(n: int)
    ensures
        -0x8000_0000_0000_0000 <= n <= 0x7FFF_FFFF_FFFF_FFFF ==> clamp_i64(n) == n,
        n < -0x8000_0000_0000_0000 ==> clamp_i64(n) == -0x8000_0000_0000_0000,
        n > 0x7FFF_FFFF_FFFF_FFFF ==> clamp_i64(n) == 0x7FFF_FFFF_FFFF_FFFF,
{
}

/// Telemetry is as far after the GPS time as the local clock is after the
/// reading that it came with, and shows the local clock where there is no GPS
/// time; a time that is out of range saturates.
pub proof fn telemetry_time_keeps_the_distance(epoch_us: i64, local_us: i64, local_now_us: i64)
    ensures
        ({
            let t = telemetry_time(epoch_us, local_us, local_now_us);
            let since = local_now_us - local_us;
            let max = 0x7FFF_FFFF_FFFF_FFFFint;
            let min = -0x8000_0000_0000_0000int;
            &&& epoch_us <= 0 ==> t == local_now_us
            &&& epoch_us > 0 && since >= min && epoch_us + since <= max ==> t - epoch_us == since
            &&& epoch_us > 0 && epoch_us + since > max ==> t == max
            &&& epoch_us > 0 && since < min ==> t - epoch_us == min
        }),
{
}

/// An elapsed time is the number of whole microseconds that have passed.
pub proof fn elapsed_counts_whole_microseconds(since_ns: u64, now_ns: u64)
    ensures
        now_ns >= since_ns ==> 1000 * elapsed_us(since_ns, now_ns) <= now_ns - since_ns < 1000 * (
        elapsed_us(since_ns, now_ns) + 1),
        now_ns < since_ns ==> elapsed_us(since_ns, now_ns) == 0,
{
}

} // verus!
