//! Latest sensor readings, and the feeds that keep them up to date.
//!
//! Each feed numbers its readings from one, so that a reader can tell whether
//! there is a new one: sequence number zero means that nothing was received
//! yet. Floating-point values are held as IEEE 754 bit patterns.

use vstd::prelude::*;

use crate::elodin::M10QInput;
#[allow(unused_imports)]
use crate::timing::clamp_i64;
use crate::timing::ms_to_us;

verus! {

/// Seconds to wait for the first reading after subscribing.
pub const SUBSCRIBE_TIMEOUT_SECS: u64 = 5;

/// Seconds before an IMU subscription is tried again.
pub const IMU_RETRY_SECS: u64 = 1;

/// Seconds before any other subscription is tried again.
pub const FEED_RETRY_SECS: u64 = 2;

/// IMU readings between two progress messages.
pub const IMU_REPORT_INTERVAL: u64 = 10000;

/// GPS readings between two progress messages.
pub const GPS_REPORT_INTERVAL: u64 = 10;

/// Attitude readings between two progress messages.
pub const ATTITUDE_REPORT_INTERVAL: u64 = 1000;

/// Barometer readings between two progress messages.
pub const BARO_REPORT_INTERVAL: u64 = 20;

/// The latest GPS reading.
#[derive(Debug, Clone, Copy)]
pub struct GpsCache {
    pub lat: i32,
    pub lon: i32,
    pub alt_msl: i32,
    pub vel_ned: [i32; 3],
    pub h_acc: u32,
    pub v_acc: u32,
    pub s_acc: u32,
    pub ground_speed: u32,
    pub fix_type: u8,
    pub satellites: u8,
    pub itow: u32,
    pub unix_epoch_ms: i64,
    /// GPS time (us) of the last reading that had one.
    pub epoch_us: i64,
    /// Local clock (us) at that reading.
    pub local_us: i64,
    pub seq: u64,
}

/// The latest IMU reading.
#[derive(Debug, Clone, Copy)]
pub struct ImuCache {
    /// rad/s, `f32`
    pub gyro: [u32; 3],
    /// m/s^2, `f32`
    pub accel: [u32; 3],
    /// Seconds since the feed was started, `f64`.
    pub timestamp: u64,
    pub seq: u64,
}

/// The latest attitude, in radians (`f64`).
#[derive(Debug, Clone, Copy)]
pub struct AttitudeCache {
    pub roll: u64,
    pub pitch: u64,
    pub yaw: u64,
    pub seq: u64,
}

/// The latest barometer reading (`f32`).
#[derive(Debug, Clone, Copy)]
pub struct BaroCache {
    pub pressure_pa: u32,
    pub temperature_c: u32,
    pub seq: u64,
}

impl Default for GpsCache {
    fn default() -> (c: Self)
        ensures
            c == (GpsCache {
                lat: 0,
                lon: 0,
                alt_msl: 0,
                vel_ned: [0i32, 0i32, 0i32],
                h_acc: 0,
                v_acc: 0,
                s_acc: 0,
                ground_speed: 0,
                fix_type: 0,
                satellites: 0,
                itow: 0,
                unix_epoch_ms: 0,
                epoch_us: 0,
                local_us: 0,
                seq: 0,
            }),
    {
        GpsCache {
            lat: 0,
            lon: 0,
            alt_msl: 0,
            vel_ned: [0i32, 0i32, 0i32],
            h_acc: 0,
            v_acc: 0,
            s_acc: 0,
            ground_speed: 0,
            fix_type: 0,
            satellites: 0,
            itow: 0,
            unix_epoch_ms: 0,
            epoch_us: 0,
            local_us: 0,
            seq: 0,
        }
    }
}

impl Default for ImuCache {
    fn default() -> (c: Self)
        ensures
            c == (ImuCache {
                gyro: [0u32, 0u32, 0u32],
                accel: [0u32, 0u32, 0u32],
                timestamp: 0,
                seq: 0,
            }),
    {
        ImuCache { gyro: [0u32, 0u32, 0u32], accel: [0u32, 0u32, 0u32], timestamp: 0, seq: 0 }
    }
}

impl Default for AttitudeCache {
    fn default() -> (c: Self)
        ensures
            c == (AttitudeCache { roll: 0, pitch: 0, yaw: 0, seq: 0 }),
    {
        AttitudeCache { roll: 0, pitch: 0, yaw: 0, seq: 0 }
    }
}

impl Default for BaroCache {
    fn default() -> (c: Self)
        ensures
            c == (BaroCache { pressure_pa: 0, temperature_c: 0, seq: 0 }),
    {
        BaroCache { pressure_pa: 0, temperature_c: 0, seq: 0 }
    }
}

impl GpsCache {
    /// The cache once `input` was stored as reading number `seq`. The GPS clock
    /// is only taken over from a reading that has one.
    pub open spec fn stored(self, input: M10QInput, seq: u64, local_now_us: i64) -> GpsCache {
        GpsCache {
            lat: input.lat,
            lon: input.lon,
            alt_msl: input.alt_msl,
            vel_ned: input.vel_ned,
            h_acc: input.h_acc,
            v_acc: input.v_acc,
            s_acc: input.s_acc,
            ground_speed: input.ground_speed,
            fix_type: input.fix_type,
            satellites: input.satellites,
            itow: input.itow,
            unix_epoch_ms: input.unix_epoch_ms,
            epoch_us: if input.unix_epoch_ms > 0 {
                clamp_i64(input.unix_epoch_ms * 1000)
            } else {
                self.epoch_us
            },
            local_us: if input.unix_epoch_ms > 0 {
                local_now_us
            } else {
                self.local_us
            },
            seq,
        }
    }
}

/// A subscription to GPS readings. The first one only shows that the stream is
/// alive and is not stored.
pub struct GpsFeed {
    /// Number of the next reading.
    pub seq: u64,
}

impl GpsFeed {
    /// The feed after its first reading.
    pub fn start() -> (feed: Self)
        ensures
            feed.seq == 1,
    {
        GpsFeed { seq: 1 }
    }

    /// Stores a reading. Returns whether a progress message is due.
    pub fn next(&mut self, cache: &mut GpsCache, input: &M10QInput, local_now_us: i64) -> (due:
        bool)
        requires
            old(self).seq < u64::MAX,
        ensures
            final(self).seq == old(self).seq + 1,
            *final(cache) == old(cache).stored(*input, old(self).seq, local_now_us),
            due == (final(self).seq % GPS_REPORT_INTERVAL == 1),
    {
        cache.lat = input.lat;
        cache.lon = input.lon;
        cache.alt_msl = input.alt_msl;
        cache.vel_ned = input.vel_ned;
        cache.h_acc = input.h_acc;
        cache.v_acc = input.v_acc;
        cache.s_acc = input.s_acc;
        cache.ground_speed = input.ground_speed;
        cache.fix_type = input.fix_type;
        cache.satellites = input.satellites;
        cache.itow = input.itow;
        cache.unix_epoch_ms = input.unix_epoch_ms;
        if input.unix_epoch_ms > 0 {
            cache.epoch_us = ms_to_us(input.unix_epoch_ms);
            cache.local_us = local_now_us;
        }
        cache.seq = self.seq;
        self.seq = self.seq + 1;
        self.seq % GPS_REPORT_INTERVAL == 1
    }
}

/// A subscription to attitude estimates. The first one only shows that the
/// stream is alive and is not stored.
pub struct AttitudeFeed {
    /// Number of the next reading.
    pub seq: u64,
}

impl AttitudeFeed {
    /// The feed after its first reading.
    pub fn start() -> (feed: Self)
        ensures
            feed.seq == 1,
    {
        AttitudeFeed { seq: 1 }
    }

    /// Stores a reading. Returns whether a progress message is due.
    pub fn next(&mut self, cache: &mut AttitudeCache, roll: u64, pitch: u64, yaw: u64) -> (due:
        bool)
        requires
            old(self).seq < u64::MAX,
        ensures
            final(self).seq == old(self).seq + 1,
            *final(cache) == (AttitudeCache { roll, pitch, yaw, seq: old(self).seq }),
            due == (final(self).seq % ATTITUDE_REPORT_INTERVAL == 1),
    {
        *cache = AttitudeCache { roll, pitch, yaw, seq: self.seq };
        self.seq = self.seq + 1;
        self.seq % ATTITUDE_REPORT_INTERVAL == 1
    }
}

/// A subscription to IMU readings.
pub struct ImuFeed {
    /// Number of the last reading.
    pub seq: u64,
}

impl ImuFeed {
    /// Stores the first reading.
    pub fn start(cache: &mut ImuCache, gyro: [u32; 3], accel: [u32; 3], timestamp: u64) -> (feed:
        Self)
        ensures
            feed.seq == 1,
            *final(cache) == (ImuCache { gyro, accel, timestamp, seq: 1 }),
    {
        *cache = ImuCache { gyro, accel, timestamp, seq: 1 };
        ImuFeed { seq: 1 }
    }

    /// Stores a reading. Returns whether a progress message is due.
    pub fn next(
        &mut self,
        cache: &mut ImuCache,
        gyro: [u32; 3],
        accel: [u32; 3],
        timestamp: u64,
    ) -> (due: bool)
        requires
            old(self).seq < u64::MAX,
        ensures
            final(self).seq == old(self).seq + 1,
            *final(cache) == (ImuCache { gyro, accel, timestamp, seq: final(self).seq }),
            due == (final(self).seq % IMU_REPORT_INTERVAL == 1),
    {
        self.seq = self.seq + 1;
        *cache = ImuCache { gyro, accel, timestamp, seq: self.seq };
        self.seq % IMU_REPORT_INTERVAL == 1
    }
}

/// A subscription to barometer readings.
pub struct BaroFeed {
    /// Number of the last reading.
    pub seq: u64,
}

impl BaroFeed {
    /// Stores the first reading.
    pub fn start(cache: &mut BaroCache, pressure_pa: u32, temperature_c: u32) -> (feed: Self)
        ensures
            feed.seq == 1,
            *final(cache) == (BaroCache { pressure_pa, temperature_c, seq: 1 }),
    {
        *cache = BaroCache { pressure_pa, temperature_c, seq: 1 };
        BaroFeed { seq: 1 }
    }

    /// Stores a reading. Returns whether a progress message is due.
    pub fn next(&mut self, cache: &mut BaroCache, pressure_pa: u32, temperature_c: u32) -> (due:
        bool)
        requires
            old(self).seq < u64::MAX,
        ensures
            final(self).seq == old(self).seq + 1,
            *final(cache) == (BaroCache { pressure_pa, temperature_c, seq: final(self).seq }),
            due == (final(self).seq % BARO_REPORT_INTERVAL == 1),
    {
        self.seq = self.seq + 1;
        *cache = BaroCache { pressure_pa, temperature_c, seq: self.seq };
        self.seq % BARO_REPORT_INTERVAL == 1
    }
}

/// The GPS clock is never lost: once a reading had one, later readings keep
/// it or replace it by their own.
pub proof fn gps_clock_is_kept(c: GpsCache, input: M10QInput, seq: u64, local_now_us: i64)
    ensures
        c.epoch_us > 0 ==> c.stored(input, seq, local_now_us).epoch_us > 0,
        input.unix_epoch_ms > 0 ==> c.stored(input, seq, local_now_us).epoch_us > 0,
        input.unix_epoch_ms <= 0 ==> c.stored(input, seq, local_now_us).epoch_us == c.epoch_us
            && c.stored(input, seq, local_now_us).local_us == c.local_us,
{
}

/// A GPS reading is stored as it came: every field keeps its value and the
/// reading gets the number it is given. A Unix time above zero becomes the GPS
/// time in microseconds, with the local clock noted; any other leaves both.
pub proof fn gps_reading_is_stored_as_it_came(
    c: GpsCache,
    input: M10QInput,
    seq: u64,
    local_now_us: i64,
)
    ensures
        ({
            let after = c.stored(input, seq, local_now_us);
            &&& after.lat == input.lat
            &&& after.lon == input.lon
            &&& after.alt_msl == input.alt_msl
            &&& after.vel_ned == input.vel_ned
            &&& after.h_acc == input.h_acc
            &&& after.v_acc == input.v_acc
            &&& after.s_acc == input.s_acc
            &&& after.ground_speed == input.ground_speed
            &&& after.fix_type == input.fix_type
            &&& after.satellites == input.satellites
            &&& after.itow == input.itow
            &&& after.unix_epoch_ms == input.unix_epoch_ms
            &&& after.seq == seq
            &&& input.unix_epoch_ms > 0 && input.unix_epoch_ms * 1000 <= 0x7FFF_FFFF_FFFF_FFFF
                ==> after.epoch_us == 1000 * input.unix_epoch_ms
            &&& input.unix_epoch_ms > 0 && input.unix_epoch_ms * 1000 > 0x7FFF_FFFF_FFFF_FFFF
                ==> after.epoch_us == 0x7FFF_FFFF_FFFF_FFFF
            &&& input.unix_epoch_ms > 0 ==> after.local_us == local_now_us
            &&& input.unix_epoch_ms <= 0 ==> after.epoch_us == c.epoch_us && after.local_us
                == c.local_us
        }),
{
}

} // verus!
