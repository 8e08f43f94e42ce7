use ardupilot_bridge::elodin::M10QInput;
use ardupilot_bridge::feeds::{
    AttitudeCache, AttitudeFeed, BaroCache, BaroFeed, GpsCache, GpsFeed, ImuCache, ImuFeed,
};
use ardupilot_bridge::timing::{elapsed_micros, ms_to_us, telemetry_time_us};

fn gps_input(unix_epoch_ms: i64) -> M10QInput {
    M10QInput {
        lat: 377_749_000,
        lon: -1_224_194_000,
        alt_msl: 10_500,
        alt_wgs84: -21_000,
        vel_ned: [100, -200, 300],
        fix_type: 3,
        satellites: 14,
        h_acc: 900,
        v_acc: 1200,
        s_acc: 150,
        ground_speed: 223,
        heading_motion: 9_000_000,
        valid_flags: 7,
        itow: 345_600_000,
        unix_epoch_ms,
    }
}

#[test]
fn caches_start_empty() {
    let gps = GpsCache::default();
    assert_eq!((gps.seq, gps.epoch_us, gps.local_us, gps.lat), (0, 0, 0, 0));
    assert_eq!(gps.vel_ned, [0; 3]);
    let imu = ImuCache::default();
    assert_eq!((imu.seq, imu.timestamp), (0, 0.0f64.to_bits()));
    assert_eq!(imu.gyro, [0.0f32.to_bits(); 3]);
    assert_eq!(AttitudeCache::default().seq, 0);
    assert_eq!(BaroCache::default().seq, 0);
}

#[test]
fn gps_readings_are_stored_and_numbered() {
    let mut cache = GpsCache::default();
    let mut feed = GpsFeed::start();
    let mut due = Vec::new();
    for i in 1..=25u64 {
        if feed.next(&mut cache, &gps_input(1_700_000_000_123), 50 + i as i64) {
            due.push(i);
        }
        assert_eq!(cache.seq, i);
        assert_eq!(cache.local_us, 50 + i as i64);
    }
    assert_eq!(due, vec![10, 20]);
    assert_eq!(cache.lat, 377_749_000);
    assert_eq!(cache.lon, -1_224_194_000);
    assert_eq!(cache.alt_msl, 10_500);
    assert_eq!(cache.vel_ned, [100, -200, 300]);
    assert_eq!((cache.h_acc, cache.v_acc, cache.s_acc), (900, 1200, 150));
    assert_eq!(cache.ground_speed, 223);
    assert_eq!((cache.fix_type, cache.satellites), (3, 14));
    assert_eq!(cache.itow, 345_600_000);
    assert_eq!(cache.unix_epoch_ms, 1_700_000_000_123);
    assert_eq!(cache.epoch_us, 1_700_000_000_123_000);
}

#[test]
fn gps_time_survives_readings_without_one() {
    let mut cache = GpsCache::default();
    let mut feed = GpsFeed::start();
    feed.next(&mut cache, &gps_input(1_000), 77);
    feed.next(&mut cache, &gps_input(0), 99);
    assert_eq!((cache.epoch_us, cache.local_us), (1_000_000, 77));
    assert_eq!(cache.unix_epoch_ms, 0);
    feed.next(&mut cache, &gps_input(-5), 111);
    assert_eq!((cache.epoch_us, cache.local_us, cache.seq), (1_000_000, 77, 3));
    feed.next(&mut cache, &gps_input(i64::MAX), 123);
    assert_eq!((cache.epoch_us, cache.local_us), (i64::MAX, 123));
}

#[test]
fn imu_readings_are_stored_and_numbered() {
    let mut cache = ImuCache::default();
    let mut feed = ImuFeed::start(&mut cache, [1, 2, 3], [4, 5, 6], 7);
    assert_eq!((cache.seq, cache.timestamp), (1, 7));
    assert_eq!((cache.gyro, cache.accel), ([1, 2, 3], [4, 5, 6]));
    let mut due = Vec::new();
    for i in 2..=20_001u64 {
        if feed.next(&mut cache, [i as u32; 3], [9; 3], i) {
            due.push(i);
        }
        assert_eq!((cache.seq, cache.timestamp, cache.gyro[2]), (i, i, i as u32));
    }
    assert_eq!(due, vec![10_001, 20_001]);
}

#[test]
fn attitudes_are_stored_and_numbered() {
    let mut cache = AttitudeCache::default();
    let mut feed = AttitudeFeed::start();
    let mut due = Vec::new();
    for i in 1..=2000u64 {
        if feed.next(&mut cache, i, i + 1, i + 2) {
            due.push(i);
        }
        assert_eq!((cache.seq, cache.roll, cache.pitch, cache.yaw), (i, i, i + 1, i + 2));
    }
    assert_eq!(due, vec![1000, 2000]);
}

#[test]
fn baro_readings_are_stored_and_numbered() {
    let mut cache = BaroCache::default();
    let mut feed = BaroFeed::start(&mut cache, 11, 12);
    assert_eq!((cache.seq, cache.pressure_pa, cache.temperature_c), (1, 11, 12));
    let mut due = Vec::new();
    for i in 2..=41u64 {
        if feed.next(&mut cache, i as u32, 3) {
            due.push(i);
        }
        assert_eq!((cache.seq, cache.pressure_pa, cache.temperature_c), (i, i as u32, 3));
    }
    assert_eq!(due, vec![21, 41]);
}

#[test]
fn telemetry_time_prefers_gps_time() {
    assert_eq!(telemetry_time_us(0, 5, 1234), 1234);
    assert_eq!(telemetry_time_us(-9, 5, 1234), 1234);
    assert_eq!(telemetry_time_us(1_000_000, 500, 500), 1_000_000);
    assert_eq!(telemetry_time_us(1_000_000, 500, 750), 1_000_250);
    assert_eq!(telemetry_time_us(1_000_000, 500, 100), 999_600);
}

#[test]
fn time_arithmetic_saturates() {
    for (a, b, c) in [
        (1, i64::MIN, i64::MAX),
        (i64::MAX, 0, 10),
        (5, i64::MAX, i64::MIN),
        (i64::MAX, i64::MIN, 0),
    ] {
        assert_eq!(telemetry_time_us(a, b, c), a.saturating_add(c.saturating_sub(b)));
    }
    for ms in [0, 1, -1, i64::MAX, i64::MIN, i64::MAX / 1000, i64::MAX / 1000 + 1] {
        assert_eq!(ms_to_us(ms), ms.saturating_mul(1000));
    }
}

#[test]
fn elapsed_microseconds_are_rounded_down() {
    assert_eq!(elapsed_micros(1_000, 1_999), 0);
    assert_eq!(elapsed_micros(1_000, 2_000), 1);
    assert_eq!(elapsed_micros(5_000, 1_000), 0);
}
