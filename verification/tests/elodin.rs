use ardupilot_bridge::elodin::{
    packet_id, random_packet_id, thousandths_to_f32_bits, M10QInput, MotorTelemetry,
    QMC5883LInput, SensorInput,
};

#[test]
fn thousandths_round_like_a_float_cast() {
    for k in 0..=1000u16 {
        let expected = (k as f64 / 1000.0) as f32;
        assert_eq!(thousandths_to_f32_bits(k), expected.to_bits());
    }
    assert_eq!(thousandths_to_f32_bits(0), 0);
    assert_eq!(thousandths_to_f32_bits(500), 0x3F00_0000);
    assert_eq!(thousandths_to_f32_bits(1000), 0x3F80_0000);
    assert_eq!(thousandths_to_f32_bits(1), 0x3A83_126F);
}

#[test]
fn telemetry_row_bytes() {
    let telemetry = MotorTelemetry::new(
        [1000, 1500, 2000, 0xABCD],
        [0, 0x3F00_0000, 0x3F80_0000, 1],
        -3,
    );
    assert_eq!(telemetry.time, -3);
    assert_eq!(telemetry.motor_pwm, [1000, 1500, 2000, 0xABCD]);
    let packet = telemetry.to_table_packet([0x34, 0x12]);
    let mut expected = Vec::new();
    expected.extend_from_slice(&(-3i64).to_le_bytes());
    for v in [0.0f32, 0.5, 1.0, f32::from_bits(1)] {
        expected.extend_from_slice(&v.to_le_bytes());
    }
    for v in [1000u16, 1500, 2000, 0xABCD] {
        expected.extend_from_slice(&v.to_le_bytes());
    }
    assert_eq!(packet.id, [0x34, 0x12]);
    assert_eq!(packet.payload, expected);
    assert_eq!(packet.payload.len(), 32);
}

#[test]
fn packet_ids_are_little_endian() {
    assert_eq!(packet_id(0x1234), [0x34, 0x12]);
    assert_eq!(packet_id(0), [0, 0]);
    assert_eq!(packet_id(u16::MAX), [0xFF, 0xFF]);
}

#[test]
fn random_packet_ids_vary() {
    let first = random_packet_id();
    assert!((0..100).any(|_| random_packet_id() != first));
}

#[test]
fn sensor_records_hold_raw_values() {
    let imu = SensorInput { mag: [1, 2, 3], gyro: [4, 5, 6], accel: [7, 8, 9] };
    assert_eq!(imu.gyro, [4, 5, 6]);
    let compass = QMC5883LInput { mag: [-1, 0, i16::MAX], status: 5 };
    assert_eq!(compass.mag[0], -1);
    let gps = M10QInput {
        lat: 1,
        lon: 2,
        alt_msl: 3,
        alt_wgs84: 4,
        vel_ned: [5, 6, 7],
        fix_type: 3,
        satellites: 9,
        h_acc: 10,
        v_acc: 11,
        s_acc: 12,
        ground_speed: 13,
        heading_motion: 14,
        valid_flags: 15,
        itow: 16,
        unix_epoch_ms: 17,
    };
    assert_eq!(gps.vel_ned, [5, 6, 7]);
}
