use ardupilot_bridge::ardupilot_ipc::{
    AlephBaroPacket, AlephGpsPacket, AlephImuPacket, AlephMagPacket, ServoOutput,
    ALEPH_PKT_BARO, ALEPH_PKT_GPS, ALEPH_PKT_IMU, ALEPH_PKT_MAG, ALEPH_SENSOR_MAGIC,
    ARDUPILOT_SERVO_MAGIC, DEFAULT_SENSOR_PORT, DEFAULT_SERVO_PORT, NUM_SERVO_CHANNELS,
    SERVO_PACKET_SIZE,
};

fn servo_packet(frame_rate: u16, frame_count: u32, pwm: &[u16; 16]) -> Vec<u8> {
    let mut out = Vec::new();
    out.extend_from_slice(&18458u16.to_le_bytes());
    out.extend_from_slice(&frame_rate.to_le_bytes());
    out.extend_from_slice(&frame_count.to_le_bytes());
    for v in pwm {
        out.extend_from_slice(&v.to_le_bytes());
    }
    out
}

fn ramp() -> [u16; 16] {
    let mut pwm = [0u16; 16];
    for i in 0..16 {
        pwm[i] = 1000 + 67 * i as u16;
    }
    pwm
}

#[test]
fn protocol_constants() {
    assert_eq!(ARDUPILOT_SERVO_MAGIC, 18458);
    assert_eq!(DEFAULT_SENSOR_PORT, 9003);
    assert_eq!(DEFAULT_SERVO_PORT, 9002);
    assert_eq!(NUM_SERVO_CHANNELS, 16);
    assert_eq!(SERVO_PACKET_SIZE, 4 + 4 + NUM_SERVO_CHANNELS * 2);
    assert_eq!(ALEPH_SENSOR_MAGIC, 0xAE01);
}

#[test]
fn servo_packet_round_trips() {
    let pwm = ramp();
    let data = servo_packet(0x0190, 0x8765_4321, &pwm);
    assert_eq!(data.len(), SERVO_PACKET_SIZE);
    let servo = ServoOutput::from_bytes(&data).unwrap();
    assert_eq!(servo.frame_rate, 0x0190);
    assert_eq!(servo.frame_count, 0x8765_4321);
    assert_eq!(servo.pwm, pwm);
}

#[test]
fn bytes_after_a_servo_packet_are_ignored() {
    let pwm = ramp();
    let mut data = servo_packet(400, 7, &pwm);
    data.extend_from_slice(&[0xFF; 216]);
    let servo = ServoOutput::from_bytes(&data).unwrap();
    assert_eq!(servo.frame_rate, 400);
    assert_eq!(servo.frame_count, 7);
    assert_eq!(servo.pwm, pwm);
}

#[test]
fn short_servo_packets_are_rejected() {
    let data = servo_packet(400, 7, &ramp());
    for n in 0..SERVO_PACKET_SIZE {
        assert!(ServoOutput::from_bytes(&data[..n]).is_none());
    }
    assert!(ServoOutput::from_bytes(&data[..SERVO_PACKET_SIZE]).is_some());
}

#[test]
fn wrong_servo_magic_is_rejected() {
    let mut data = servo_packet(400, 7, &ramp());
    data[0] ^= 1;
    assert!(ServoOutput::from_bytes(&data).is_none());
    data[0] ^= 1;
    data.swap(0, 1);
    assert!(ServoOutput::from_bytes(&data).is_none());
}

#[test]
fn every_pulse_width_is_normalized_like_the_float_formula() {
    for pwm in 0..=u16::MAX {
        let servo = ServoOutput { frame_rate: 0, frame_count: 0, pwm: [pwm; 16] };
        let value = servo.motors_normalized(1)[0];
        let expected = (((pwm as f64) - 1000.0) / 1000.0).clamp(0.0, 1.0);
        assert_eq!(value as f64 / 1000.0, expected);
        assert_eq!(servo.motor_normalized(15), value);
    }
}

#[test]
fn normalized_motors_follow_the_channels() {
    let mut pwm = [0u16; 16];
    pwm[0] = 999;
    pwm[1] = 1000;
    pwm[2] = 1500;
    pwm[3] = 2000;
    pwm[4] = 2001;
    pwm[15] = 1001;
    let servo = ServoOutput { frame_rate: 0, frame_count: 0, pwm };
    assert_eq!(servo.motors_normalized(0), Vec::<u16>::new());
    assert_eq!(servo.motors_normalized(4), vec![0, 0, 500, 1000]);
    let all = servo.motors_normalized(16);
    assert_eq!(all.len(), 16);
    assert_eq!(all[4], 1000);
    assert_eq!(all[15], 1);
}

#[test]
fn imu_packet_bytes() {
    let gyro = [0.5f32, -1.25, 3.0e-5];
    let accel = [0.0f32, -0.0, -9.80665];
    let packet = AlephImuPacket {
        gyro: gyro.map(f32::to_bits),
        accel_body: accel.map(f32::to_bits),
    };
    let mut expected = vec![0x01, 0xAE, ALEPH_PKT_IMU];
    for v in gyro {
        expected.extend_from_slice(&v.to_le_bytes());
    }
    for v in accel {
        expected.extend_from_slice(&v.to_le_bytes());
    }
    let bytes = packet.to_bytes();
    assert_eq!(bytes, expected);
    assert_eq!(bytes.len(), 27);
    assert_eq!(&bytes[3..7], &[0x00, 0x00, 0x00, 0x3F]);
}

#[test]
fn gps_packet_bytes() {
    let packet = AlephGpsPacket {
        lat: 377_749_000,
        lon: -1_224_194_000,
        alt_msl: -1,
        vel_ned: [i32::MIN, 0, i32::MAX],
        h_acc: 1,
        v_acc: 0x0102_0304,
        s_acc: u32::MAX,
        ground_speed: 70_000,
        fix_type: 3,
        satellites: 17,
        itow: 604_799_999,
        unix_epoch_ms: -2,
    };
    let mut expected = vec![0x01, 0xAE, ALEPH_PKT_GPS];
    for v in [377_749_000i32, -1_224_194_000, -1, i32::MIN, 0, i32::MAX] {
        expected.extend_from_slice(&v.to_le_bytes());
    }
    for v in [1u32, 0x0102_0304, u32::MAX, 70_000] {
        expected.extend_from_slice(&v.to_le_bytes());
    }
    expected.push(3);
    expected.push(17);
    expected.extend_from_slice(&604_799_999u32.to_le_bytes());
    expected.extend_from_slice(&(-2i64).to_le_bytes());
    let bytes = packet.to_bytes();
    assert_eq!(bytes, expected);
    assert_eq!(bytes.len(), 57);
}

#[test]
fn mag_packet_bytes() {
    let mag = [225.0f32, -17.5, 420.25];
    let bytes = AlephMagPacket { mag_mgauss: mag.map(f32::to_bits) }.to_bytes();
    let mut expected = vec![0x01, 0xAE, ALEPH_PKT_MAG];
    for v in mag {
        expected.extend_from_slice(&v.to_le_bytes());
    }
    assert_eq!(bytes, expected);
    assert_eq!(bytes.len(), 15);
}

#[test]
fn baro_packet_bytes() {
    let packet = AlephBaroPacket {
        pressure_pa: 101325.0f32.to_bits(),
        temperature_c: 21.5f32.to_bits(),
    };
    let mut expected = vec![0x01, 0xAE, ALEPH_PKT_BARO];
    expected.extend_from_slice(&101325.0f32.to_le_bytes());
    expected.extend_from_slice(&21.5f32.to_le_bytes());
    let bytes = packet.to_bytes();
    assert_eq!(bytes, expected);
    assert_eq!(bytes.len(), 11);
}

#[test]
fn sensor_packets_differ_in_their_third_byte() {
    assert_eq!(
        [ALEPH_PKT_IMU, ALEPH_PKT_GPS, ALEPH_PKT_MAG, ALEPH_PKT_BARO],
        [0x01, 0x02, 0x03, 0x04]
    );
}
