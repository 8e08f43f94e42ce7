use ardupilot_bridge::hitl::{
    encode_motor_packet, parse_fdm_packet, HitlServer, FDM_PACKET_SIZE, MOTOR_PACKET_SIZE,
};

#[test]
fn fdm_packet_fields() {
    let vals: Vec<f64> = (0..18).map(|i| i as f64 * 1.5 - 3.25).collect();
    let mut data = [0u8; FDM_PACKET_SIZE];
    for (i, v) in vals.iter().enumerate() {
        data[i * 8..(i + 1) * 8].copy_from_slice(&v.to_le_bytes());
    }
    let fdm = parse_fdm_packet(&data);
    let bits: Vec<u64> = vals.iter().map(|v| v.to_bits()).collect();
    assert_eq!(fdm.timestamp, bits[0]);
    assert_eq!(fdm.gyro, [bits[1], bits[2], bits[3]]);
    assert_eq!(fdm.accel, [bits[4], bits[5], bits[6]]);
    assert_eq!(fdm.quat, [bits[7], bits[8], bits[9], bits[10]]);
    assert_eq!(fdm.velocity, [bits[11], bits[12], bits[13]]);
    assert_eq!(fdm.position, [bits[14], bits[15], bits[16]]);
    assert_eq!(fdm.pressure, bits[17]);
}

#[test]
fn motor_packet_bytes() {
    let motors = [0.0f64, 0.25, 0.999, 1.0];
    let buf = encode_motor_packet(&motors.map(f64::to_bits));
    assert_eq!(buf.len(), MOTOR_PACKET_SIZE);
    for i in 0..4 {
        assert_eq!(buf[i * 8..(i + 1) * 8], motors[i].to_le_bytes());
    }
}

#[test]
fn port_zero_disables_hitl() {
    assert!(HitlServer::new(0).is_none());
    let server = HitlServer::new(9004).unwrap();
    assert!(!server.is_active());
    assert_eq!(server.listen_addr(), ([0, 0, 0, 0], 9004));
}
