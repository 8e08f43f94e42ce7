use ardupilot_bridge::ardupilot_ipc::ServoOutput;
use ardupilot_bridge::can_output::{
    esc_frame, CanError, CanFrame, CanOutput, OpenEvent, OpenStep, DEFAULT_NODE_ID,
    ESC_MAX_THROTTLE, ESC_RAW_COMMAND_DTID,
};

fn opened(interface: &str, fd: i32) -> CanOutput {
    let mut can = CanOutput::new(interface);
    assert_eq!(can.open(), OpenStep::CreateSocket);
    assert_eq!(
        can.open_next(OpenEvent::SocketCreated { fd }),
        OpenStep::LookUpInterface { fd }
    );
    assert_eq!(
        can.open_next(OpenEvent::InterfaceIndex { fd, ifindex: 3 }),
        OpenStep::BindSocket { fd, ifindex: 3 }
    );
    assert_eq!(
        can.open_next(OpenEvent::BindReturned { fd, ret: 0 }),
        OpenStep::Finished
    );
    can
}

/// Packs throttles bit by bit, the first value lowest.
fn packed(values: &[i16]) -> Vec<u8> {
    let mut packed = vec![0u8; (values.len() * 14 + 7) / 8];
    let mut offset = 0;
    for &v in values {
        let raw = (v & 0x3FFF) as u16;
        for bit in 0..14 {
            if raw & (1 << bit) != 0 {
                packed[(offset + bit) / 8] |= 1 << ((offset + bit) % 8);
            }
        }
        offset += 14;
    }
    packed
}

fn check_frame(frame: &CanFrame, values: &[i16], transfer_id: u8) {
    let payload = packed(values);
    let mut data = [0u8; 8];
    data[..payload.len()].copy_from_slice(&payload);
    data[payload.len()] = 0xC0 | (transfer_id & 0x1F);
    assert_eq!(frame.can_id, 0x9004_0664);
    assert_eq!(frame.can_dlc as usize, payload.len() + 1);
    assert_eq!(frame.data, data);
}

#[test]
fn can_constants() {
    assert_eq!(ESC_RAW_COMMAND_DTID, 1030);
    assert_eq!(DEFAULT_NODE_ID, 100);
    assert_eq!(ESC_MAX_THROTTLE, 8191);
    let id = ((16u32 & 0x1F) << 24) | ((1030u32 & 0xFFFF) << 8) | (100u32 & 0x7F) | 0x8000_0000;
    assert_eq!(id, 0x9004_0664);
}

#[test]
fn empty_interface_disables_can() {
    let can = CanOutput::new("");
    assert!(!can.is_enabled());
    assert_eq!(can.open(), OpenStep::Finished);
    assert_eq!(can.fd(), None);
    let named = CanOutput::new("can0");
    assert!(named.is_enabled());
    assert_eq!(named.interface(), "can0");
}

#[test]
fn opening_keeps_the_bound_socket() {
    let mut can = opened("can0", 7);
    assert_eq!(can.fd(), Some(7));
    assert_eq!(can.take_fd(), Some(7));
    assert_eq!(can.take_fd(), None);
    assert_eq!(can.fd(), None);
}

#[test]
fn failed_socket_is_reported() {
    let mut can = CanOutput::new("can0");
    assert_eq!(
        can.open_next(OpenEvent::SocketCreated { fd: -1 }),
        OpenStep::Fail { error: CanError::SocketFailed, close: None }
    );
    assert_eq!(can.fd(), None);
}

#[test]
fn interface_name_with_nul_is_reported() {
    let mut can = CanOutput::new("can\0");
    assert_eq!(
        can.open_next(OpenEvent::SocketCreated { fd: 5 }),
        OpenStep::Fail { error: CanError::InvalidInterfaceName, close: None }
    );
    assert_eq!(can.fd(), None);
}

#[test]
fn unknown_interface_closes_the_socket() {
    let mut can = CanOutput::new("can9");
    assert_eq!(
        can.open_next(OpenEvent::InterfaceIndex { fd: 5, ifindex: 0 }),
        OpenStep::Fail { error: CanError::InterfaceNotFound, close: Some(5) }
    );
    assert_eq!(can.fd(), None);
}

#[test]
fn failed_bind_closes_the_socket() {
    let mut can = CanOutput::new("can0");
    assert_eq!(
        can.open_next(OpenEvent::BindReturned { fd: 5, ret: -1 }),
        OpenStep::Fail { error: CanError::BindFailed, close: Some(5) }
    );
    assert_eq!(can.fd(), None);
}

#[test]
fn nothing_is_sent_while_closed() {
    let mut can = CanOutput::new("can0");
    assert!(can.send_esc_command(&[500; 4]).unwrap().is_none());
    assert!(can.send_esc_command(&[500; 9]).unwrap().is_none());
    let mut can = opened("can0", 3);
    let frame = can.send_esc_command(&[0; 4]).unwrap().unwrap();
    assert_eq!(frame.data[7], 0xC0);
}

#[test]
fn four_motors_fill_a_frame() {
    let mut can = opened("can0", 3);
    let frame = can.send_esc_command(&[0, 250, 500, 1000]).unwrap().unwrap();
    check_frame(&frame, &[0, 2047, 4095, 8191], 0);
    assert_eq!(frame.can_dlc, 8);
    assert_eq!(frame.data, [0x00, 0xC0, 0xFF, 0xF1, 0xFF, 0xFC, 0x7F, 0xC0]);
}

#[test]
fn fewer_motors_make_shorter_frames() {
    for n in 0..=4usize {
        let mut can = opened("can0", 3);
        let motors: Vec<u16> = (0..n).map(|i| 100 + 233 * i as u16).collect();
        let values: Vec<i16> = motors.iter().map(|&m| (m as f64 / 1000.0 * 8191.0) as i16).collect();
        let frame = can.send_esc_command(&motors).unwrap().unwrap();
        check_frame(&frame, &values, 0);
    }
}

#[test]
fn every_motor_value_is_scaled_like_the_float_formula() {
    let mut can = opened("can0", 3);
    for k in 0..=1100u16 {
        let m = k as f64 / 1000.0;
        let val = (m.clamp(0.0, 1.0) * 8191.0) as i16;
        let frame = can.send_esc_command(&[k]).unwrap().unwrap();
        let raw = frame.data[0] as i16 | ((frame.data[1] as i16) << 8);
        assert_eq!(raw, val);
    }
}

#[test]
fn too_many_motors_still_take_a_transfer_id() {
    let mut can = opened("can0", 3);
    match can.send_esc_command(&[0; 5]) {
        Err(e) => assert_eq!(e, CanError::TooManyMotors { motors: 5 }),
        Ok(_) => panic!("five motors do not fit"),
    }
    let frame = can.send_esc_command(&[0; 4]).unwrap().unwrap();
    assert_eq!(frame.data[7], 0xC1);
}

#[test]
fn transfer_ids_wrap_after_thirty_one() {
    let mut can = opened("can0", 3);
    for i in 0..600u32 {
        let frame = can.send_esc_command(&[1000; 4]).unwrap().unwrap();
        assert_eq!(frame.data[7] as u32, 0xC0 + i % 32);
    }
}

#[test]
fn raw_throttles_are_masked_to_fourteen_bits() {
    let values = [-1i16, i16::MIN, 0x4000, 0x2001];
    let frame = esc_frame(100, 37, &values).unwrap();
    check_frame(&frame, &values, 37);
    assert_eq!(
        esc_frame(100, 0, &[0; 6]).unwrap_err(),
        CanError::TooManyMotors { motors: 6 }
    );
}

#[test]
fn node_id_is_masked_to_seven_bits() {
    assert_eq!(esc_frame(0xFF, 0, &[]).unwrap().can_id, 0x9004_067F);
    assert_eq!(esc_frame(0x80, 0, &[]).unwrap().can_id, 0x9004_0600);
}

#[test]
fn servo_output_drives_the_motors() {
    let mut pwm = [1000u16; 16];
    pwm[1] = 1250;
    pwm[2] = 1500;
    pwm[3] = 2200;
    pwm[4] = 2000;
    let servo = ServoOutput { frame_rate: 0, frame_count: 0, pwm };
    let mut can = opened("can0", 3);
    let frame = can.drive_motors(&servo, 4).unwrap().unwrap();
    check_frame(&frame, &[0, 2047, 4095, 8191], 0);
    assert_eq!(
        can.drive_motors(&servo, 5).unwrap_err(),
        CanError::TooManyMotors { motors: 5 }
    );
    let mut disabled = CanOutput::new("");
    assert!(disabled.drive_motors(&servo, 5).unwrap().is_none());
}
