use ardupilot_bridge::ardupilot_ipc::ServoOutput;
use ardupilot_bridge::bridge::{
    telemetry_for, Action, Bridge, Event, RateReport, SensorPacket, FALLBACK_TEMPERATURE_C,
    IDLE_SLEEP_US, REPORT_INTERVAL_NS,
};
use ardupilot_bridge::feeds::{AttitudeCache, BaroCache, GpsCache, ImuCache};

/// What the machine sees from outside.
struct World {
    datagram: Option<Vec<u8>>,
    local_now_us: i64,
    now_ns: u64,
    send_ns: u64,
    imu: ImuCache,
    gps: GpsCache,
    attitude: AttitudeCache,
    baro: BaroCache,
}

fn quiet_world() -> World {
    World {
        datagram: None,
        local_now_us: 0,
        now_ns: 0,
        send_ns: 0,
        imu: ImuCache::default(),
        gps: GpsCache::default(),
        attitude: AttitudeCache::default(),
        baro: BaroCache::default(),
    }
}

/// Runs one iteration and returns its actions, without the first `PollServo`.
fn iterate(bridge: &mut Bridge, world: &mut World) -> Vec<Action> {
    let mut actions = Vec::new();
    let mut action = Action::PollServo;
    loop {
        let event = match action {
            Action::PollServo => Event::Servo {
                datagram: world.datagram.take(),
                now_ns: world.now_ns,
            },
            Action::DriveMotors { .. } => Event::Clock {
                local_now_us: world.local_now_us,
                gps: world.gps,
            },
            Action::SendTelemetry { .. } => Event::TelemetrySent,
            Action::ReadImu => Event::Imu { imu: world.imu },
            Action::ReadGps => Event::Gps { gps: world.gps },
            Action::ReadAttitude => Event::Attitude { attitude: world.attitude },
            Action::ReadBaro => Event::Baro { baro: world.baro },
            Action::Send { .. } => {
                let started_ns = world.now_ns;
                world.now_ns += world.send_ns;
                Event::Sent { started_ns, finished_ns: world.now_ns }
            }
            Action::SynthesizeMag { roll, pitch, yaw } => Event::MagField {
                mag_mgauss: [roll as u32, pitch as u32, yaw as u32],
            },
            Action::EstimatePressure { alt_msl } => Event::Pressure {
                pressure_pa: alt_msl as u32,
            },
            Action::ReadTimer => Event::Timer { now_ns: world.now_ns },
            Action::Report { .. } => Event::Reported { now_ns: world.now_ns },
            Action::Sleep => Event::Slept,
        };
        assert!(bridge.can_take(&event));
        action = bridge.step(event);
        actions.push(action);
        if matches!(action, Action::PollServo) {
            return actions;
        }
    }
}

fn packets(actions: &[Action]) -> Vec<SensorPacket> {
    let mut out = Vec::new();
    for action in actions {
        if let Action::Send { packet } = action {
            out.push(*packet);
        }
    }
    out
}

fn slept(actions: &[Action]) -> bool {
    actions.iter().any(|a| matches!(a, Action::Sleep))
}

fn servo_packet(pwm: [u16; 16]) -> Vec<u8> {
    let mut out = vec![0x1A, 0x48, 0x90, 0x01, 0x07, 0x00, 0x00, 0x00];
    for v in pwm {
        out.extend_from_slice(&v.to_le_bytes());
    }
    out
}

#[test]
fn bridge_constants() {
    assert_eq!(REPORT_INTERVAL_NS, 1_000_000_000);
    assert_eq!(IDLE_SLEEP_US, 500);
    assert_eq!(FALLBACK_TEMPERATURE_C, 39.8f32.to_bits());
}

#[test]
fn quiet_iteration_sleeps() {
    let mut bridge = Bridge::new(4, 0);
    let mut world = quiet_world();
    let actions = iterate(&mut bridge, &mut world);
    assert_eq!(actions.len(), 7);
    assert!(matches!(actions[0], Action::ReadImu));
    assert!(matches!(actions[1], Action::ReadGps));
    assert!(matches!(actions[2], Action::ReadAttitude));
    assert!(matches!(actions[3], Action::ReadBaro));
    assert!(matches!(actions[4], Action::ReadTimer));
    assert!(matches!(actions[5], Action::Sleep));
    assert_eq!(bridge.counters.loop_iters, 2);
    assert!(!bridge.saw_ap_servo);
}

#[test]
fn servo_output_drives_motors_and_telemetry() {
    let mut pwm = [1000u16; 16];
    pwm[1] = 1500;
    pwm[2] = 2100;
    pwm[3] = 1333;
    let mut bridge = Bridge::new(3, 0);
    let mut world = quiet_world();
    world.datagram = Some(servo_packet(pwm));
    world.local_now_us = 5_000;
    world.gps.epoch_us = 1_000_000;
    world.gps.local_us = 4_000;
    let actions = iterate(&mut bridge, &mut world);
    match actions[0] {
        Action::DriveMotors { servo, first_contact } => {
            assert_eq!(servo.pwm, pwm);
            assert_eq!(servo.frame_rate, 400);
            assert_eq!(servo.frame_count, 7);
            assert!(first_contact);
        }
        _ => panic!("motors were not driven"),
    }
    match actions[1] {
        Action::SendTelemetry { telemetry } => {
            assert_eq!(telemetry.time, 1_001_000);
            assert_eq!(telemetry.motor_pwm, [1000, 1500, 2100, 1333]);
            assert_eq!(
                telemetry.motor_command,
                [0.0f32, 0.5, 1.0, 0.0].map(f32::to_bits)
            );
        }
        _ => panic!("no telemetry"),
    }
    assert!(!slept(&actions));
    assert_eq!(bridge.counters.servo_recv, 1);
    assert_eq!(bridge.counters.roundtrip_count, 0);

    world.datagram = Some(servo_packet(pwm));
    let actions = iterate(&mut bridge, &mut world);
    match actions[0] {
        Action::DriveMotors { first_contact, .. } => assert!(!first_contact),
        _ => panic!("motors were not driven"),
    }
}

#[test]
fn malformed_servo_output_is_ignored() {
    let mut bridge = Bridge::new(4, 0);
    let mut world = quiet_world();
    let mut data = servo_packet([1500; 16]);
    data[1] = 0;
    world.datagram = Some(data);
    let actions = iterate(&mut bridge, &mut world);
    assert!(matches!(actions[0], Action::ReadImu));
    assert!(slept(&actions));
    assert_eq!(bridge.counters.servo_recv, 0);
}

#[test]
fn telemetry_time_without_gps_is_local() {
    let servo = ServoOutput { frame_rate: 0, frame_count: 0, pwm: [1250; 16] };
    let telemetry = telemetry_for(&servo, 16, 42);
    assert_eq!(telemetry.time, 42);
    assert_eq!(telemetry.motor_command, [0.25f32.to_bits(); 4]);
    let telemetry = telemetry_for(&servo, 0, 42);
    assert_eq!(telemetry.motor_command, [0; 4]);
}

#[test]
fn every_new_reading_is_sent_once() {
    let mut bridge = Bridge::new(4, 0);
    let mut world = quiet_world();
    world.imu = ImuCache { gyro: [1, 2, 3], accel: [4, 5, 6], timestamp: 0, seq: 1 };
    world.gps.lat = 7;
    world.gps.unix_epoch_ms = 8;
    world.gps.seq = 1;
    world.attitude = AttitudeCache { roll: 9, pitch: 10, yaw: 11, seq: 1 };
    world.baro = BaroCache { pressure_pa: 12, temperature_c: 13, seq: 1 };
    let actions = iterate(&mut bridge, &mut world);
    let sent = packets(&actions);
    assert_eq!(sent.len(), 4);
    match sent[0] {
        SensorPacket::Imu(p) => {
            assert_eq!((p.gyro, p.accel_body), ([1, 2, 3], [4, 5, 6]));
            assert_eq!(sent[0].to_bytes(), p.to_bytes());
        }
        _ => panic!("IMU comes first"),
    }
    match sent[1] {
        SensorPacket::Gps(p) => {
            assert_eq!((p.lat, p.unix_epoch_ms), (7, 8));
            assert_eq!(sent[1].to_bytes(), p.to_bytes());
        }
        _ => panic!("GPS comes second"),
    }
    match sent[2] {
        SensorPacket::Mag(p) => {
            assert_eq!(p.mag_mgauss, [9, 10, 11]);
            assert_eq!(sent[2].to_bytes(), p.to_bytes());
        }
        _ => panic!("compass comes third"),
    }
    match sent[3] {
        SensorPacket::Baro(p) => {
            assert_eq!((p.pressure_pa, p.temperature_c), (12, 13));
            assert_eq!(sent[3].to_bytes(), p.to_bytes());
        }
        _ => panic!("barometer comes last"),
    }
    assert!(!slept(&actions));

    let actions = iterate(&mut bridge, &mut world);
    assert!(packets(&actions).is_empty());
    assert!(slept(&actions));

    world.attitude.seq = 2;
    let actions = iterate(&mut bridge, &mut world);
    let sent = packets(&actions);
    assert_eq!(sent.len(), 1);
    assert!(matches!(sent[0], SensorPacket::Mag(_)));
}

#[test]
fn skipped_imu_readings_are_counted() {
    let mut bridge = Bridge::new(4, 0);
    let mut world = quiet_world();
    for seq in [1u64, 5, 6, 2] {
        world.imu.seq = seq;
        iterate(&mut bridge, &mut world);
    }
    // A restarted subscription numbers from one again, which skips nothing.
    assert_eq!(bridge.counters.imu_sent, 4);
    assert_eq!(bridge.counters.imu_skipped, 3);
    assert_eq!(bridge.last_imu_seq, 2);
}

#[test]
fn first_imu_reading_may_be_late() {
    let mut bridge = Bridge::new(4, 0);
    let mut world = quiet_world();
    world.imu.seq = 10;
    iterate(&mut bridge, &mut world);
    assert_eq!(bridge.counters.imu_skipped, 9);
}

#[test]
fn pressure_is_estimated_once_for_each_gps_reading() {
    let mut bridge = Bridge::new(4, 0);
    let mut world = quiet_world();
    world.gps.seq = 1;
    world.gps.alt_msl = 10_500;
    let actions = iterate(&mut bridge, &mut world);
    let sent = packets(&actions);
    assert_eq!(sent.len(), 2);
    match sent[1] {
        SensorPacket::Baro(p) => {
            assert_eq!((p.pressure_pa, p.temperature_c), (10_500, 39.8f32.to_bits()));
        }
        _ => panic!("no estimate"),
    }
    assert!(packets(&iterate(&mut bridge, &mut world)).is_empty());

    world.gps.seq = 2;
    assert_eq!(packets(&iterate(&mut bridge, &mut world)).len(), 2);

    // Once the barometer has started, there are no more estimates.
    world.baro.seq = 1;
    world.gps.seq = 3;
    let sent = packets(&iterate(&mut bridge, &mut world));
    assert_eq!(sent.len(), 2);
    match sent[1] {
        SensorPacket::Baro(p) => assert_eq!(p.temperature_c, 0),
        _ => panic!("no barometer packet"),
    }
    world.gps.seq = 4;
    let sent = packets(&iterate(&mut bridge, &mut world));
    assert_eq!(sent.len(), 1);
    assert!(matches!(sent[0], SensorPacket::Gps(_)));
}

#[test]
fn roundtrips_are_timed() {
    let mut bridge = Bridge::new(4, 0);
    let mut world = quiet_world();
    world.send_ns = 2_500;
    world.imu.seq = 1;
    iterate(&mut bridge, &mut world);
    assert_eq!(bridge.counters.bin_ser_total_us, 2);
    assert_eq!(bridge.counters.bin_ser_count, 1);
    assert_eq!(bridge.last_sensor_send_ns, Some(0));

    world.now_ns = 3_001_999;
    world.datagram = Some(servo_packet([1500; 16]));
    iterate(&mut bridge, &mut world);
    assert_eq!(bridge.counters.roundtrip_total_us, 3_001);
    assert_eq!(bridge.counters.roundtrip_count, 1);
    assert_eq!(bridge.last_sensor_send_ns, None);

    // Another servo output answers nothing, and a GPS packet starts no wait.
    world.datagram = Some(servo_packet([1500; 16]));
    world.gps.seq = 1;
    world.baro.seq = 1;
    bridge.last_baro_seq_sent = 1;
    iterate(&mut bridge, &mut world);
    assert_eq!(bridge.counters.roundtrip_count, 1);
    assert_eq!(bridge.counters.gps_sent, 1);
    assert_eq!(bridge.last_sensor_send_ns, None);
}

fn report_in(actions: &[Action]) -> Option<RateReport> {
    for action in actions {
        if let Action::Report { report } = action {
            return Some(*report);
        }
    }
    None
}

#[test]
fn rates_are_reported_once_a_second() {
    let mut bridge = Bridge::new(4, 1_000);
    let mut world = quiet_world();
    world.imu.seq = 1;
    world.gps.seq = 1;
    world.now_ns = 1_000_000_999;
    assert!(report_in(&iterate(&mut bridge, &mut world)).is_none());
    world.now_ns = 1_000_001_000;
    let actions = iterate(&mut bridge, &mut world);
    let report = report_in(&actions).unwrap();
    assert_eq!(report.elapsed_ns, 1_000_000_000);
    assert_eq!(report.bin_total, 3);
    assert_eq!(report.counters.imu_sent, 1);
    assert_eq!(report.counters.gps_sent, 1);
    assert_eq!(report.counters.baro_sent, 1);
    assert_eq!(report.counters.loop_iters, 2);
    assert_eq!(report.bin_ser_divisor, 3);
    assert_eq!(report.roundtrip_divisor, 1);
    assert!(slept(&actions));
    assert_eq!(bridge.counters.loop_iters, 1);
    assert_eq!(bridge.counters.imu_sent, 0);
    assert_eq!(bridge.counters.bin_ser_count, 0);
    assert_eq!(bridge.rate_timer_ns, 1_000_001_000);
    assert_eq!(bridge.last_imu_seq, 1);
    assert!(report_in(&iterate(&mut bridge, &mut world)).is_none());
}

#[test]
fn too_many_motors_refuse_servo_output() {
    let bridge = Bridge::new(17, 0);
    let event = Event::Servo { datagram: Some(servo_packet([1500; 16])), now_ns: 0 };
    assert!(!bridge.can_take(&event));
    assert!(bridge.can_take(&Event::Servo { datagram: Some(vec![1, 2, 3]), now_ns: 0 }));
    let bridge = Bridge::new(16, 0);
    assert!(bridge.can_take(&event));
}

#[test]
fn unexpected_and_overflowing_events_are_refused() {
    let mut bridge = Bridge::new(4, 0);
    assert!(!bridge.can_take(&Event::Slept));
    assert!(!bridge.can_take(&Event::Timer { now_ns: 0 }));
    bridge.step(Event::Servo { datagram: None, now_ns: 0 });
    bridge.counters.imu_skipped = u64::MAX - 3;
    let mut imu = ImuCache::default();
    imu.seq = 5;
    assert!(!bridge.can_take(&Event::Imu { imu }));
    imu.seq = 4;
    assert!(bridge.can_take(&Event::Imu { imu }));
}
