//! What the main loop does with each event, in terms of what it was told, what
//! it asks for next and what it keeps.

use vstd::prelude::*;

#[allow(unused_imports)]
use crate::ardupilot_ipc::{normalized, pulses_are_normalized, ServoOutput};
#[allow(unused_imports)]
use crate::bridge::{
    motor_telemetry, Action, Bridge, Event, Phase, RateCounters, SensorPacket, BRIDGE_RETRY_MS,
    IDLE_SLEEP_US,
};
#[allow(unused_imports)]
use crate::elodin::{is_nearest_f32, thousandths_are_rounded_to_nearest, thousandths_f32};
#[allow(unused_imports)]
use crate::feeds::{
    AttitudeCache, BaroCache, GpsCache, ImuCache, FEED_RETRY_SECS, IMU_RETRY_SECS,
    SUBSCRIBE_TIMEOUT_SECS,
};
#[allow(unused_imports)]
use crate::timing::{telemetry_time, telemetry_time_keeps_the_distance};

verus! {

/// `n` where it fits in a `u64`, and the largest `u64` where it is larger.
pub open spec fn capped(n: int) -> int {
    if n > 0xFFFF_FFFF_FFFF_FFFF {
        0xFFFF_FFFF_FFFF_FFFF
    } else {
        n
    }
}

/// Without servo output nothing happens but that the IMU is looked at next.
/// Servo output is what the motors are driven with. It counts once, is a first
/// contact only once, and ends the wait for an answer to a sensor packet, whose
/// time is added in whole microseconds. Nothing else changes.
pub proof fn servo_output_is_taken_in(b: Bridge, datagram: Option<Vec<u8>>, now_ns: u64)
    requires
        b.accepts(Event::Servo { datagram, now_ns }),
        b.wf(),
    ensures
        ({
            let (after, action) = b.next(Event::Servo { datagram, now_ns });
            let heard = datagram is Some && ServoOutput::parse(datagram->0@) is Some;
            let servo = ServoOutput::parse(datagram->0@)->0;
            let waited = b.last_sensor_send_ns;
            let c = after.counters;
            &&& !heard <==> action is ReadImu
            &&& !heard ==> after == Bridge { phase: Phase::Imu, ..b }
            &&& heard <==> action is DriveMotors
            &&& heard ==> {
                &&& action->servo == servo
                &&& action->first_contact <==> !b.saw_ap_servo
                &&& after == Bridge {
                    phase: Phase::Clock { servo },
                    saw_ap_servo: true,
                    last_sensor_send_ns: None,
                    counters: c,
                    ..b
                }
                &&& c == RateCounters {
                    servo_recv: c.servo_recv,
                    roundtrip_count: c.roundtrip_count,
                    roundtrip_total_us: c.roundtrip_total_us,
                    ..b.counters
                }
                &&& c.servo_recv == b.counters.servo_recv + 1
                &&& waited is None ==> c.roundtrip_count == b.counters.roundtrip_count
                    && c.roundtrip_total_us == b.counters.roundtrip_total_us
                &&& waited is Some ==> c.roundtrip_count == capped(b.counters.roundtrip_count + 1)
                &&& waited matches Some(sent_ns) ==> now_ns >= sent_ns ==> c.roundtrip_total_us
                    == capped(b.counters.roundtrip_total_us + (now_ns - sent_ns) / 1000)
                &&& waited matches Some(sent_ns) ==> now_ns < sent_ns ==> c.roundtrip_total_us
                    == b.counters.roundtrip_total_us
            }
        }),
{
}

/// The telemetry for servo output shows each of the first four channels in its
/// own place: the pulse width as it came and, where the channel is a motor, the
/// `f32` closest to how far the pulse, kept between 1000 and 2000 us, is above
/// 1000 us, in thousandths. A channel that is no motor shows zero.
pub proof fn telemetry_shows_each_channel(servo: ServoOutput, n: usize, time: i64, i: int)
    requires
        0 <= i < 4,
    ensures
        ({
            let t = motor_telemetry(servo, n, time);
            let pwm = servo.pwm[i];
            let command = t.motor_command[i];
            &&& t.time == time
            &&& t.motor_pwm[i] == pwm
            &&& i >= n || pwm <= 1000 ==> command == 0
            &&& i < n && 1000 < pwm <= 2000 ==> is_nearest_f32(pwm - 1000, command as int)
            &&& i < n && pwm > 2000 ==> is_nearest_f32(1000, command as int)
        }),
{
    pulses_are_normalized(servo.pwm[i]);
    thousandths_are_rounded_to_nearest(normalized(servo.pwm[i]));
    let t = motor_telemetry(servo, n, time);
    assert(i == 0 || i == 1 || i == 2 || i == 3);
    if i < n && servo.pwm[i] > 1000 {
        let k = normalized(servo.pwm[i]);
        nearest_fits(k as int, thousandths_f32(k));
    }
}

/// A pattern close to a motor value fits in 32 bits.
proof fn nearest_fits(k: int, bits: int)
    requires
        is_nearest_f32(k, bits),
    ensures
        0 <= bits < 0x1_0000_0000,
{
}

/// Channels do not disturb each other: what the telemetry shows of a channel is
/// the same for any two servo outputs that agree on it.
pub proof fn telemetry_channels_are_independent(
    a: ServoOutput,
    b: ServoOutput,
    n: usize,
    time_a: i64,
    time_b: i64,
    i: int,
)
    requires
        0 <= i < 4,
        a.pwm[i] == b.pwm[i],
    ensures
        motor_telemetry(a, n, time_a).motor_command[i] == motor_telemetry(
            b,
            n,
            time_b,
        ).motor_command[i],
        motor_telemetry(a, n, time_a).motor_pwm[i] == motor_telemetry(b, n, time_b).motor_pwm[i],
{
    assert(i == 0 || i == 1 || i == 2 || i == 3);
}

/// Once the motors were driven, the telemetry shows the servo output that drove
/// them. Its time is as far after the GPS time as the local clock is after the
/// reading that it came with, or the local clock where there is no GPS time.
/// Nothing but the phase changes.
pub proof fn telemetry_follows_the_motors(
    b: Bridge,
    servo: ServoOutput,
    local_now_us: i64,
    gps: GpsCache,
    i: int,
)
    requires
        b.phase == (Phase::Clock { servo }),
        0 <= i < 4,
    ensures
        ({
            let (after, action) = b.next(Event::Clock { local_now_us, gps });
            let t = action->telemetry;
            let pwm = servo.pwm[i];
            let command = t.motor_command[i];
            let since = local_now_us - gps.local_us;
            let max = 0x7FFF_FFFF_FFFF_FFFFint;
            let min = -0x8000_0000_0000_0000int;
            &&& after == Bridge { phase: Phase::Telemetry, ..b }
            &&& action is SendTelemetry
            &&& gps.epoch_us <= 0 ==> t.time == local_now_us
            &&& gps.epoch_us > 0 && since >= min && gps.epoch_us + since <= max ==> t.time
                - gps.epoch_us == since
            &&& gps.epoch_us > 0 && gps.epoch_us + since > max ==> t.time == max
            &&& gps.epoch_us > 0 && since < min ==> t.time - gps.epoch_us == min
            &&& t.motor_pwm[i] == pwm
            &&& i >= b.num_motors || pwm <= 1000 ==> command == 0
            &&& i < b.num_motors && 1000 < pwm <= 2000 ==> is_nearest_f32(
                pwm - 1000,
                command as int,
            )
            &&& i < b.num_motors && pwm > 2000 ==> is_nearest_f32(1000, command as int)
        }),
{
    let time = telemetry_time(gps.epoch_us, gps.local_us, local_now_us);
    telemetry_time_keeps_the_distance(gps.epoch_us, gps.local_us, local_now_us);
    telemetry_shows_each_channel(servo, b.num_motors, time, i);
}

/// Telemetry that was sent counts as work, and the IMU is looked at next.
pub proof fn telemetry_counts_as_work(b: Bridge)
    ensures
        b.next(Event::TelemetrySent).1 is ReadImu,
        b.next(Event::TelemetrySent).0 == (Bridge { phase: Phase::Imu, did_work: true, ..b }),
{
}

/// An IMU reading is sent exactly where it has a number above zero that is not
/// the one sent last. The packet holds its rates and forces as they are, axis by
/// axis; the reading is then the one sent last, and the numbers between the two
/// count as skipped. Otherwise nothing happens but that the GPS is looked at.
pub proof fn imu_readings_are_sent_as_they_are(b: Bridge, imu: ImuCache)
    requires
        b.accepts(Event::Imu { imu }),
    ensures
        ({
            let (after, action) = b.next(Event::Imu { imu });
            let new = imu.seq > 0 && imu.seq != b.last_imu_seq;
            let c = after.counters;
            &&& new <==> action is Send
            &&& !new <==> action is ReadGps
            &&& !new ==> after == Bridge { phase: Phase::Gps, ..b }
            &&& new ==> {
                &&& action->packet is Imu
                &&& forall|i: int|
                    0 <= i < 3 ==> {
                        &&& #[trigger] action->packet->Imu_0.gyro[i] == imu.gyro[i]
                        &&& action->packet->Imu_0.accel_body[i] == imu.accel[i]
                    }
                &&& action->packet->Imu_0.gyro == imu.gyro
                &&& action->packet->Imu_0.accel_body == imu.accel
                &&& after == Bridge {
                    phase: Phase::SendImu,
                    last_imu_seq: imu.seq,
                    counters: c,
                    ..b
                }
                &&& c == RateCounters { imu_skipped: c.imu_skipped, ..b.counters }
                &&& imu.seq > b.last_imu_seq ==> c.imu_skipped - b.counters.imu_skipped == imu.seq
                    - b.last_imu_seq - 1
                &&& imu.seq < b.last_imu_seq ==> c.imu_skipped == b.counters.imu_skipped
            }
        }),
{
}

/// A GPS reading is sent exactly where it has a number above zero that is not
/// the one sent last, with every field as it is, and is then the one sent last.
/// Either way it is the reading at hand; nothing else changes.
pub proof fn gps_readings_are_sent_as_they_are(b: Bridge, gps: GpsCache)
    ensures
        ({
            let (after, action) = b.next(Event::Gps { gps });
            let new = gps.seq > 0 && gps.seq != b.last_gps_seq_sent;
            let p = action->packet->Gps_0;
            &&& new <==> action is Send
            &&& !new <==> action is ReadAttitude
            &&& !new ==> after == Bridge { phase: Phase::Attitude, gps, ..b }
            &&& new ==> {
                &&& action->packet is Gps
                &&& p.lat == gps.lat
                &&& p.lon == gps.lon
                &&& p.alt_msl == gps.alt_msl
                &&& p.vel_ned == gps.vel_ned
                &&& p.h_acc == gps.h_acc
                &&& p.v_acc == gps.v_acc
                &&& p.s_acc == gps.s_acc
                &&& p.ground_speed == gps.ground_speed
                &&& p.fix_type == gps.fix_type
                &&& p.satellites == gps.satellites
                &&& p.itow == gps.itow
                &&& p.unix_epoch_ms == gps.unix_epoch_ms
                &&& after == Bridge {
                    phase: Phase::SendGps,
                    gps,
                    last_gps_seq_sent: gps.seq,
                    ..b
                }
            }
        }),
{
}

/// The field is asked for exactly where an attitude has a number above zero that
/// is not the one used last, and then for that attitude: its roll, pitch and yaw
/// as they are. The field that comes back is sent as it is, axis by axis.
pub proof fn attitudes_become_compass_packets(
    b: Bridge,
    attitude: AttitudeCache,
    mag_mgauss: [u32; 3],
)
    ensures
        ({
            let (after, action) = b.next(Event::Attitude { attitude });
            let new = attitude.seq > 0 && attitude.seq != b.last_mag_seq_sent;
            &&& new <==> action is SynthesizeMag
            &&& !new <==> action is ReadBaro
            &&& !new ==> after == Bridge { phase: Phase::Baro, ..b }
            &&& new ==> {
                &&& action->roll == attitude.roll
                &&& action->pitch == attitude.pitch
                &&& action->yaw == attitude.yaw
                &&& after == Bridge {
                    phase: Phase::MagField,
                    last_mag_seq_sent: attitude.seq,
                    ..b
                }
            }
        }),
        ({
            let (after, action) = b.next(Event::MagField { mag_mgauss });
            &&& action is Send && action->packet is Mag
            &&& action->packet->Mag_0.mag_mgauss == mag_mgauss
            &&& after == Bridge { phase: Phase::SendMag, ..b }
        }),
{
}

/// Whatever the event, the field is only ever asked for where an attitude came
/// in, and then for its roll, pitch and yaw.
pub proof fn the_field_is_asked_for_the_attitude(b: Bridge, event: Event)
    requires
        b.accepts(event),
        b.next(event).1 is SynthesizeMag,
    ensures
        event is Attitude,
        b.next(event).1->roll == event->attitude.roll,
        b.next(event).1->pitch == event->attitude.pitch,
        b.next(event).1->yaw == event->attitude.yaw,
{
}

/// A barometer reading is sent, as it is, exactly where it has a number above
/// zero that is not the one sent last. Where the barometer has never delivered,
/// the pressure is estimated exactly where the GPS reading at hand has a number
/// above zero, was the last one sent and was not used for an estimate yet, and
/// then at its altitude. Otherwise the timer is next. Nothing else changes.
pub proof fn baro_readings_are_sent_or_estimated(b: Bridge, baro: BaroCache)
    ensures
        ({
            let (after, action) = b.next(Event::Baro { baro });
            let new = baro.seq > 0 && baro.seq != b.last_baro_seq_sent;
            let estimate = baro.seq == 0 && b.gps.seq > 0 && b.gps.seq == b.last_gps_seq_sent
                && b.gps.seq != b.last_baro_fallback_gps_seq_sent;
            &&& new <==> action is Send
            &&& estimate <==> action is EstimatePressure
            &&& !new && !estimate <==> action is ReadTimer
            &&& new ==> {
                &&& action->packet is Baro
                &&& action->packet->Baro_0.pressure_pa == baro.pressure_pa
                &&& action->packet->Baro_0.temperature_c == baro.temperature_c
                &&& after == Bridge { phase: Phase::SendBaro, last_baro_seq_sent: baro.seq, ..b }
            }
            &&& estimate ==> {
                &&& action->alt_msl == b.gps.alt_msl
                &&& after == Bridge {
                    phase: Phase::Pressure,
                    last_baro_fallback_gps_seq_sent: b.gps.seq,
                    ..b
                }
            }
            &&& !new && !estimate ==> after == Bridge { phase: Phase::Timer, ..b }
        }),
{
}

/// A pressure that was estimated is sent as it is, with 39.8 degrees Celsius.
pub proof fn estimates_are_sent(b: Bridge, pressure_pa: u32)
    ensures
        ({
            let (after, action) = b.next(Event::Pressure { pressure_pa });
            &&& action is Send && action->packet is Baro
            &&& action->packet->Baro_0.pressure_pa == pressure_pa
            &&& action->packet->Baro_0.temperature_c == 0x421F_3333
            &&& after == Bridge { phase: Phase::SendBaro, ..b }
        }),
{
}

/// A sensor packet that was sent counts once, under its own kind, and as work;
/// the whole microseconds that it took are added. All but GPS packets start the
/// wait for an answer, from when they were started. The next sensor follows.
pub proof fn sent_packets_are_counted(b: Bridge, started_ns: u64, finished_ns: u64)
    requires
        b.accepts(Event::Sent { started_ns, finished_ns }),
        b.wf(),
    ensures
        ({
            let (after, action) = b.next(Event::Sent { started_ns, finished_ns });
            let (old_c, c) = (b.counters, after.counters);
            let took = if finished_ns >= started_ns {
                (finished_ns - started_ns) / 1000
            } else {
                0
            };
            &&& b.phase is SendImu ==> action is ReadGps && after.phase is Gps
            &&& b.phase is SendGps ==> action is ReadAttitude && after.phase is Attitude
            &&& b.phase is SendMag ==> action is ReadBaro && after.phase is Baro
            &&& b.phase is SendBaro ==> action is ReadTimer && after.phase is Timer
            &&& c.imu_sent - old_c.imu_sent == if b.phase is SendImu { 1int } else { 0int }
            &&& c.gps_sent - old_c.gps_sent == if b.phase is SendGps { 1int } else { 0int }
            &&& c.mag_sent - old_c.mag_sent == if b.phase is SendMag { 1int } else { 0int }
            &&& c.baro_sent - old_c.baro_sent == if b.phase is SendBaro { 1int } else { 0int }
            &&& c.bin_ser_count == capped(old_c.bin_ser_count + 1)
            &&& c.bin_ser_total_us == capped(old_c.bin_ser_total_us + took)
            &&& c == RateCounters {
                imu_sent: c.imu_sent,
                gps_sent: c.gps_sent,
                mag_sent: c.mag_sent,
                baro_sent: c.baro_sent,
                bin_ser_count: c.bin_ser_count,
                bin_ser_total_us: c.bin_ser_total_us,
                ..old_c
            }
            &&& after == Bridge {
                phase: after.phase,
                counters: c,
                did_work: true,
                last_sensor_send_ns: after.last_sensor_send_ns,
                ..b
            }
            &&& b.phase is SendGps ==> after.last_sensor_send_ns == b.last_sensor_send_ns
            &&& !(b.phase is SendGps) ==> after.last_sensor_send_ns == Some(started_ns)
        }),
{
}

/// Rates are reported exactly where a second or more has passed since the last
/// report. A report holds the time that has passed, the counters as they are,
/// the sum of the packets of all kinds and divisors that are never zero.
/// Otherwise the iteration ends.
pub proof fn rates_are_reported_every_second(b: Bridge, now_ns: u64)
    requires
        b.accepts(Event::Timer { now_ns }),
    ensures
        ({
            let (after, action) = b.next(Event::Timer { now_ns });
            let due = now_ns - b.rate_timer_ns >= 1_000_000_000;
            let c = b.counters;
            let r = action->report;
            &&& due <==> action is Report
            &&& !due && b.did_work <==> action is PollServo
            &&& !due && !b.did_work <==> action is Sleep
            &&& due ==> {
                &&& r.elapsed_ns == now_ns - b.rate_timer_ns
                &&& r.counters == c
                &&& r.bin_total == c.imu_sent + c.gps_sent + c.mag_sent + c.baro_sent
                &&& c.bin_ser_count > 0 ==> r.bin_ser_divisor == c.bin_ser_count
                &&& c.bin_ser_count == 0 ==> r.bin_ser_divisor == 1
                &&& c.roundtrip_count > 0 ==> r.roundtrip_divisor == c.roundtrip_count
                &&& c.roundtrip_count == 0 ==> r.roundtrip_divisor == 1
                &&& after == Bridge { phase: Phase::Report, ..b }
            }
            &&& action is Sleep ==> after == Bridge { phase: Phase::Sleep, ..b }
            &&& action is PollServo ==> {
                &&& after.counters.loop_iters == c.loop_iters + 1
                &&& after.counters == RateCounters {
                    loop_iters: after.counters.loop_iters,
                    ..c
                }
                &&& after == Bridge {
                    phase: Phase::Servo,
                    did_work: false,
                    counters: after.counters,
                    ..b
                }
            }
        }),
{
}

/// After a report all counters start from zero and the next second from now; the
/// next iteration, if it starts right away, is the first that counts. Nothing
/// else changes.
pub proof fn reports_start_over(b: Bridge, now_ns: u64)
    ensures
        ({
            let (after, action) = b.next(Event::Reported { now_ns });
            let c = after.counters;
            &&& b.did_work <==> action is PollServo
            &&& !b.did_work <==> action is Sleep
            &&& c.imu_sent == 0 && c.gps_sent == 0 && c.mag_sent == 0 && c.baro_sent == 0
            &&& c.servo_recv == 0 && c.imu_skipped == 0
            &&& c.bin_ser_total_us == 0 && c.bin_ser_count == 0
            &&& c.roundtrip_total_us == 0 && c.roundtrip_count == 0
            &&& c.loop_iters == if b.did_work { 1int } else { 0int }
            &&& after == Bridge {
                phase: if b.did_work { Phase::Servo } else { Phase::Sleep },
                did_work: false,
                counters: c,
                rate_timer_ns: now_ns,
                ..b
            }
        }),
{
}

/// After a sleep the next iteration starts: it counts once, and nothing was done
/// in it yet. Nothing else changes.
pub proof fn sleep_is_followed_by_the_next_iteration(b: Bridge)
    requires
        b.accepts(Event::Slept),
    ensures
        ({
            let (after, action) = b.next(Event::Slept);
            &&& action is PollServo
            &&& after.counters.loop_iters == b.counters.loop_iters + 1
            &&& after.counters == RateCounters {
                loop_iters: after.counters.loop_iters,
                ..b.counters
            }
            &&& after == Bridge {
                phase: Phase::Servo,
                did_work: false,
                counters: after.counters,
                ..b
            }
        }),
{
}

/// Which events the machine can take: the one that answers its last action, as
/// long as no counter overflows and servo output does not come in while more
/// than sixteen channels are configured as motors.
pub proof fn events_are_taken_in_turn(b: Bridge, event: Event)
    ensures
        b.accepts(event) <==> {
            let c = b.counters;
            let max = 0xFFFF_FFFF_FFFF_FFFFint;
            match event {
                Event::Servo { datagram, .. } => b.phase is Servo && (b.num_motors <= 16
                    || datagram is None || ServoOutput::parse(datagram->0@) is None),
                Event::Clock { .. } => b.phase is Clock,
                Event::TelemetrySent => b.phase is Telemetry,
                Event::Imu { imu } => b.phase is Imu && (imu.seq <= b.last_imu_seq
                    || c.imu_skipped + (imu.seq - b.last_imu_seq - 1) <= max),
                Event::Gps { .. } => b.phase is Gps,
                Event::Attitude { .. } => b.phase is Attitude,
                Event::Baro { .. } => b.phase is Baro,
                Event::MagField { .. } => b.phase is MagField,
                Event::Pressure { .. } => b.phase is Pressure,
                Event::Sent { .. } => b.phase is SendImu || b.phase is SendGps || b.phase is SendMag
                    || b.phase is SendBaro,
                Event::Timer { now_ns } => b.phase is Timer && if now_ns - b.rate_timer_ns
                    >= 1_000_000_000 {
                    c.imu_sent + c.gps_sent + c.mag_sent + c.baro_sent <= max
                } else {
                    !b.did_work || c.loop_iters < max
                },
                Event::Reported { .. } => b.phase is Report,
                Event::Slept => b.phase is Sleep && c.loop_iters < max,
            }
        },
{
}

/// A sensor packet of any kind goes out as that packet does.
pub proof fn packets_keep_their_bytes(packet: SensorPacket)
    ensures
        packet matches SensorPacket::Imu(p) ==> packet.wire() == p.wire(),
        packet matches SensorPacket::Gps(p) ==> packet.wire() == p.wire(),
        packet matches SensorPacket::Mag(p) ==> packet.wire() == p.wire(),
        packet matches SensorPacket::Baro(p) ==> packet.wire() == p.wire(),
{
}

/// A new count has nothing in it.
pub proof fn counters_start_at_zero()
    ensures
        ({
            let c = RateCounters::zero();
            &&& c.imu_sent == 0 && c.gps_sent == 0 && c.mag_sent == 0 && c.baro_sent == 0
            &&& c.servo_recv == 0 && c.imu_skipped == 0 && c.loop_iters == 0
            &&& c.bin_ser_total_us == 0 && c.bin_ser_count == 0
            &&& c.roundtrip_total_us == 0 && c.roundtrip_count == 0
        }),
{
}

/// How long is waited: half a millisecond when idle, half a second before the
/// bridge starts again, five seconds for a first reading, and one second before
/// the IMU is subscribed to again, two for anything else.
pub proof fn waiting_times()
    ensures
        IDLE_SLEEP_US == 500,
        BRIDGE_RETRY_MS == 500,
        SUBSCRIBE_TIMEOUT_SECS == 5,
        IMU_RETRY_SECS == 1,
        FEED_RETRY_SECS == 2,
{
}

} // verus!
