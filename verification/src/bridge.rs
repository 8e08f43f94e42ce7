//! The main loop of the bridge, as a state machine.
//!
//! One iteration takes in servo output from ArduPilot and drives the motors,
//! then forwards whichever sensor readings are new: IMU, GPS, compass and
//! barometer, in this order. Once a second it reports the rates, and an
//! iteration in which nothing was done ends with a short sleep.
//!
//! The machine says what to do next and is told what came of it. Sockets,
//! clocks, shared readings and floating-point arithmetic are the caller's.

use vstd::prelude::*;

#[allow(unused_imports)]
use crate::ardupilot_ipc::{normalized, servo_output_round_trip};
use crate::ardupilot_ipc::{
    AlephBaroPacket, AlephGpsPacket, AlephImuPacket, AlephMagPacket, ServoOutput,
    NUM_SERVO_CHANNELS,
};
#[allow(unused_imports)]
use crate::elodin::{thousandths_f32, M10QInput};
use crate::elodin::{thousandths_to_f32_bits, MotorTelemetry};
use crate::feeds::{AttitudeCache, BaroCache, GpsCache, ImuCache};
use crate::timing::{elapsed_micros, telemetry_time_us};
#[allow(unused_imports)]
use crate::timing::{elapsed_us, telemetry_time};

verus! {

/// Nanoseconds between two rate reports.
pub const REPORT_INTERVAL_NS: u64 = 1_000_000_000;

/// Microseconds to sleep after an iteration in which nothing was done.
pub const IDLE_SLEEP_US: u64 = 500;

/// Milliseconds before the bridge is started again after an error.
pub const BRIDGE_RETRY_MS: u64 = 500;

/// The `f32` bit pattern of 39.8 degrees Celsius, reported along with a
/// pressure that was estimated from the GPS altitude.
pub const FALLBACK_TEMPERATURE_C: u32 = 0x421F_3333;

/// What was done since the last rate report.
#[derive(Debug, Clone, Copy)]
pub struct RateCounters {
    pub imu_sent: u64,
    pub gps_sent: u64,
    pub mag_sent: u64,
    pub baro_sent: u64,
    pub servo_recv: u64,
    /// IMU readings that were overwritten before they could be sent.
    pub imu_skipped: u64,
    pub loop_iters: u64,
    /// Time spent on encoding and sending sensor packets.
    pub bin_ser_total_us: u64,
    pub bin_ser_count: u64,
    /// Time from sending a sensor packet to the next servo output.
    pub roundtrip_total_us: u64,
    pub roundtrip_count: u64,
}

/// The contents of a rate report.
#[derive(Debug, Clone, Copy)]
pub struct RateReport {
    pub elapsed_ns: u64,
    /// Sensor packets sent, of all kinds.
    pub bin_total: u64,
    pub counters: RateCounters,
    /// What to divide `bin_ser_total_us` by for the average.
    pub bin_ser_divisor: u64,
    /// What to divide `roundtrip_total_us` by for the average.
    pub roundtrip_divisor: u64,
}

/// A sensor packet of any kind.
#[derive(Debug, Clone, Copy)]
pub enum SensorPacket {
    Imu(AlephImuPacket),
    Gps(AlephGpsPacket),
    Mag(AlephMagPacket),
    Baro(AlephBaroPacket),
}

impl SensorPacket {
    /// The packet on the wire.
    pub open spec fn wire(self) -> Seq<u8> {
        match self {
            SensorPacket::Imu(p) => p.wire(),
            SensorPacket::Gps(p) => p.wire(),
            SensorPacket::Mag(p) => p.wire(),
            SensorPacket::Baro(p) => p.wire(),
        }
    }

    pub fn to_bytes(&self) -> (out: Vec<u8>)
        ensures
            out@ == self.wire(),
    {
        match self {
            SensorPacket::Imu(p) => p.to_bytes(),
            SensorPacket::Gps(p) => p.to_bytes(),
            SensorPacket::Mag(p) => p.to_bytes(),
            SensorPacket::Baro(p) => p.to_bytes(),
        }
    }
}

/// What the machine is waiting for.
#[derive(Debug, Clone, Copy)]
pub enum Phase {
    /// Servo output, if there is any.
    Servo,
    /// The clock and the GPS reading, after the motors were driven.
    Clock { servo: ServoOutput },
    /// Telemetry to be sent.
    Telemetry,
    /// The latest IMU reading.
    Imu,
    /// The IMU packet to be sent.
    SendImu,
    /// The latest GPS reading.
    Gps,
    /// The GPS packet to be sent.
    SendGps,
    /// The latest attitude.
    Attitude,
    /// The magnetic field for that attitude.
    MagField,
    /// The compass packet to be sent.
    SendMag,
    /// The latest barometer reading.
    Baro,
    /// The pressure for the GPS altitude.
    Pressure,
    /// The barometer packet to be sent.
    SendBaro,
    /// The clock, for the rate report.
    Timer,
    /// The rate report to be made.
    Report,
    /// The end of the sleep.
    Sleep,
}

/// What the caller has to do next.
#[derive(Debug, Clone, Copy)]
pub enum Action {
    /// Take a datagram from the servo socket, if there is one.
    PollServo,
    /// Command the motors; `first_contact` where this is the first servo
    /// output. Then read the local clock and the GPS reading.
    DriveMotors { servo: ServoOutput, first_contact: bool },
    /// Write the telemetry to Elodin-DB.
    SendTelemetry { telemetry: MotorTelemetry },
    ReadImu,
    ReadGps,
    ReadAttitude,
    ReadBaro,
    /// Send the packet to ArduPilot, and take the time.
    Send { packet: SensorPacket },
    /// Compute the magnetic field in the body frame for the attitude (`f64`).
    SynthesizeMag { roll: u64, pitch: u64, yaw: u64 },
    /// Compute the static pressure at the altitude (mm above mean sea level).
    EstimatePressure { alt_msl: i32 },
    /// Read the monotonic clock.
    ReadTimer,
    Report { report: RateReport },
    Sleep,
}

/// What came of the last action.
#[derive(Debug)]
pub enum Event {
    /// The datagram that was taken, and the monotonic clock.
    Servo { datagram: Option<Vec<u8>>, now_ns: u64 },
    /// The local clock and the latest GPS reading.
    Clock { local_now_us: i64, gps: GpsCache },
    TelemetrySent,
    Imu { imu: ImuCache },
    Gps { gps: GpsCache },
    Attitude { attitude: AttitudeCache },
    Baro { baro: BaroCache },
    /// The magnetic field in milliGauss (`f32`).
    MagField { mag_mgauss: [u32; 3] },
    /// The pressure in Pa (`f32`).
    Pressure { pressure_pa: u32 },
    /// A sensor packet was sent; the monotonic clock before and after.
    Sent { started_ns: u64, finished_ns: u64 },
    Timer { now_ns: u64 },
    Reported { now_ns: u64 },
    Slept,
}

/// The state of the main loop.
#[derive(Debug, Clone, Copy)]
pub struct Bridge {
    pub phase: Phase,
    /// Number of servo channels that are motors.
    pub num_motors: usize,
    /// ArduPilot has sent servo output.
    pub saw_ap_servo: bool,
    pub last_imu_seq: u64,
    pub last_gps_seq_sent: u64,
    pub last_mag_seq_sent: u64,
    pub last_baro_seq_sent: u64,
    pub last_baro_fallback_gps_seq_sent: u64,
    /// The GPS reading of this iteration.
    pub gps: GpsCache,
    /// Monotonic clock at the last rate report.
    pub rate_timer_ns: u64,
    pub counters: RateCounters,
    /// Monotonic clock at the last IMU, compass or barometer packet, until it
    /// is answered by servo output.
    pub last_sensor_send_ns: Option<u64>,
    /// Something was done in this iteration.
    pub did_work: bool,
}

/// A reading with this number is new to a reader that last took `last`.
pub open spec fn fresh(seq: u64, last: u64) -> bool {
    seq > 0 && seq != last
}

/// The number of readings between number `last` and number `seq`.
pub open spec fn gap(seq: u64, last: u64) -> int {
    if seq > last {
        seq - last - 1
    } else {
        0
    }
}

/// `a + b`, no larger than the largest `u64`.
pub open spec fn saturating_sum(a: int, b: int) -> u64 {
    if a + b > u64::MAX {
        u64::MAX
    } else {
        (a + b) as u64
    }
}

/// The packet for an IMU reading.
pub open spec fn imu_packet(imu: ImuCache) -> AlephImuPacket {
    AlephImuPacket { gyro: imu.gyro, accel_body: imu.accel }
}

/// The packet for a GPS reading.
pub open spec fn gps_packet(gps: GpsCache) -> AlephGpsPacket {
    AlephGpsPacket {
        lat: gps.lat,
        lon: gps.lon,
        alt_msl: gps.alt_msl,
        vel_ned: gps.vel_ned,
        h_acc: gps.h_acc,
        v_acc: gps.v_acc,
        s_acc: gps.s_acc,
        ground_speed: gps.ground_speed,
        fix_type: gps.fix_type,
        satellites: gps.satellites,
        itow: gps.itow,
        unix_epoch_ms: gps.unix_epoch_ms,
    }
}

/// The command of channel `i` where the first `n` channels are motors: its
/// normalized value as an `f32` bit pattern, and zero for any other channel.
pub open spec fn motor_command(servo: ServoOutput, n: usize, i: int) -> u32 {
    if i < n {
        thousandths_f32(normalized(servo.pwm[i])) as u32
    } else {
        0
    }
}

/// The telemetry for servo output whose first `n` channels are motors.
pub open spec fn motor_telemetry(servo: ServoOutput, n: usize, time: i64) -> MotorTelemetry {
    MotorTelemetry {
        time,
        motor_command: [
            motor_command(servo, n, 0),
            motor_command(servo, n, 1),
            motor_command(servo, n, 2),
            motor_command(servo, n, 3),
        ],
        motor_pwm: [servo.pwm[0], servo.pwm[1], servo.pwm[2], servo.pwm[3]],
    }
}

impl RateCounters {
    /// All counters at zero.
    pub open spec fn zero() -> RateCounters {
        RateCounters {
            imu_sent: 0,
            gps_sent: 0,
            mag_sent: 0,
            baro_sent: 0,
            servo_recv: 0,
            imu_skipped: 0,
            loop_iters: 0,
            bin_ser_total_us: 0,
            bin_ser_count: 0,
            roundtrip_total_us: 0,
            roundtrip_count: 0,
        }
    }

    /// Sensor packets sent, of all kinds.
    pub open spec fn bin_total(self) -> int {
        self.imu_sent + self.gps_sent + self.mag_sent + self.baro_sent
    }

    /// The time of one more sensor packet added.
    pub open spec fn with_send_time(self, us: u64) -> RateCounters {
        RateCounters {
            bin_ser_total_us: saturating_sum(self.bin_ser_total_us as int, us as int),
            bin_ser_count: saturating_sum(self.bin_ser_count as int, 1),
            ..self
        }
    }

    /// The time of one more roundtrip added.
    pub open spec fn with_roundtrip(self, us: u64) -> RateCounters {
        RateCounters {
            roundtrip_total_us: saturating_sum(self.roundtrip_total_us as int, us as int),
            roundtrip_count: saturating_sum(self.roundtrip_count as int, 1),
            ..self
        }
    }

    /// All counters at zero.
    pub fn new() -> (c: Self)
        ensures
            c == RateCounters::zero(),
    {
        RateCounters {
            imu_sent: 0,
            gps_sent: 0,
            mag_sent: 0,
            baro_sent: 0,
            servo_recv: 0,
            imu_skipped: 0,
            loop_iters: 0,
            bin_ser_total_us: 0,
            bin_ser_count: 0,
            roundtrip_total_us: 0,
            roundtrip_count: 0,
        }
    }
}

/// The servo output in a datagram, if there is one and it is well-formed.
pub open spec fn servo_in(datagram: Option<Vec<u8>>) -> Option<ServoOutput> {
    match datagram {
        Some(data) => ServoOutput::parse(data@),
        None => None,
    }
}

impl Bridge {
    /// The stage of the iteration that the machine is in.
    pub open spec fn stage(self) -> int {
        match self.phase {
            Phase::Servo => 0,
            Phase::Clock { .. } | Phase::Telemetry => 1,
            Phase::Imu | Phase::SendImu => 2,
            Phase::Gps | Phase::SendGps => 3,
            Phase::Attitude | Phase::MagField | Phase::SendMag => 4,
            Phase::Baro | Phase::Pressure | Phase::SendBaro => 5,
            Phase::Timer | Phase::Report | Phase::Sleep => 6,
        }
    }

    /// One while the given stage of this iteration is not over, then zero.
    pub open spec fn outstanding(self, stage: int) -> int {
        if self.stage() <= stage {
            1
        } else {
            0
        }
    }

    /// What holds in every state: nothing was counted more often than there
    /// were iterations, every sensor packet was timed, and no more roundtrips
    /// were timed than there was servo output.
    pub open spec fn wf(self) -> bool {
        let c = self.counters;
        &&& c.servo_recv + self.outstanding(0) <= c.loop_iters
        &&& c.imu_sent + self.outstanding(2) <= c.loop_iters
        &&& c.gps_sent + self.outstanding(3) <= c.loop_iters
        &&& c.mag_sent + self.outstanding(4) <= c.loop_iters
        &&& c.baro_sent + self.outstanding(5) <= c.loop_iters
        &&& c.bin_ser_count == saturating_sum(c.bin_total(), 0)
        &&& c.roundtrip_count <= c.servo_recv
        &&& self.phase is Sleep ==> !self.did_work
        &&& self.phase matches Phase::Clock { servo } ==> self.num_motors <= NUM_SERVO_CHANNELS
    }

    /// The machine is waiting for an event of this kind.
    pub open spec fn expects(self, event: Event) -> bool {
        match event {
            Event::Servo { .. } => self.phase is Servo,
            Event::Clock { .. } => self.phase is Clock,
            Event::TelemetrySent => self.phase is Telemetry,
            Event::Imu { .. } => self.phase is Imu,
            Event::Gps { .. } => self.phase is Gps,
            Event::Attitude { .. } => self.phase is Attitude,
            Event::Baro { .. } => self.phase is Baro,
            Event::MagField { .. } => self.phase is MagField,
            Event::Pressure { .. } => self.phase is Pressure,
            Event::Sent { .. } => self.phase is SendImu || self.phase is SendGps
                || self.phase is SendMag || self.phase is SendBaro,
            Event::Timer { .. } => self.phase is Timer,
            Event::Reported { .. } => self.phase is Report,
            Event::Slept => self.phase is Sleep,
        }
    }

    /// The rate report is due at this time.
    pub open spec fn report_due(self, now_ns: u64) -> bool {
        now_ns - self.rate_timer_ns >= REPORT_INTERVAL_NS
    }

    /// No counter overflows over `event`, and no more motors are configured
    /// than there are servo channels.
    pub open spec fn in_range(self, event: Event) -> bool {
        match event {
            Event::Servo { datagram, .. } => servo_in(datagram) is Some ==> self.num_motors
                <= NUM_SERVO_CHANNELS,
            Event::Imu { imu } => fresh(imu.seq, self.last_imu_seq) ==> self.counters.imu_skipped
                + gap(imu.seq, self.last_imu_seq) <= u64::MAX,
            Event::Timer { now_ns } => if self.report_due(now_ns) {
                self.counters.bin_total() <= u64::MAX
            } else {
                self.did_work ==> self.counters.loop_iters < u64::MAX
            },
            Event::Slept => self.counters.loop_iters < u64::MAX,
            _ => true,
        }
    }

    /// The machine can take `event`.
    pub open spec fn accepts(self, event: Event) -> bool {
        self.expects(event) && self.in_range(event)
    }

    /// The start of the next iteration.
    pub open spec fn begun(self) -> (Bridge, Action) {
        (
            Bridge {
                phase: Phase::Servo,
                did_work: false,
                counters: RateCounters {
                    loop_iters: (self.counters.loop_iters + 1) as u64,
                    ..self.counters
                },
                ..self
            },
            Action::PollServo,
        )
    }

    /// The end of an iteration.
    pub open spec fn ended(self) -> (Bridge, Action) {
        if self.did_work {
            self.begun()
        } else {
            (Bridge { phase: Phase::Sleep, ..self }, Action::Sleep)
        }
    }

    /// After polling the servo socket.
    pub open spec fn after_servo(self, servo: Option<ServoOutput>, now_ns: u64) -> (
        Bridge,
        Action,
    ) {
        match servo {
            None => (Bridge { phase: Phase::Imu, ..self }, Action::ReadImu),
            Some(servo) => {
                let received = RateCounters {
                    servo_recv: (self.counters.servo_recv + 1) as u64,
                    ..self.counters
                };
                (
                    Bridge {
                        phase: Phase::Clock { servo },
                        saw_ap_servo: true,
                        counters: match self.last_sensor_send_ns {
                            Some(sent_ns) => received.with_roundtrip(elapsed_us(sent_ns, now_ns)),
                            None => received,
                        },
                        last_sensor_send_ns: None,
                        ..self
                    },
                    Action::DriveMotors { servo, first_contact: !self.saw_ap_servo },
                )
            },
        }
    }

    /// After the motors were driven.
    pub open spec fn after_clock(self, local_now_us: i64, gps: GpsCache) -> (Bridge, Action) {
        let time = telemetry_time(gps.epoch_us, gps.local_us, local_now_us);
        (
            Bridge { phase: Phase::Telemetry, ..self },
            Action::SendTelemetry {
                telemetry: motor_telemetry(self.phase->servo, self.num_motors, time),
            },
        )
    }

    /// After reading the IMU.
    pub open spec fn after_imu(self, imu: ImuCache) -> (Bridge, Action) {
        if fresh(imu.seq, self.last_imu_seq) {
            (
                Bridge {
                    phase: Phase::SendImu,
                    last_imu_seq: imu.seq,
                    counters: RateCounters {
                        imu_skipped: (self.counters.imu_skipped + gap(
                            imu.seq,
                            self.last_imu_seq,
                        )) as u64,
                        ..self.counters
                    },
                    ..self
                },
                Action::Send { packet: SensorPacket::Imu(imu_packet(imu)) },
            )
        } else {
            (Bridge { phase: Phase::Gps, ..self }, Action::ReadGps)
        }
    }

    /// After reading the GPS.
    pub open spec fn after_gps(self, gps: GpsCache) -> (Bridge, Action) {
        if fresh(gps.seq, self.last_gps_seq_sent) {
            (
                Bridge { phase: Phase::SendGps, last_gps_seq_sent: gps.seq, gps, ..self },
                Action::Send { packet: SensorPacket::Gps(gps_packet(gps)) },
            )
        } else {
            (Bridge { phase: Phase::Attitude, gps, ..self }, Action::ReadAttitude)
        }
    }

    /// After reading the attitude.
    pub open spec fn after_attitude(self, att: AttitudeCache) -> (Bridge, Action) {
        if fresh(att.seq, self.last_mag_seq_sent) {
            (
                Bridge { phase: Phase::MagField, last_mag_seq_sent: att.seq, ..self },
                Action::SynthesizeMag { roll: att.roll, pitch: att.pitch, yaw: att.yaw },
            )
        } else {
            (Bridge { phase: Phase::Baro, ..self }, Action::ReadBaro)
        }
    }

    /// The pressure has to be estimated: the barometer has never delivered
    /// anything, and the GPS reading that was sent last has not been used for
    /// an estimate yet.
    pub open spec fn needs_fallback(self, baro: BaroCache) -> bool {
        &&& baro.seq == 0
        &&& self.gps.seq > 0
        &&& self.gps.seq == self.last_gps_seq_sent
        &&& self.gps.seq != self.last_baro_fallback_gps_seq_sent
    }

    /// After reading the barometer.
    pub open spec fn after_baro(self, baro: BaroCache) -> (Bridge, Action) {
        if fresh(baro.seq, self.last_baro_seq_sent) {
            (
                Bridge { phase: Phase::SendBaro, last_baro_seq_sent: baro.seq, ..self },
                Action::Send {
                    packet: SensorPacket::Baro(
                        AlephBaroPacket {
                            pressure_pa: baro.pressure_pa,
                            temperature_c: baro.temperature_c,
                        },
                    ),
                },
            )
        } else if self.needs_fallback(baro) {
            (
                Bridge {
                    phase: Phase::Pressure,
                    last_baro_fallback_gps_seq_sent: self.gps.seq,
                    ..self
                },
                Action::EstimatePressure { alt_msl: self.gps.alt_msl },
            )
        } else {
            (Bridge { phase: Phase::Timer, ..self }, Action::ReadTimer)
        }
    }

    /// After a sensor packet was sent. GPS packets are not waited on for a
    /// roundtrip.
    pub open spec fn after_sent(self, started_ns: u64, finished_ns: u64) -> (Bridge, Action) {
        let c = self.counters.with_send_time(elapsed_us(started_ns, finished_ns));
        let timed = Bridge { did_work: true, last_sensor_send_ns: Some(started_ns), ..self };
        match self.phase {
            Phase::SendImu => (
                Bridge {
                    phase: Phase::Gps,
                    counters: RateCounters { imu_sent: (c.imu_sent + 1) as u64, ..c },
                    ..timed
                },
                Action::ReadGps,
            ),
            Phase::SendGps => (
                Bridge {
                    phase: Phase::Attitude,
                    counters: RateCounters { gps_sent: (c.gps_sent + 1) as u64, ..c },
                    last_sensor_send_ns: self.last_sensor_send_ns,
                    ..timed
                },
                Action::ReadAttitude,
            ),
            Phase::SendMag => (
                Bridge {
                    phase: Phase::Baro,
                    counters: RateCounters { mag_sent: (c.mag_sent + 1) as u64, ..c },
                    ..timed
                },
                Action::ReadBaro,
            ),
            _ => (
                Bridge {
                    phase: Phase::Timer,
                    counters: RateCounters { baro_sent: (c.baro_sent + 1) as u64, ..c },
                    ..timed
                },
                Action::ReadTimer,
            ),
        }
    }

    /// The rate report at this time.
    pub open spec fn report(self, now_ns: u64) -> RateReport {
        let c = self.counters;
        RateReport {
            elapsed_ns: (now_ns - self.rate_timer_ns) as u64,
            bin_total: c.bin_total() as u64,
            counters: c,
            bin_ser_divisor: if c.bin_ser_count == 0 {
                1
            } else {
                c.bin_ser_count
            },
            roundtrip_divisor: if c.roundtrip_count == 0 {
                1
            } else {
                c.roundtrip_count
            },
        }
    }

    /// After reading the clock for the rate report.
    pub open spec fn after_timer(self, now_ns: u64) -> (Bridge, Action) {
        if self.report_due(now_ns) {
            (Bridge { phase: Phase::Report, ..self }, Action::Report { report: self.report(now_ns) })
        } else {
            self.ended()
        }
    }

    /// After the rate report was made: the counters start over.
    pub open spec fn after_report(self, now_ns: u64) -> (Bridge, Action) {
        Bridge { rate_timer_ns: now_ns, counters: RateCounters::zero(), ..self }.ended()
    }

    /// The state after `event`, and the next action.
    pub open spec fn next(self, event: Event) -> (Bridge, Action) {
        match event {
            Event::Servo { datagram, now_ns } => self.after_servo(servo_in(datagram), now_ns),
            Event::Clock { local_now_us, gps } => self.after_clock(local_now_us, gps),
            Event::TelemetrySent => (
                Bridge { phase: Phase::Imu, did_work: true, ..self },
                Action::ReadImu,
            ),
            Event::Imu { imu } => self.after_imu(imu),
            Event::Gps { gps } => self.after_gps(gps),
            Event::Attitude { attitude } => self.after_attitude(attitude),
            Event::Baro { baro } => self.after_baro(baro),
            Event::MagField { mag_mgauss } => (
                Bridge { phase: Phase::SendMag, ..self },
                Action::Send { packet: SensorPacket::Mag(AlephMagPacket { mag_mgauss }) },
            ),
            Event::Pressure { pressure_pa } => (
                Bridge { phase: Phase::SendBaro, ..self },
                Action::Send {
                    packet: SensorPacket::Baro(
                        AlephBaroPacket { pressure_pa, temperature_c: FALLBACK_TEMPERATURE_C },
                    ),
                },
            ),
            Event::Sent { started_ns, finished_ns } => self.after_sent(started_ns, finished_ns),
            Event::Timer { now_ns } => self.after_timer(now_ns),
            Event::Reported { now_ns } => self.after_report(now_ns),
            Event::Slept => self.begun(),
        }
    }
}

/// The command of channel `i` where the first `n` channels are motors.
fn channel_command(servo: &ServoOutput, n: usize, i: usize) -> (bits: u32)
    requires
        i < NUM_SERVO_CHANNELS,
    ensures
        bits == motor_command(*servo, n, i as int),
{
    if i < n {
        thousandths_to_f32_bits(servo.motor_normalized(i))
    } else {
        0
    }
}

/// The telemetry for servo output whose first `n` channels are motors.
pub fn telemetry_for(servo: &ServoOutput, n: usize, time: i64) -> (t: MotorTelemetry)
    ensures
        t == motor_telemetry(*servo, n, time),
{
    let command: [u32; 4] = [
        channel_command(servo, n, 0),
        channel_command(servo, n, 1),
        channel_command(servo, n, 2),
        channel_command(servo, n, 3),
    ];
    let pwm: [u16; 4] = [servo.pwm[0], servo.pwm[1], servo.pwm[2], servo.pwm[3]];
    let t = MotorTelemetry::new(pwm, command, time);
    proof {
        let m = motor_telemetry(*servo, n, time);
        assert(t.motor_command =~= m.motor_command);
        assert(t.motor_pwm =~= m.motor_pwm);
    }
    t
}

impl Bridge {
    /// The machine at the start of its first iteration. The first action is
    /// `PollServo`.
    pub fn new(num_motors: usize, now_ns: u64) -> (bridge: Self)
        ensures
            bridge.wf(),
            bridge.phase is Servo,
            bridge.num_motors == num_motors,
            !bridge.saw_ap_servo,
            bridge.last_imu_seq == 0,
            bridge.last_gps_seq_sent == 0,
            bridge.last_mag_seq_sent == 0,
            bridge.last_baro_seq_sent == 0,
            bridge.last_baro_fallback_gps_seq_sent == 0,
            bridge.gps.seq == 0,
            bridge.rate_timer_ns == now_ns,
            bridge.counters == (RateCounters { loop_iters: 1, ..RateCounters::zero() }),
            bridge.last_sensor_send_ns is None,
            !bridge.did_work,
    {
        let mut counters = RateCounters::new();
        counters.loop_iters = 1;
        Bridge {
            phase: Phase::Servo,
            num_motors,
            saw_ap_servo: false,
            last_imu_seq: 0,
            last_gps_seq_sent: 0,
            last_mag_seq_sent: 0,
            last_baro_seq_sent: 0,
            last_baro_fallback_gps_seq_sent: 0,
            gps: GpsCache::default(),
            rate_timer_ns: now_ns,
            counters,
            last_sensor_send_ns: None,
            did_work: false,
        }
    }

    /// Whether the machine can take `event`. It cannot where a different event
    /// is waited for, where a counter would overflow, and where servo output
    /// arrives while more motors are configured than there are channels.
    pub fn can_take(&self, event: &Event) -> (r: bool)
        ensures
            r == self.accepts(*event),
    {
        match event {
            Event::Servo { datagram, .. } => {
                let servo = match datagram {
                    Some(data) => ServoOutput::from_bytes(data.as_slice()),
                    None => None,
                };
                matches!(self.phase, Phase::Servo) && (servo.is_none() || self.num_motors
                    <= NUM_SERVO_CHANNELS)
            },
            Event::Clock { .. } => matches!(self.phase, Phase::Clock { .. }),
            Event::TelemetrySent => matches!(self.phase, Phase::Telemetry),
            Event::Imu { imu } => {
                let fits: bool = if imu.seq > 0 && imu.seq != self.last_imu_seq {
                    let skipped: u64 = imu.seq.saturating_sub(self.last_imu_seq).saturating_sub(1);
                    skipped <= u64::MAX - self.counters.imu_skipped
                } else {
                    true
                };
                matches!(self.phase, Phase::Imu) && fits
            },
            Event::Gps { .. } => matches!(self.phase, Phase::Gps),
            Event::Attitude { .. } => matches!(self.phase, Phase::Attitude),
            Event::Baro { .. } => matches!(self.phase, Phase::Baro),
            Event::MagField { .. } => matches!(self.phase, Phase::MagField),
            Event::Pressure { .. } => matches!(self.phase, Phase::Pressure),
            Event::Sent { .. } => matches!(
                self.phase,
                Phase::SendImu | Phase::SendGps | Phase::SendMag | Phase::SendBaro
            ),
            Event::Timer { now_ns } => {
                let c = &self.counters;
                let fits: bool = if now_ns.saturating_sub(self.rate_timer_ns) >= REPORT_INTERVAL_NS {
                    c.imu_sent as u128 + c.gps_sent as u128 + c.mag_sent as u128
                        + c.baro_sent as u128 <= u64::MAX as u128
                } else {
                    !self.did_work || c.loop_iters < u64::MAX
                };
                matches!(self.phase, Phase::Timer) && fits
            },
            Event::Reported { .. } => matches!(self.phase, Phase::Report),
            Event::Slept => matches!(self.phase, Phase::Sleep) && self.counters.loop_iters
                < u64::MAX,
        }
    }

    /// Takes in what came of the last action, and returns the next one.
    pub fn step(&mut self, event: Event) -> (action: Action)
        requires
            old(self).wf(),
            old(self).accepts(event),
        ensures
            final(self).wf(),
            (*final(self), action) == old(self).next(event),
    {
        match event {
            Event::Servo { datagram, now_ns } => {
                let servo = match &datagram {
                    Some(data) => ServoOutput::from_bytes(data.as_slice()),
                    None => None,
                };
                self.take_servo(servo, now_ns)
            },
            Event::Clock { local_now_us, gps } => self.take_clock(local_now_us, &gps),
            Event::TelemetrySent => {
                self.did_work = true;
                self.phase = Phase::Imu;
                Action::ReadImu
            },
            Event::Imu { imu } => self.take_imu(&imu),
            Event::Gps { gps } => self.take_gps(gps),
            Event::Attitude { attitude } => self.take_attitude(&attitude),
            Event::Baro { baro } => self.take_baro(&baro),
            Event::MagField { mag_mgauss } => {
                self.phase = Phase::SendMag;
                Action::Send { packet: SensorPacket::Mag(AlephMagPacket { mag_mgauss }) }
            },
            Event::Pressure { pressure_pa } => {
                self.phase = Phase::SendBaro;
                Action::Send {
                    packet: SensorPacket::Baro(
                        AlephBaroPacket { pressure_pa, temperature_c: FALLBACK_TEMPERATURE_C },
                    ),
                }
            },
            Event::Sent { started_ns, finished_ns } => self.take_sent(started_ns, finished_ns),
            Event::Timer { now_ns } => self.take_timer(now_ns),
            Event::Reported { now_ns } => {
                self.rate_timer_ns = now_ns;
                self.counters = RateCounters::new();
                self.end_iteration()
            },
            Event::Slept => self.begin_iteration(),
        }
    }

    fn begin_iteration(&mut self) -> (action: Action)
        requires
            old(self).counters.loop_iters < u64::MAX,
        ensures
            (*final(self), action) == old(self).begun(),
    {
        self.counters.loop_iters = self.counters.loop_iters + 1;
        self.did_work = false;
        self.phase = Phase::Servo;
        Action::PollServo
    }

    fn end_iteration(&mut self) -> (action: Action)
        requires
            old(self).did_work ==> old(self).counters.loop_iters < u64::MAX,
        ensures
            (*final(self), action) == old(self).ended(),
    {
        if self.did_work {
            self.begin_iteration()
        } else {
            self.phase = Phase::Sleep;
            Action::Sleep
        }
    }

    fn take_servo(&mut self, servo: Option<ServoOutput>, now_ns: u64) -> (action: Action)
        requires
            old(self).counters.servo_recv < u64::MAX,
        ensures
            (*final(self), action) == old(self).after_servo(servo, now_ns),
    {
        match servo {
            None => {
                self.phase = Phase::Imu;
                Action::ReadImu
            },
            Some(servo) => {
                let first_contact: bool = !self.saw_ap_servo;
                self.saw_ap_servo = true;
                self.counters.servo_recv = self.counters.servo_recv + 1;
                if let Some(sent_ns) = self.last_sensor_send_ns {
                    let rtt_us: u64 = elapsed_micros(sent_ns, now_ns);
                    self.counters.roundtrip_total_us =
                    self.counters.roundtrip_total_us.saturating_add(rtt_us);
                    self.counters.roundtrip_count = self.counters.roundtrip_count.saturating_add(1);
                    self.last_sensor_send_ns = None;
                }
                self.phase = Phase::Clock { servo };
                Action::DriveMotors { servo, first_contact }
            },
        }
    }

    fn take_clock(&mut self, local_now_us: i64, gps: &GpsCache) -> (action: Action)
        requires
            old(self).phase is Clock,
        ensures
            (*final(self), action) == old(self).after_clock(local_now_us, *gps),
    {
        match self.phase {
            Phase::Clock { servo } => {
                let time: i64 = telemetry_time_us(gps.epoch_us, gps.local_us, local_now_us);
                let telemetry = telemetry_for(&servo, self.num_motors, time);
                self.phase = Phase::Telemetry;
                Action::SendTelemetry { telemetry }
            },
            _ => {
                // The phase is `Clock`.
                assert(false);
                Action::PollServo
            },
        }
    }

    fn take_imu(&mut self, imu: &ImuCache) -> (action: Action)
        requires
            fresh(imu.seq, old(self).last_imu_seq) ==> old(self).counters.imu_skipped + gap(
                imu.seq,
                old(self).last_imu_seq,
            ) <= u64::MAX,
        ensures
            (*final(self), action) == old(self).after_imu(*imu),
    {
        if imu.seq > 0 && imu.seq != self.last_imu_seq {
            let skipped: u64 = imu.seq.saturating_sub(self.last_imu_seq).saturating_sub(1);
            self.counters.imu_skipped = self.counters.imu_skipped + skipped;
            self.last_imu_seq = imu.seq;
            self.phase = Phase::SendImu;
            Action::Send {
                packet: SensorPacket::Imu(
                    AlephImuPacket { gyro: imu.gyro, accel_body: imu.accel },
                ),
            }
        } else {
            self.phase = Phase::Gps;
            Action::ReadGps
        }
    }

    fn take_gps(&mut self, gps: GpsCache) -> (action: Action)
        ensures
            (*final(self), action) == old(self).after_gps(gps),
    {
        self.gps = gps;
        if gps.seq > 0 && gps.seq != self.last_gps_seq_sent {
            self.last_gps_seq_sent = gps.seq;
            self.phase = Phase::SendGps;
            Action::Send {
                packet: SensorPacket::Gps(
                    AlephGpsPacket {
                        lat: gps.lat,
                        lon: gps.lon,
                        alt_msl: gps.alt_msl,
                        vel_ned: gps.vel_ned,
                        h_acc: gps.h_acc,
                        v_acc: gps.v_acc,
                        s_acc: gps.s_acc,
                        ground_speed: gps.ground_speed,
                        fix_type: gps.fix_type,
                        satellites: gps.satellites,
                        itow: gps.itow,
                        unix_epoch_ms: gps.unix_epoch_ms,
                    },
                ),
            }
        } else {
            self.phase = Phase::Attitude;
            Action::ReadAttitude
        }
    }

    fn take_attitude(&mut self, att: &AttitudeCache) -> (action: Action)
        ensures
            (*final(self), action) == old(self).after_attitude(*att),
    {
        if att.seq > 0 && att.seq != self.last_mag_seq_sent {
            self.last_mag_seq_sent = att.seq;
            self.phase = Phase::MagField;
            Action::SynthesizeMag { roll: att.roll, pitch: att.pitch, yaw: att.yaw }
        } else {
            self.phase = Phase::Baro;
            Action::ReadBaro
        }
    }

    fn take_baro(&mut self, baro: &BaroCache) -> (action: Action)
        ensures
            (*final(self), action) == old(self).after_baro(*baro),
    {
        if baro.seq > 0 && baro.seq != self.last_baro_seq_sent {
            self.last_baro_seq_sent = baro.seq;
            self.phase = Phase::SendBaro;
            Action::Send {
                packet: SensorPacket::Baro(
                    AlephBaroPacket {
                        pressure_pa: baro.pressure_pa,
                        temperature_c: baro.temperature_c,
                    },
                ),
            }
        } else if baro.seq == 0 && self.gps.seq > 0 && self.gps.seq == self.last_gps_seq_sent
            && self.gps.seq != self.last_baro_fallback_gps_seq_sent {
            // Fallback only while aleph baro stream has not started.
            self.last_baro_fallback_gps_seq_sent = self.gps.seq;
            self.phase = Phase::Pressure;
            Action::EstimatePressure { alt_msl: self.gps.alt_msl }
        } else {
            self.phase = Phase::Timer;
            Action::ReadTimer
        }
    }

    fn take_sent(&mut self, started_ns: u64, finished_ns: u64) -> (action: Action)
        requires
            old(self).expects(Event::Sent { started_ns, finished_ns }),
            old(self).phase is SendImu ==> old(self).counters.imu_sent < u64::MAX,
            old(self).phase is SendGps ==> old(self).counters.gps_sent < u64::MAX,
            old(self).phase is SendMag ==> old(self).counters.mag_sent < u64::MAX,
            old(self).phase is SendBaro ==> old(self).counters.baro_sent < u64::MAX,
        ensures
            (*final(self), action) == old(self).after_sent(started_ns, finished_ns),
    {
        let us: u64 = elapsed_micros(started_ns, finished_ns);
        self.counters.bin_ser_total_us = self.counters.bin_ser_total_us.saturating_add(us);
        self.counters.bin_ser_count = self.counters.bin_ser_count.saturating_add(1);
        self.did_work = true;
        match self.phase {
            Phase::SendImu => {
                self.last_sensor_send_ns = Some(started_ns);
                self.counters.imu_sent = self.counters.imu_sent + 1;
                self.phase = Phase::Gps;
                Action::ReadGps
            },
            Phase::SendGps => {
                self.counters.gps_sent = self.counters.gps_sent + 1;
                self.phase = Phase::Attitude;
                Action::ReadAttitude
            },
            Phase::SendMag => {
                self.last_sensor_send_ns = Some(started_ns);
                self.counters.mag_sent = self.counters.mag_sent + 1;
                self.phase = Phase::Baro;
                Action::ReadBaro
            },
            _ => {
                self.last_sensor_send_ns = Some(started_ns);
                self.counters.baro_sent = self.counters.baro_sent + 1;
                self.phase = Phase::Timer;
                Action::ReadTimer
            },
        }
    }

    fn take_timer(&mut self, now_ns: u64) -> (action: Action)
        requires
            old(self).in_range(Event::Timer { now_ns }),
        ensures
            (*final(self), action) == old(self).after_timer(now_ns),
    {
        let elapsed_ns: u64 = now_ns.saturating_sub(self.rate_timer_ns);
        if elapsed_ns >= REPORT_INTERVAL_NS {
            let c = self.counters;
            let report = RateReport {
                elapsed_ns,
                bin_total: c.imu_sent + c.gps_sent + c.mag_sent + c.baro_sent,
                counters: c,
                bin_ser_divisor: if c.bin_ser_count == 0 {
                    1
                } else {
                    c.bin_ser_count
                },
                roundtrip_divisor: if c.roundtrip_count == 0 {
                    1
                } else {
                    c.roundtrip_count
                },
            };
            self.phase = Phase::Report;
            Action::Report { report }
        } else {
            self.end_iteration()
        }
    }
}

/// The place of a phase in an iteration.
pub open spec fn rank(phase: Phase) -> int {
    match phase {
        Phase::Servo => 0,
        Phase::Clock { .. } => 1,
        Phase::Telemetry => 2,
        Phase::Imu => 3,
        Phase::SendImu => 4,
        Phase::Gps => 5,
        Phase::SendGps => 6,
        Phase::Attitude => 7,
        Phase::MagField => 8,
        Phase::SendMag => 9,
        Phase::Baro => 10,
        Phase::Pressure => 11,
        Phase::SendBaro => 12,
        Phase::Timer => 13,
        Phase::Report => 14,
        Phase::Sleep => 15,
    }
}

/// Iterations come to an end: every event takes the machine forward in the
/// iteration, or, from its last stage, to the start of the next one.
pub proof fn every_step_makes_progress(b: Bridge, event: Event)
    requires
        b.accepts(event),
    ensures
        ({
            let after = b.next(event).0;
            ||| rank(after.phase) > rank(b.phase)
            ||| after.phase is Servo && b.stage() == 6 && after.counters.loop_iters
                == b.counters.loop_iters + 1
            ||| after.phase is Servo && b.phase is Report && after.counters.loop_iters == 1
        }),
{
}

/// Every event that the machine can take leaves it well-formed.
pub proof fn every_step_keeps_the_invariant(b: Bridge, event: Event)
    requires
        b.wf(),
        b.accepts(event),
    ensures
        b.next(event).0.wf(),
{
}

/// The state after a run of events.
pub open spec fn run(b: Bridge, events: Seq<Event>) -> Bridge
    decreases events.len(),
{
    if events.len() == 0 {
        b
    } else {
        run(b, events.drop_last()).next(events.last()).0
    }
}

/// The machine can take the events one after the other.
pub open spec fn accepts_all(b: Bridge, events: Seq<Event>) -> bool {
    forall|i: int|
        0 <= i < events.len() ==> run(b, #[trigger] events.take(i)).accepts(events[i])
}

/// The run of one more event.
proof fn run_one_more(b: Bridge, events: Seq<Event>, i: int)
    requires
        0 <= i < events.len(),
        accepts_all(b, events),
    ensures
        run(b, events.take(i + 1)) == run(b, events.take(i)).next(events[i]).0,
        run(b, events.take(i)).accepts(events[i]),
{
    assert(events.take(i + 1).drop_last() =~= events.take(i));
}

/// Whatever happens, the machine stays well-formed, and neither the number of
/// motors nor the fact that ArduPilot was heard from is forgotten.
pub proof fn every_run_keeps_the_invariant(b: Bridge, events: Seq<Event>, i: int)
    requires
        b.wf(),
        accepts_all(b, events),
        0 <= i <= events.len(),
    ensures
        run(b, events.take(i)).wf(),
        run(b, events.take(i)).num_motors == b.num_motors,
        b.saw_ap_servo ==> run(b, events.take(i)).saw_ap_servo,
    decreases i,
{
    if i > 0 {
        every_run_keeps_the_invariant(b, events, i - 1);
        run_one_more(b, events, i - 1);
        every_step_keeps_the_invariant(run(b, events.take(i - 1)), events[i - 1]);
    } else {
        assert(events.take(0) =~= seq![]);
    }
}

/// Within an iteration the machine never goes back, so that each sensor is
/// looked at once, in the same order every time; no iteration takes more than
/// fifteen events before its last.
pub proof fn iterations_run_forward(b: Bridge, events: Seq<Event>, i: int, j: int)
    requires
        accepts_all(b, events),
        0 <= i <= j <= events.len(),
        forall|k: int| i < k <= j ==> !(run(b, #[trigger] events.take(k)).phase is Servo),
    ensures
        rank(run(b, events.take(j)).phase) >= rank(run(b, events.take(i)).phase) + (j - i),
        j - i <= 15,
    decreases j - i,
{
    if i < j {
        iterations_run_forward(b, events, i, j - 1);
        run_one_more(b, events, j - 1);
        every_step_makes_progress(run(b, events.take(j - 1)), events[j - 1]);
        assert(!(run(b, events.take(j)).phase is Servo));
    }
}

/// Only new readings are sent, and what was sent is remembered: a packet
/// carries a reading with a number that is not zero and not the one sent last,
/// and no other step changes which one was sent last.
pub proof fn only_new_readings_are_sent(b: Bridge, event: Event)
    requires
        b.accepts(event),
    ensures
        ({
            let (after, action) = b.next(event);
            &&& after.last_imu_seq != b.last_imu_seq ==> action is Send && action->packet is Imu
            &&& action matches Action::Send { packet: SensorPacket::Imu(p) } ==> {
                &&& event matches Event::Imu { imu } && fresh(imu.seq, b.last_imu_seq) && p
                    == imu_packet(imu) && after.last_imu_seq == imu.seq
            }
            &&& after.last_gps_seq_sent != b.last_gps_seq_sent ==> action is Send
                && action->packet is Gps
            &&& action matches Action::Send { packet: SensorPacket::Gps(p) } ==> {
                &&& event matches Event::Gps { gps } && fresh(gps.seq, b.last_gps_seq_sent) && p
                    == gps_packet(gps) && after.last_gps_seq_sent == gps.seq
            }
            &&& after.last_mag_seq_sent != b.last_mag_seq_sent ==> action is SynthesizeMag
            &&& action is SynthesizeMag ==> {
                &&& event matches Event::Attitude { attitude } && fresh(
                    attitude.seq,
                    b.last_mag_seq_sent,
                ) && after.last_mag_seq_sent == attitude.seq
            }
            &&& after.last_baro_seq_sent != b.last_baro_seq_sent ==> action is Send
                && action->packet is Baro
        }),
{
}

/// A reading that was sent is not sent again while no other one comes in: the
/// machine moves on to the next sensor without sending anything.
pub proof fn readings_are_not_repeated(
    b: Bridge,
    imu: ImuCache,
    gps: GpsCache,
    att: AttitudeCache,
    baro: BaroCache,
)
    ensures
        imu.seq == b.last_imu_seq ==> b.next(Event::Imu { imu }).1 is ReadGps,
        gps.seq == b.last_gps_seq_sent ==> b.next(Event::Gps { gps }).1 is ReadAttitude,
        att.seq == b.last_mag_seq_sent ==> b.next(Event::Attitude { attitude: att }).1 is ReadBaro,
        baro.seq == b.last_baro_seq_sent && baro.seq > 0 ==> b.next(
            Event::Baro { baro },
        ).1 is ReadTimer,
{
}

/// Every IMU reading is accounted for: as long as the numbers grow, the
/// packets sent and the readings skipped add up to the numbers passed.
pub proof fn imu_readings_are_accounted_for(
    b: Bridge,
    imu: ImuCache,
    started_ns: u64,
    finished_ns: u64,
)
    requires
        b.wf(),
        b.accepts(Event::Imu { imu }),
        imu.seq > b.last_imu_seq,
    ensures
        ({
            let sending = b.next(Event::Imu { imu }).0;
            let after = sending.next(Event::Sent { started_ns, finished_ns }).0;
            &&& sending.phase is SendImu
            &&& after.counters.imu_sent == b.counters.imu_sent + 1
            &&& after.counters.imu_sent + after.counters.imu_skipped == b.counters.imu_sent
                + b.counters.imu_skipped + (imu.seq - b.last_imu_seq)
        }),
{
}

/// The IMU readings sent or skipped since the last report, with the one that is
/// about to be sent.
pub open spec fn imu_accounted(b: Bridge) -> int {
    b.counters.imu_sent + b.counters.imu_skipped + if b.phase is SendImu {
        1int
    } else {
        0int
    }
}

/// Over one event that is not a report, the IMU readings sent and skipped grow
/// with the number of the last one.
proof fn imu_step_adds_up(b: Bridge, event: Event)
    requires
        b.wf(),
        b.accepts(event),
        !(event is Reported),
        b.last_imu_seq <= b.next(event).0.last_imu_seq,
    ensures
        imu_accounted(b.next(event).0) - imu_accounted(b) == b.next(event).0.last_imu_seq
            - b.last_imu_seq,
{
}

/// Over any run without a report in which the numbers never fall back, the
/// readings sent and skipped add up to the numbers passed.
#[verifier::spinoff_prover]
pub proof fn imu_readings_add_up(b: Bridge, events: Seq<Event>, i: int)
    requires
        b.wf(),
        accepts_all(b, events),
        0 <= i <= events.len(),
        forall|k: int| 0 <= k < i ==> !(#[trigger] events[k] is Reported),
        forall|k: int|
            0 <= k < i ==> run(b, #[trigger] events.take(k)).last_imu_seq <= run(
                b,
                events.take(k + 1),
            ).last_imu_seq,
    ensures
        imu_accounted(run(b, events.take(i))) - imu_accounted(b) == run(
            b,
            events.take(i),
        ).last_imu_seq - b.last_imu_seq,
    decreases i,
{
    if i > 0 {
        imu_readings_add_up(b, events, i - 1);
        every_run_keeps_the_invariant(b, events, i - 1);
        run_one_more(b, events, i - 1);
        assert(!(events[i - 1] is Reported));
        let before = run(b, events.take(i - 1));
        assert(before.last_imu_seq <= run(b, events.take((i - 1) + 1)).last_imu_seq);
        imu_step_adds_up(before, events[i - 1]);
    } else {
        assert(events.take(0) =~= seq![]);
    }
}

/// The pressure is only estimated while the barometer has never delivered
/// anything, from a GPS reading that was sent, and once for each; a reading of
/// the barometer that is new is always sent as it is.
pub proof fn fallback_is_a_last_resort(b: Bridge, event: Event)
    requires
        b.accepts(event),
    ensures
        ({
            let (after, action) = b.next(event);
            &&& action matches Action::EstimatePressure { alt_msl } ==> {
                &&& event matches Event::Baro { baro } && baro.seq == 0
                &&& b.gps.seq > 0 && b.gps.seq == b.last_gps_seq_sent
                &&& b.gps.seq != b.last_baro_fallback_gps_seq_sent
                &&& after.last_baro_fallback_gps_seq_sent == b.gps.seq
                &&& alt_msl == b.gps.alt_msl
            }
            &&& after.last_baro_fallback_gps_seq_sent != b.last_baro_fallback_gps_seq_sent
                ==> action is EstimatePressure
            &&& event matches Event::Baro { baro } ==> fresh(baro.seq, b.last_baro_seq_sent) ==> action
                == (Action::Send {
                packet: SensorPacket::Baro(
                    AlephBaroPacket {
                        pressure_pa: baro.pressure_pa,
                        temperature_c: baro.temperature_c,
                    },
                ),
            })
        }),
{
}

/// The machine sleeps only after an iteration without work: sending anything
/// counts as work, and only the start of an iteration forgets it.
pub proof fn sleep_follows_an_idle_iteration(b: Bridge, event: Event)
    requires
        b.accepts(event),
    ensures
        ({
            let (after, action) = b.next(event);
            &&& action is Sleep ==> !b.did_work
            &&& event is Sent || event is TelemetrySent ==> after.did_work
            &&& b.did_work && !after.did_work ==> after.phase is Servo
            &&& !b.did_work && after.did_work ==> event is Sent || event is TelemetrySent
        }),
{
}

/// A roundtrip is timed once for each packet that is waited on: only servo
/// output ends one, and it takes another IMU, compass or barometer packet to
/// start the next.
pub proof fn roundtrips_are_timed_once(b: Bridge, event: Event)
    requires
        b.wf(),
        b.accepts(event),
        b.counters.roundtrip_count < u64::MAX,
    ensures
        ({
            let after = b.next(event).0;
            &&& after.counters.roundtrip_count > b.counters.roundtrip_count <==> {
                &&& event matches Event::Servo { datagram, .. } && servo_in(datagram) is Some
                &&& b.last_sensor_send_ns is Some
            }
            &&& event matches Event::Servo { datagram, .. } ==> servo_in(datagram) is Some
                ==> after.last_sensor_send_ns is None
            &&& b.last_sensor_send_ns is None && after.last_sensor_send_ns is Some ==> event is Sent
                && !(b.phase is SendGps)
        }),
{
}

/// An iteration without servo output, new readings or a due report changes
/// nothing but the number of iterations and the GPS reading at hand.
pub proof fn quiet_iteration_changes_nothing(
    b: Bridge,
    imu: ImuCache,
    gps: GpsCache,
    att: AttitudeCache,
    baro: BaroCache,
    t0: u64,
    t1: u64,
)
    requires
        b.phase is Servo,
        !b.did_work,
        !fresh(imu.seq, b.last_imu_seq),
        !fresh(gps.seq, b.last_gps_seq_sent),
        !fresh(att.seq, b.last_mag_seq_sent),
        !fresh(baro.seq, b.last_baro_seq_sent),
        !(Bridge { gps, ..b }).needs_fallback(baro),
        !b.report_due(t1),
    ensures
        ({
            let b1 = b.next(Event::Servo { datagram: None, now_ns: t0 });
            let b2 = b1.0.next(Event::Imu { imu });
            let b3 = b2.0.next(Event::Gps { gps });
            let b4 = b3.0.next(Event::Attitude { attitude: att });
            let b5 = b4.0.next(Event::Baro { baro });
            let b6 = b5.0.next(Event::Timer { now_ns: t1 });
            let b7 = b6.0.next(Event::Slept);
            &&& b1.1 is ReadImu && b2.1 is ReadGps && b3.1 is ReadAttitude && b4.1 is ReadBaro
            &&& b5.1 is ReadTimer && b6.1 is Sleep && b7.1 is PollServo
            &&& b7.0 == Bridge { gps, ..b }.begun().0
        }),
{
}

/// Servo output that ArduPilot sends is what drives the motors and what the
/// telemetry shows.
pub proof fn servo_output_is_carried_out(
    b: Bridge,
    data: Vec<u8>,
    sent: ServoOutput,
    extra: Seq<u8>,
    now_ns: u64,
    local_now_us: i64,
    gps: GpsCache,
)
    requires
        b.phase is Servo,
        data@ == sent.wire() + extra,
    ensures
        ({
            let driven = b.next(Event::Servo { datagram: Some(data), now_ns });
            let shown = driven.0.next(Event::Clock { local_now_us, gps });
            &&& driven.1 == (Action::DriveMotors { servo: sent, first_contact: !b.saw_ap_servo })
            &&& shown.1 == (Action::SendTelemetry {
                telemetry: motor_telemetry(
                    sent,
                    b.num_motors,
                    telemetry_time(gps.epoch_us, gps.local_us, local_now_us),
                ),
            })
        }),
{
    servo_output_round_trip(sent, extra);
}

/// What the GPS receiver reports is what ArduPilot is sent: a reading that is
/// stored under a new number is forwarded with the fields it came with.
pub proof fn gps_reading_is_forwarded(
    b: Bridge,
    cache: GpsCache,
    input: M10QInput,
    seq: u64,
    local_now_us: i64,
)
    requires
        b.phase is Gps,
        fresh(seq, b.last_gps_seq_sent),
    ensures
        b.next(Event::Gps { gps: cache.stored(input, seq, local_now_us) }).1 == (Action::Send {
            packet: SensorPacket::Gps(
                AlephGpsPacket {
                    lat: input.lat,
                    lon: input.lon,
                    alt_msl: input.alt_msl,
                    vel_ned: input.vel_ned,
                    h_acc: input.h_acc,
                    v_acc: input.v_acc,
                    s_acc: input.s_acc,
                    ground_speed: input.ground_speed,
                    fix_type: input.fix_type,
                    satellites: input.satellites,
                    itow: input.itow,
                    unix_epoch_ms: input.unix_epoch_ms,
                },
            ),
        }),
{
}

/// Within one subscription each reading is new: the first one to a reader that
/// has taken none, and every other one to a reader that took the one before.
pub proof fn numbered_readings_are_new(seq: u64)
    requires
        0 < seq < u64::MAX,
    ensures
        fresh(1, 0),
        fresh((seq + 1) as u64, seq),
        gap((seq + 1) as u64, seq) == 0,
{
}

} // verus!
