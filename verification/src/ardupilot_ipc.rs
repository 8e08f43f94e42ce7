//! ArduPilot bridge binary interface.
//!
//! Protocol:
//!   - Bridge -> ArduPilot: binary sensor packets over UDP
//!   - ArduPilot -> Bridge: binary servo/motor output over UDP
//!
//! Every packet is little-endian. Floating-point fields are held as their
//! IEEE 754 bit patterns (`f32::to_bits`).
//!
//! Servo output format:
//!   u16 magic (18458)
//!   u16 frame_rate
//!   u32 frame_count
//!   u16[16] pwm_values (microseconds, 1000-2000)

use byteorder::{LittleEndian, ReadBytesExt};
use vstd::prelude::*;

use crate::bytes::{push_i32, push_i64, push_u16, push_u32, push_u32s};
#[allow(unused_imports)]
use crate::bytes::{
    append_injective, le16_all_at, le16_all_determined, le16_determined, le16_is_little_endian,
    le32_all_at, le32_all_determined, le32_determined, le32_is_little_endian, le64_determined,
    le64_is_little_endian, numbers_in_part,
};
#[allow(unused_imports)]
use crate::endian::{half_at, le16, le16_all, le32, le32_all, le64, long_at, word_at};

verus! {

broadcast use crate::endian::le16_len;

pub const ARDUPILOT_SERVO_MAGIC: u16 = 18458;

pub const DEFAULT_SENSOR_PORT: u16 = 9003;

pub const DEFAULT_SERVO_PORT: u16 = 9002;

pub const NUM_SERVO_CHANNELS: usize = 16;

/// Length in bytes of a servo output packet.
pub const SERVO_PACKET_SIZE: usize = 40;

pub const ALEPH_SENSOR_MAGIC: u16 = 0xAE01;

pub const ALEPH_PKT_IMU: u8 = 0x01;

pub const ALEPH_PKT_GPS: u8 = 0x02;

pub const ALEPH_PKT_MAG: u8 = 0x03;

pub const ALEPH_PKT_BARO: u8 = 0x04;

/// Pulse width (microseconds) of a stopped motor.
pub const PWM_STOP_US: u16 = 1000;

/// Pulse width (microseconds) of a motor at full power.
pub const PWM_FULL_US: u16 = 2000;

/// The normalized value of a motor at full power: one thousand thousandths.
pub const FULL_POWER: u16 = 1000;

/// The three bytes that every sensor packet starts with.
pub open spec fn sensor_header(kind: u8) -> Seq<u8> {
    le16(ALEPH_SENSOR_MAGIC as int) + seq![kind]
}

/// Starts a sensor packet of the given kind.
fn start_packet(kind: u8) -> (out: Vec<u8>)
    ensures
        out@ == sensor_header(kind),
{
    let mut out: Vec<u8> = Vec::new();
    push_u16(&mut out, ALEPH_SENSOR_MAGIC);
    out.push(kind);
    assert(out@ =~= sensor_header(kind));
    out
}

/// Angular rate (rad/s) and specific force (m/s^2) in the body frame,
/// as `f32` bit patterns.
#[derive(Debug, Clone, Copy)]
pub struct AlephImuPacket {
    pub gyro: [u32; 3],
    pub accel_body: [u32; 3],
}

impl AlephImuPacket {
    /// The packet on the wire.
    pub open spec fn wire(self) -> Seq<u8> {
        sensor_header(ALEPH_PKT_IMU) + le32_all(self.gyro@) + le32_all(self.accel_body@)
    }

    pub fn to_bytes(&self) -> (out: Vec<u8>)
        ensures
            out@ == self.wire(),
    {
        let mut out = start_packet(ALEPH_PKT_IMU);
        push_u32s(&mut out, self.gyro.as_slice());
        push_u32s(&mut out, self.accel_body.as_slice());
        out
    }
}

/// A GPS fix in raw UBX-NAV-PVT integer units.
#[derive(Debug, Clone, Copy)]
pub struct AlephGpsPacket {
    pub lat: i32,
    pub lon: i32,
    pub alt_msl: i32,
    pub vel_ned: [i32; 3],
    pub h_acc: u32,
    pub v_acc: u32,
    pub s_acc: u32,
    pub ground_speed: u32,
    pub fix_type: u8,
    pub satellites: u8,
    pub itow: u32,
    pub unix_epoch_ms: i64,
}

impl AlephGpsPacket {
    /// The packet on the wire.
    pub open spec fn wire(self) -> Seq<u8> {
        sensor_header(ALEPH_PKT_GPS)
            + le32(self.lat as int)
            + le32(self.lon as int)
            + le32(self.alt_msl as int)
            + le32(self.vel_ned[0] as int)
            + le32(self.vel_ned[1] as int)
            + le32(self.vel_ned[2] as int)
            + le32(self.h_acc as int)
            + le32(self.v_acc as int)
            + le32(self.s_acc as int)
            + le32(self.ground_speed as int)
            + seq![self.fix_type, self.satellites]
            + le32(self.itow as int)
            + le64(self.unix_epoch_ms as int)
    }

    pub fn to_bytes(&self) -> (out: Vec<u8>)
        ensures
            out@ == self.wire(),
    {
        let mut out = start_packet(ALEPH_PKT_GPS);
        push_i32(&mut out, self.lat);
        push_i32(&mut out, self.lon);
        push_i32(&mut out, self.alt_msl);
        push_i32(&mut out, self.vel_ned[0]);
        push_i32(&mut out, self.vel_ned[1]);
        push_i32(&mut out, self.vel_ned[2]);
        push_u32(&mut out, self.h_acc);
        push_u32(&mut out, self.v_acc);
        push_u32(&mut out, self.s_acc);
        push_u32(&mut out, self.ground_speed);
        let ghost head = out@;
        out.push(self.fix_type);
        out.push(self.satellites);
        assert(out@ =~= head + seq![self.fix_type, self.satellites]);
        push_u32(&mut out, self.itow);
        push_i64(&mut out, self.unix_epoch_ms);
        out
    }
}

/// Magnetic field in the body frame (milliGauss), as `f32` bit patterns.
#[derive(Debug, Clone, Copy)]
pub struct AlephMagPacket {
    pub mag_mgauss: [u32; 3],
}

impl AlephMagPacket {
    /// The packet on the wire.
    pub open spec fn wire(self) -> Seq<u8> {
        sensor_header(ALEPH_PKT_MAG) + le32_all(self.mag_mgauss@)
    }

    pub fn to_bytes(&self) -> (out: Vec<u8>)
        ensures
            out@ == self.wire(),
    {
        let mut out = start_packet(ALEPH_PKT_MAG);
        push_u32s(&mut out, self.mag_mgauss.as_slice());
        out
    }
}

/// Static pressure (Pa) and temperature (Celsius), as `f32` bit patterns.
#[derive(Debug, Clone, Copy)]
pub struct AlephBaroPacket {
    pub pressure_pa: u32,
    pub temperature_c: u32,
}

impl AlephBaroPacket {
    /// The packet on the wire.
    pub open spec fn wire(self) -> Seq<u8> {
        sensor_header(ALEPH_PKT_BARO) + le32(self.pressure_pa as int) + le32(
            self.temperature_c as int,
        )
    }

    pub fn to_bytes(&self) -> (out: Vec<u8>)
        ensures
            out@ == self.wire(),
    {
        let mut out = start_packet(ALEPH_PKT_BARO);
        push_u32(&mut out, self.pressure_pa);
        push_u32(&mut out, self.temperature_c);
        out
    }
}

/// Reads a 16-bit value off the front of `input`, with
/// `byteorder::ReadBytesExt::read_u16::<LittleEndian>` on a byte slice: where
/// two bytes are left it decodes them and moves past them, otherwise it fails.
/// Nothing is said of `input` after a failure.
#[verifier::external_body]
fn take_u16(input: &mut &[u8]) -> (r: Option<u16>)
    ensures
        r is Some <==> old(input)@.len() >= 2,
        r matches Some(v) ==> le16(v as int) == old(input)@.take(2) && final(input)@
            == old(input)@.skip(2),
{
    input.read_u16::<LittleEndian>().ok()
}

/// Reads a 32-bit value off the front of `input`, with
/// `byteorder::ReadBytesExt::read_u32::<LittleEndian>` on a byte slice: where
/// four bytes are left it decodes them and moves past them, otherwise it fails.
/// Nothing is said of `input` after a failure.
#[verifier::external_body]
fn take_u32(input: &mut &[u8]) -> (r: Option<u32>)
    ensures
        r is Some <==> old(input)@.len() >= 4,
        r matches Some(v) ==> le32(v as int) == old(input)@.take(4) && final(input)@
            == old(input)@.skip(4),
{
    input.read_u32::<LittleEndian>().ok()
}

/// One servo output packet.
#[derive(Debug, Clone, Copy)]
pub struct ServoOutput {
    pub frame_rate: u16,
    pub frame_count: u32,
    pub pwm: [u16; NUM_SERVO_CHANNELS],
}

/// A pulse width as a fraction of full power, in thousandths: the range
/// 1000-2000 us maps onto 0-1000, and anything outside is clamped.
pub open spec fn normalized(pwm: u16) -> u16 {
    if pwm <= PWM_STOP_US {
        0
    } else if pwm >= PWM_FULL_US {
        FULL_POWER
    } else {
        (pwm - PWM_STOP_US) as u16
    }
}

impl ServoOutput {
    /// The packet on the wire.
    pub open spec fn wire(self) -> Seq<u8> {
        le16(ARDUPILOT_SERVO_MAGIC as int) + le16(self.frame_rate as int) + le32(
            self.frame_count as int,
        ) + le16_all(self.pwm@)
    }

    /// What `data` parses to: a packet exactly where there are enough bytes and
    /// they start with the magic, and then the one that those bytes encode.
    pub open spec fn parse(data: Seq<u8>) -> Option<Self> {
        if data.len() >= SERVO_PACKET_SIZE && data.take(2) == le16(ARDUPILOT_SERVO_MAGIC as int) {
            Some(choose|servo: Self| data.take(SERVO_PACKET_SIZE as int) == #[trigger] servo.wire())
        } else {
            None
        }
    }

    /// Parse ArduPilot's binary servo output packet.
    /// Returns None if the packet is malformed or has wrong magic; bytes after
    /// the packet are ignored.
    pub fn from_bytes(data: &[u8]) -> (r: Option<Self>)
        ensures
            r == Self::parse(data@),
            r matches Some(servo) ==> data@.take(SERVO_PACKET_SIZE as int) == servo.wire(),
    {
        if data.len() < 4 + 4 + NUM_SERVO_CHANNELS * 2 {
            return None;
        }
        let mut rest: &[u8] = data;
        let magic = take_u16(&mut rest)?;
        proof {
            le16_determined(magic as int, ARDUPILOT_SERVO_MAGIC as int);
        }
        if magic != ARDUPILOT_SERVO_MAGIC {
            return None;
        }
        let frame_rate = take_u16(&mut rest)?;
        let frame_count = take_u32(&mut rest)?;
        assert(rest@ =~= data@.skip(8));
        let mut pwm: [u16; NUM_SERVO_CHANNELS] = [0u16; NUM_SERVO_CHANNELS];
        let mut i: usize = 0;
        while i < NUM_SERVO_CHANNELS
            invariant
                i <= NUM_SERVO_CHANNELS,
                data@.len() >= SERVO_PACKET_SIZE,
                data@.take(2) == le16(ARDUPILOT_SERVO_MAGIC as int),
                rest@ == data@.skip(8 + 2 * i),
                le16_all(pwm@.take(i as int)) == data@.subrange(8, 8 + 2 * i),
            decreases NUM_SERVO_CHANNELS - i,
        {
            let v = take_u16(&mut rest)?;
            let ghost before = pwm@;
            pwm[i] = v;
            proof {
                assert(pwm@.take(i + 1).drop_last() =~= before.take(i as int));
                assert(data@.subrange(8, 8 + 2 * i) + data@.skip(8 + 2 * i).take(2)
                    =~= data@.subrange(8, 8 + 2 * (i + 1)));
                assert(data@.skip(8 + 2 * i).skip(2) =~= data@.skip(8 + 2 * (i + 1)));
            }
            i = i + 1;
        }
        let servo = ServoOutput { frame_rate, frame_count, pwm };
        proof {
            assert(pwm@.take(16) =~= pwm@);
            assert(data@.take(SERVO_PACKET_SIZE as int) =~= servo.wire());
            let chosen = choose|servo: Self|
                data@.take(SERVO_PACKET_SIZE as int) == #[trigger] servo.wire();
            servo_wire_determines_packet(servo, chosen);
        }
        Some(servo)
    }

    /// Channel `i` as a normalized value, in thousandths of full power.
    pub fn motor_normalized(&self, i: usize) -> (value: u16)
        requires
            i < NUM_SERVO_CHANNELS,
        ensures
            value == normalized(self.pwm[i as int]),
            value <= FULL_POWER,
    {
        let pwm: u16 = self.pwm[i];
        if pwm <= PWM_STOP_US {
            0
        } else if pwm >= PWM_FULL_US {
            FULL_POWER
        } else {
            pwm - PWM_STOP_US
        }
    }

    /// Get the first N motor channels as normalized values, in thousandths of
    /// full power. PWM range 1000-2000us maps to 0-1000.
    pub fn motors_normalized(&self, n: usize) -> (motors: Vec<u16>)
        requires
            n <= NUM_SERVO_CHANNELS,
        ensures
            motors@ == Seq::new(n as nat, |i: int| normalized(self.pwm[i])),
    {
        let mut motors: Vec<u16> = Vec::new();
        let mut i: usize = 0;
        while i < n
            invariant
                i <= n <= NUM_SERVO_CHANNELS,
                motors@ == Seq::new(i as nat, |j: int| normalized(self.pwm[j])),
            decreases n - i,
        {
            motors.push(self.motor_normalized(i));
            i = i + 1;
        }
        motors
    }
}

/// A servo packet is 40 bytes long and determines its contents.
pub proof fn servo_wire_determines_packet(a: ServoOutput, b: ServoOutput)
    ensures
        a.wire().len() == SERVO_PACKET_SIZE,
        a.wire() == b.wire() ==> a == b,
{
    let magic = le16(ARDUPILOT_SERVO_MAGIC as int);
    let (ra, rb) = (le16(a.frame_rate as int), le16(b.frame_rate as int));
    let (ca, cb) = (le32(a.frame_count as int), le32(b.frame_count as int));
    append_injective(magic + ra + ca, le16_all(a.pwm@), magic + rb + cb, le16_all(b.pwm@));
    append_injective(magic + ra, ca, magic + rb, cb);
    append_injective(magic, ra, magic, rb);
    le16_all_determined(a.pwm@, b.pwm@);
    le16_determined(a.frame_rate as int, b.frame_rate as int);
    le32_determined(a.frame_count as int, b.frame_count as int);
    if a.wire() == b.wire() {
        assert(a.pwm =~= b.pwm);
    }
}

/// Parsing gives back the packet that was sent, whatever follows it.
pub proof fn servo_output_round_trip(sent: ServoOutput, extra: Seq<u8>)
    ensures
        ServoOutput::parse(sent.wire() + extra) == Some(sent),
{
    let data = sent.wire() + extra;
    servo_wire_determines_packet(sent, sent);
    assert(data.take(2) =~= le16(ARDUPILOT_SERVO_MAGIC as int));
    assert(data.take(SERVO_PACKET_SIZE as int) =~= sent.wire());
    let got = ServoOutput::parse(data)->0;
    servo_wire_determines_packet(sent, got);
}

/// An IMU packet is 27 bytes long and determines its contents.
pub proof fn imu_wire_determines_packet(a: AlephImuPacket, b: AlephImuPacket)
    ensures
        a.wire().len() == 27,
        a.wire() == b.wire() ==> a == b,
{
    le32_all_determined(a.gyro@, b.gyro@);
    le32_all_determined(b.gyro@, a.gyro@);
    le32_all_determined(a.accel_body@, b.accel_body@);
    let h = sensor_header(ALEPH_PKT_IMU);
    append_injective(
        h + le32_all(a.gyro@),
        le32_all(a.accel_body@),
        h + le32_all(b.gyro@),
        le32_all(b.accel_body@),
    );
    append_injective(h, le32_all(a.gyro@), h, le32_all(b.gyro@));
    if a.wire() == b.wire() {
        assert(a.gyro =~= b.gyro);
        assert(a.accel_body =~= b.accel_body);
    }
}

/// A magnetometer packet is 15 bytes long and determines its contents.
pub proof fn mag_wire_determines_packet(a: AlephMagPacket, b: AlephMagPacket)
    ensures
        a.wire().len() == 15,
        a.wire() == b.wire() ==> a == b,
{
    le32_all_determined(a.mag_mgauss@, b.mag_mgauss@);
    let h = sensor_header(ALEPH_PKT_MAG);
    append_injective(h, le32_all(a.mag_mgauss@), h, le32_all(b.mag_mgauss@));
    if a.wire() == b.wire() {
        assert(a.mag_mgauss =~= b.mag_mgauss);
    }
}

/// A barometer packet is 11 bytes long and determines its contents.
pub proof fn baro_wire_determines_packet(a: AlephBaroPacket, b: AlephBaroPacket)
    ensures
        a.wire().len() == 11,
        a.wire() == b.wire() ==> a == b,
{
    let h = sensor_header(ALEPH_PKT_BARO);
    let (pa, pb) = (le32(a.pressure_pa as int), le32(b.pressure_pa as int));
    let (ta, tb) = (le32(a.temperature_c as int), le32(b.temperature_c as int));
    append_injective(h + pa, ta, h + pb, tb);
    append_injective(h, pa, h, pb);
    le32_determined(a.pressure_pa as int, b.pressure_pa as int);
    le32_determined(a.temperature_c as int, b.temperature_c as int);
}

/// The fields of a GPS packet that come before the fix type, on the wire.
spec fn gps_words(p: AlephGpsPacket) -> Seq<int> {
    seq![
        p.lat as int,
        p.lon as int,
        p.alt_msl as int,
        p.vel_ned[0] as int,
        p.vel_ned[1] as int,
        p.vel_ned[2] as int,
        p.h_acc as int,
        p.v_acc as int,
        p.s_acc as int,
        p.ground_speed as int,
    ]
}

/// A header followed by 32-bit words.
spec fn words_wire(header: Seq<u8>, words: Seq<int>) -> Seq<u8>
    decreases words.len(),
{
    if words.len() == 0 {
        header
    } else {
        words_wire(header, words.drop_last()) + le32(words.last())
    }
}

/// Words after a fixed header are determined modulo 2^32.
proof fn words_wire_determined(header: Seq<u8>, a: Seq<int>, b: Seq<int>)
    requires
        a.len() == b.len(),
    ensures
        words_wire(header, a).len() == header.len() + 4 * a.len(),
        words_wire(header, b).len() == header.len() + 4 * b.len(),
        words_wire(header, a) == words_wire(header, b) ==> forall|i: int|
            0 <= i < a.len() ==> #[trigger] a[i] % 0x1_0000_0000 == #[trigger] b[i] % 0x1_0000_0000,
    decreases a.len(),
{
    if a.len() > 0 {
        let (pa, pb) = (a.drop_last(), b.drop_last());
        words_wire_determined(header, pa, pb);
        append_injective(
            words_wire(header, pa),
            le32(a.last()),
            words_wire(header, pb),
            le32(b.last()),
        );
        le32_determined(a.last(), b.last());
        if words_wire(header, a) == words_wire(header, b) {
            assert forall|i: int| 0 <= i < a.len() implies #[trigger] a[i] % 0x1_0000_0000
                == #[trigger] b[i] % 0x1_0000_0000 by {
                if i < a.len() - 1 {
                    assert(pa[i] == a[i] && pb[i] == b[i]);
                }
            }
        }
    }
}

/// A GPS packet starts with its header and ten 32-bit words.
proof fn gps_wire_shape(p: AlephGpsPacket)
    ensures
        p.wire() == words_wire(sensor_header(ALEPH_PKT_GPS), gps_words(p)) + seq![
            p.fix_type,
            p.satellites,
        ] + le32(p.itow as int) + le64(p.unix_epoch_ms as int),
{
    reveal_with_fuel(words_wire, 11);
    let w = gps_words(p);
    assert(w.drop_last() =~= w.take(9));
    assert(w.take(9).drop_last() =~= w.take(8));
    assert(w.take(8).drop_last() =~= w.take(7));
    assert(w.take(7).drop_last() =~= w.take(6));
    assert(w.take(6).drop_last() =~= w.take(5));
    assert(w.take(5).drop_last() =~= w.take(4));
    assert(w.take(4).drop_last() =~= w.take(3));
    assert(w.take(3).drop_last() =~= w.take(2));
    assert(w.take(2).drop_last() =~= w.take(1));
    assert(w.take(1).drop_last() =~= w.take(0));
}

/// Values of one 32-bit type that agree modulo 2^32 are equal.
proof fn same_word(x: int, y: int)
    requires
        x % 0x1_0000_0000 == y % 0x1_0000_0000,
        -0x1_0000_0000 < x - y < 0x1_0000_0000,
    ensures
        x == y,
{
}

/// The words of a GPS packet determine its fields.
proof fn gps_words_determine_fields(a: AlephGpsPacket, b: AlephGpsPacket)
    requires
        words_wire(sensor_header(ALEPH_PKT_GPS), gps_words(a)) == words_wire(
            sensor_header(ALEPH_PKT_GPS),
            gps_words(b),
        ),
    ensures
        a.lat == b.lat && a.lon == b.lon && a.alt_msl == b.alt_msl,
        a.vel_ned == b.vel_ned,
        a.h_acc == b.h_acc && a.v_acc == b.v_acc && a.s_acc == b.s_acc,
        a.ground_speed == b.ground_speed,
{
    let (wa, wb) = (gps_words(a), gps_words(b));
    words_wire_determined(sensor_header(ALEPH_PKT_GPS), wa, wb);
    same_word(wa[0], wb[0]);
    same_word(wa[1], wb[1]);
    same_word(wa[2], wb[2]);
    same_word(wa[3], wb[3]);
    same_word(wa[4], wb[4]);
    same_word(wa[5], wb[5]);
    same_word(wa[6], wb[6]);
    same_word(wa[7], wb[7]);
    same_word(wa[8], wb[8]);
    same_word(wa[9], wb[9]);
    assert(a.vel_ned =~= b.vel_ned);
}

/// A GPS packet is 57 bytes long and determines its contents.
pub proof fn gps_wire_determines_packet(a: AlephGpsPacket, b: AlephGpsPacket)
    ensures
        a.wire().len() == 57,
        a.wire() == b.wire() ==> a == b,
{
    let h = sensor_header(ALEPH_PKT_GPS);
    let (wa, wb) = (gps_words(a), gps_words(b));
    let (xa, xb) = (words_wire(h, wa), words_wire(h, wb));
    let (fa, fb) = (seq![a.fix_type, a.satellites], seq![b.fix_type, b.satellites]);
    let (ia, ib) = (le32(a.itow as int), le32(b.itow as int));
    let (ea, eb) = (le64(a.unix_epoch_ms as int), le64(b.unix_epoch_ms as int));
    gps_wire_shape(a);
    gps_wire_shape(b);
    words_wire_determined(h, wa, wb);
    append_injective(xa + fa + ia, ea, xb + fb + ib, eb);
    append_injective(xa + fa, ia, xb + fb, ib);
    append_injective(xa, fa, xb, fb);
    le32_determined(a.itow as int, b.itow as int);
    le64_determined(a.unix_epoch_ms as int, b.unix_epoch_ms as int);
    if a.wire() == b.wire() {
        assert(fa[0] == fb[0] && fa[1] == fb[1]);
        gps_words_determine_fields(a, b);
    }
}

/// Every sensor packet starts with the sensor magic, and the third byte tells
/// its kind apart from the others.
pub proof fn sensor_packets_are_told_apart(
    imu: AlephImuPacket,
    gps: AlephGpsPacket,
    mag: AlephMagPacket,
    baro: AlephBaroPacket,
)
    ensures
        imu.wire().take(3) == sensor_header(ALEPH_PKT_IMU),
        gps.wire().take(3) == sensor_header(ALEPH_PKT_GPS),
        mag.wire().take(3) == sensor_header(ALEPH_PKT_MAG),
        baro.wire().take(3) == sensor_header(ALEPH_PKT_BARO),
        imu.wire()[2] == ALEPH_PKT_IMU,
        gps.wire()[2] == ALEPH_PKT_GPS,
        mag.wire()[2] == ALEPH_PKT_MAG,
        baro.wire()[2] == ALEPH_PKT_BARO,
{
    imu_wire_determines_packet(imu, imu);
    gps_wire_determines_packet(gps, gps);
    mag_wire_determines_packet(mag, mag);
    baro_wire_determines_packet(baro, baro);
    assert(imu.wire().take(3) =~= sensor_header(ALEPH_PKT_IMU));
    assert(gps.wire().take(3) =~= sensor_header(ALEPH_PKT_GPS));
    assert(mag.wire().take(3) =~= sensor_header(ALEPH_PKT_MAG));
    assert(baro.wire().take(3) =~= sensor_header(ALEPH_PKT_BARO));
}

/// Every sensor packet starts with the bytes 01 AE, and then its kind.
proof fn sensor_header_bytes(kind: u8)
    ensures
        sensor_header(kind) == seq![0x01u8, 0xAE, kind],
{
    reveal(le16);
    assert(sensor_header(kind) =~= seq![0x01u8, 0xAE, kind]);
}

/// A packet that starts with `head + le32(n)` holds `n` right after the head.
proof fn word_after(bytes: Seq<u8>, head: Seq<u8>, n: int, tail: Seq<u8>)
    requires
        bytes == head + le32(n) + tail,
    ensures
        word_at(bytes, head.len() as int) == n % 0x1_0000_0000,
{
    le32_is_little_endian(n);
    let pos = head.len() as int;
    assert(bytes.subrange(pos, pos + 4) =~= le32(n));
    numbers_in_part(bytes, le32(n), pos);
}

/// Where everything stands in an IMU packet: 01 AE 01, then the angular rate and
/// the specific force, axis by axis, as 32-bit words.
pub proof fn imu_packet_layout(p: AlephImuPacket, i: int)
    requires
        0 <= i < 3,
    ensures
        p.wire().len() == 27,
        p.wire()[0] == 0x01 && p.wire()[1] == 0xAE && p.wire()[2] == 0x01,
        word_at(p.wire(), 3 + 4 * i) == p.gyro[i],
        word_at(p.wire(), 15 + 4 * i) == p.accel_body[i],
{
    sensor_header_bytes(ALEPH_PKT_IMU);
    le32_all_at(p.gyro@, i);
    le32_all_at(p.accel_body@, i);
    le32_is_little_endian(p.gyro[i] as int);
    le32_is_little_endian(p.accel_body[i] as int);
    let (g, a) = (le32_all(p.gyro@), le32_all(p.accel_body@));
    let w = p.wire();
    assert(w.subrange(3 + 4 * i, 7 + 4 * i) =~= g.subrange(4 * i, 4 * i + 4));
    assert(w.subrange(15 + 4 * i, 19 + 4 * i) =~= a.subrange(4 * i, 4 * i + 4));
    numbers_in_part(w, le32(p.gyro[i] as int), 3 + 4 * i);
    numbers_in_part(w, le32(p.accel_body[i] as int), 15 + 4 * i);
}

/// Where everything stands in a compass packet: 01 AE 03, then the field, axis
/// by axis, as 32-bit words.
pub proof fn mag_packet_layout(p: AlephMagPacket, i: int)
    requires
        0 <= i < 3,
    ensures
        p.wire().len() == 15,
        p.wire()[0] == 0x01 && p.wire()[1] == 0xAE && p.wire()[2] == 0x03,
        word_at(p.wire(), 3 + 4 * i) == p.mag_mgauss[i],
{
    sensor_header_bytes(ALEPH_PKT_MAG);
    le32_all_at(p.mag_mgauss@, i);
    le32_is_little_endian(p.mag_mgauss[i] as int);
    let m = le32_all(p.mag_mgauss@);
    let w = p.wire();
    assert(w.subrange(3 + 4 * i, 7 + 4 * i) =~= m.subrange(4 * i, 4 * i + 4));
    numbers_in_part(w, le32(p.mag_mgauss[i] as int), 3 + 4 * i);
}

/// Where everything stands in a barometer packet: 01 AE 04, then pressure and
/// temperature as 32-bit words.
pub proof fn baro_packet_layout(p: AlephBaroPacket)
    ensures
        p.wire().len() == 11,
        p.wire()[0] == 0x01 && p.wire()[1] == 0xAE && p.wire()[2] == 0x04,
        word_at(p.wire(), 3) == p.pressure_pa,
        word_at(p.wire(), 7) == p.temperature_c,
{
    sensor_header_bytes(ALEPH_PKT_BARO);
    let h = sensor_header(ALEPH_PKT_BARO);
    let (x, y) = (le32(p.pressure_pa as int), le32(p.temperature_c as int));
    le32_is_little_endian(p.pressure_pa as int);
    le32_is_little_endian(p.temperature_c as int);
    word_after(p.wire(), h, p.pressure_pa as int, y);
    assert(p.wire() =~= h + x + y + seq![]);
    word_after(p.wire(), h + x, p.temperature_c as int, seq![]);
}

/// Where everything stands in a GPS packet: 01 AE 02, then ten 32-bit words in
/// two's complement, fix type and satellites as a byte each, the time of week
/// as a 32-bit word and the Unix time as a 64-bit one.
pub proof fn gps_packet_layout(p: AlephGpsPacket)
    ensures
        p.wire().len() == 57,
        p.wire()[0] == 0x01 && p.wire()[1] == 0xAE && p.wire()[2] == 0x02,
        word_at(p.wire(), 3) == p.lat as int % 0x1_0000_0000,
        word_at(p.wire(), 7) == p.lon as int % 0x1_0000_0000,
        word_at(p.wire(), 11) == p.alt_msl as int % 0x1_0000_0000,
        word_at(p.wire(), 15) == p.vel_ned[0] as int % 0x1_0000_0000,
        word_at(p.wire(), 19) == p.vel_ned[1] as int % 0x1_0000_0000,
        word_at(p.wire(), 23) == p.vel_ned[2] as int % 0x1_0000_0000,
        word_at(p.wire(), 27) == p.h_acc,
        word_at(p.wire(), 31) == p.v_acc,
        word_at(p.wire(), 35) == p.s_acc,
        word_at(p.wire(), 39) == p.ground_speed,
        p.wire()[43] == p.fix_type,
        p.wire()[44] == p.satellites,
        word_at(p.wire(), 45) == p.itow,
        long_at(p.wire(), 49) == p.unix_epoch_ms as int % 0x1_0000_0000_0000_0000,
{
    let words = gps_words(p);
    sensor_header_bytes(ALEPH_PKT_GPS);
    gps_wire_shape(p);
    words_and_tail_layout(p.wire(), sensor_header(ALEPH_PKT_GPS), words, p);
    assert(words[0] == p.lat && words[1] == p.lon && words[2] == p.alt_msl);
    assert(words[3] == p.vel_ned[0] && words[4] == p.vel_ned[1] && words[5] == p.vel_ned[2]);
    assert(words[6] == p.h_acc && words[7] == p.v_acc && words[8] == p.s_acc);
    assert(words[9] == p.ground_speed);
}

/// Where everything stands in three bytes, ten words and the rest of a GPS packet.
proof fn words_and_tail_layout(w: Seq<u8>, h: Seq<u8>, words: Seq<int>, p: AlephGpsPacket)
    requires
        h.len() == 3,
        words.len() == 10,
        w == words_wire(h, words) + seq![p.fix_type, p.satellites] + le32(p.itow as int) + le64(
            p.unix_epoch_ms as int,
        ),
    ensures
        w.len() == 57,
        w[0] == h[0] && w[1] == h[1] && w[2] == h[2],
        word_at(w, 3) == words[0] % 0x1_0000_0000,
        word_at(w, 7) == words[1] % 0x1_0000_0000,
        word_at(w, 11) == words[2] % 0x1_0000_0000,
        word_at(w, 15) == words[3] % 0x1_0000_0000,
        word_at(w, 19) == words[4] % 0x1_0000_0000,
        word_at(w, 23) == words[5] % 0x1_0000_0000,
        word_at(w, 27) == words[6] % 0x1_0000_0000,
        word_at(w, 31) == words[7] % 0x1_0000_0000,
        word_at(w, 35) == words[8] % 0x1_0000_0000,
        word_at(w, 39) == words[9] % 0x1_0000_0000,
        w[43] == p.fix_type,
        w[44] == p.satellites,
        word_at(w, 45) == p.itow,
        long_at(w, 49) == p.unix_epoch_ms as int % 0x1_0000_0000_0000_0000,
{
    let x = words_wire(h, words);
    let f = seq![p.fix_type, p.satellites];
    let t = le32(p.itow as int);
    let e = le64(p.unix_epoch_ms as int);
    words_wire_determined(h, words, words);
    words_wire_starts_with_header(h, words);
    assert(x.take(3)[0] == x[0] && x.take(3)[1] == x[1] && x.take(3)[2] == x[2]);
    word_after(w, x + f, p.itow as int, e);
    le64_is_little_endian(p.unix_epoch_ms as int);
    assert(w.subrange(49, 57) =~= e);
    numbers_in_part(w, e, 49);
    let rest = f + t + e;
    assert(w =~= x + rest);
    word_in_words(h, words, rest, 0);
    word_in_words(h, words, rest, 1);
    word_in_words(h, words, rest, 2);
    word_in_words(h, words, rest, 3);
    word_in_words(h, words, rest, 4);
    word_in_words(h, words, rest, 5);
    word_in_words(h, words, rest, 6);
    word_in_words(h, words, rest, 7);
    word_in_words(h, words, rest, 8);
    word_in_words(h, words, rest, 9);
}

/// Words after a header leave the header in front.
proof fn words_wire_starts_with_header(header: Seq<u8>, words: Seq<int>)
    ensures
        words_wire(header, words).len() >= header.len(),
        words_wire(header, words).take(header.len() as int) == header,
    decreases words.len(),
{
    if words.len() > 0 {
        words_wire_starts_with_header(header, words.drop_last());
        assert(words_wire(header, words).take(header.len() as int) =~= words_wire(
            header,
            words.drop_last(),
        ).take(header.len() as int));
    } else {
        assert(header.take(header.len() as int) =~= header);
    }
}

/// Word `i` after a header stands `4 * i` bytes behind it.
proof fn word_in_words(header: Seq<u8>, words: Seq<int>, rest: Seq<u8>, i: int)
    requires
        0 <= i < words.len(),
    ensures
        word_at(words_wire(header, words) + rest, header.len() + 4 * i) == words[i]
            % 0x1_0000_0000,
    decreases words.len(),
{
    let init = words.drop_last();
    let last = le32(words.last());
    words_wire_determined(header, init, init);
    if i < words.len() - 1 {
        word_in_words(header, init, last + rest, i);
        assert(words_wire(header, words) + rest =~= words_wire(header, init) + (last + rest));
    } else {
        word_after(words_wire(header, words) + rest, words_wire(header, init), words.last(), rest);
    }
}

/// What servo output is read from a datagram: there is one exactly where there
/// are forty bytes or more and the first two are 1A 48, and each field is the
/// little-endian number in its place.
pub proof fn servo_output_layout(data: Seq<u8>, i: int)
    requires
        0 <= i < 16,
    ensures
        ServoOutput::parse(data) is Some <==> data.len() >= 40 && data[0] == 0x1A && data[1]
            == 0x48,
        ServoOutput::parse(data) matches Some(servo) ==> {
            &&& servo.frame_rate == half_at(data, 2)
            &&& servo.frame_count == word_at(data, 4)
            &&& servo.pwm[i] == half_at(data, 8 + 2 * i)
        },
{
    let magic = le16(ARDUPILOT_SERVO_MAGIC as int);
    assert(magic =~= seq![0x1Au8, 0x48]) by {
        reveal(le16);
    }
    if data.len() >= 40 {
        assert(data.take(2) =~= seq![data[0], data[1]]);
        assert(magic[0] == 0x1A && magic[1] == 0x48);
        assert(data.take(2)[0] == data[0] && data.take(2)[1] == data[1]);
    }
    if ServoOutput::parse(data) is Some {
        let servo = ServoOutput::parse(data)->0;
        some_servo_output_is_encoded(data);
        let w = servo.wire();
        let (r, c) = (le16(servo.frame_rate as int), le32(servo.frame_count as int));
        let q = le16_all(servo.pwm@);
        le16_is_little_endian(servo.frame_rate as int);
        le32_is_little_endian(servo.frame_count as int);
        le16_is_little_endian(servo.pwm[i] as int);
        le16_all_at(servo.pwm@, i);
        assert(data.take(40) == w);
        assert(data.subrange(2, 4) =~= w.subrange(2, 4));
        assert(w.subrange(2, 4) =~= r);
        numbers_in_part(data, r, 2);
        assert(data.subrange(4, 8) =~= w.subrange(4, 8));
        assert(w.subrange(4, 8) =~= c);
        numbers_in_part(data, c, 4);
        let v = le16(servo.pwm[i] as int);
        assert(data.subrange(8 + 2 * i, 10 + 2 * i) =~= w.subrange(8 + 2 * i, 10 + 2 * i));
        assert(w.subrange(8 + 2 * i, 10 + 2 * i) =~= q.subrange(2 * i, 2 * i + 2));
        numbers_in_part(data, v, 8 + 2 * i);
    }
}

/// Any two bytes encode their little-endian number.
proof fn bytes_encode_half(bytes: Seq<u8>)
    requires
        bytes.len() == 2,
    ensures
        le16(half_at(bytes, 0)) == bytes,
        0 <= half_at(bytes, 0) < 0x1_0000,
{
    reveal(le16);
    reveal(half_at);
    assert(le16(half_at(bytes, 0)) =~= bytes);
}

/// The 16-bit numbers in a sequence of bytes.
spec fn halves(bytes: Seq<u8>, n: nat) -> Seq<u16> {
    Seq::new(n, |i: int| half_at(bytes, 2 * i) as u16)
}

/// The 16-bit numbers in a sequence of bytes encode it.
proof fn halves_encode(bytes: Seq<u8>, n: nat)
    requires
        bytes.len() == 2 * n,
    ensures
        le16_all(halves(bytes, n)) == bytes,
    decreases n,
{
    if n > 0 {
        let m = (n - 1) as nat;
        let init = bytes.take(2 * m as int);
        let last = bytes.skip(2 * m as int);
        halves_encode(init, m);
        bytes_encode_half(last);
        assert(halves(bytes, n).drop_last() =~= halves(init, m)) by {
            reveal(half_at);
        }
        assert(halves(bytes, n).last() == half_at(last, 0)) by {
            reveal(half_at);
        }
        assert(init + last =~= bytes);
    } else {
        assert(le16_all(halves(bytes, n)) =~= bytes);
    }
}

/// Forty bytes that start with the magic are the encoding of some servo output.
proof fn some_servo_output_is_encoded(data: Seq<u8>)
    requires
        data.len() >= SERVO_PACKET_SIZE,
        data.take(2) == le16(ARDUPILOT_SERVO_MAGIC as int),
    ensures
        data.take(SERVO_PACKET_SIZE as int) == ServoOutput::parse(data)->0.wire(),
{
    let rate = data.subrange(2, 4);
    let (low, high) = (data.subrange(4, 6), data.subrange(6, 8));
    let pwm_bytes = data.subrange(8, 40);
    bytes_encode_half(rate);
    bytes_encode_half(low);
    bytes_encode_half(high);
    halves_encode(pwm_bytes, 16);
    let vs = halves(pwm_bytes, 16);
    let count = half_at(low, 0) + 0x1_0000 * half_at(high, 0);
    let pwm = [
        vs[0], vs[1], vs[2], vs[3], vs[4], vs[5], vs[6], vs[7],
        vs[8], vs[9], vs[10], vs[11], vs[12], vs[13], vs[14], vs[15],
    ];
    let servo = ServoOutput {
        frame_rate: half_at(rate, 0) as u16,
        frame_count: count as u32,
        pwm,
    };
    assert(pwm@ =~= vs);
    le16_determined(count, half_at(low, 0));
    assert(le32(count) =~= low + high);
    assert(data.take(SERVO_PACKET_SIZE as int) =~= servo.wire());
}

/// A normalized value is how far the pulse, kept between 1000 and 2000 us, is
/// above 1000 us.
pub proof fn pulses_are_normalized(pwm: u16)
    ensures
        normalized(pwm) <= 1000,
        pwm < 1000 ==> 1000 + normalized(pwm) == 1000,
        1000 <= pwm <= 2000 ==> 1000 + normalized(pwm) == pwm,
        pwm > 2000 ==> 1000 + normalized(pwm) == 2000,
{
}

} // verus!
