//! Elodin-DB integration: sensor records as they are subscribed to, and the
//! motor telemetry that is written back.
//!
//! Sensor data arrives from the STM32 via serial-bridge into Elodin-DB
//! under several vtable namespaces:
//!   "IMU"       -- gyro/accel/mag from on-board sensors (BMI270, BMM350) at ~1500 Hz
//!   "M10Q"      -- GPS from u-blox M10 via STM32 USART2 (J7 connector)
//!   "QMC5883L"  -- External compass from QMC5883L via STM32 I2C4 (J7 connector)
//!
//! Motor telemetry is written back as a separate vtable for visualization
//! in the Elodin Editor. Floating-point fields are held as their IEEE 754 bit
//! patterns.

#[allow(unused_imports)]
use vstd::arithmetic::power2::{
    lemma2_to64, lemma2_to64_rest, lemma_pow2_adds, lemma_pow2_strictly_increases, lemma_pow2_unfold,
    pow2,
};
use vstd::prelude::*;

#[allow(unused_imports)]
use crate::ardupilot_ipc::FULL_POWER;
use crate::bytes::{push_i64, push_u16s, push_u32s};
#[allow(unused_imports)]
use crate::bytes::{
    append_injective, le16_all_at, le16_all_determined, le16_determined, le16_is_little_endian,
    le32_all_at, le32_all_determined, le32_is_little_endian, le64_determined, le64_is_little_endian,
    numbers_in_part,
};
#[allow(unused_imports)]
use crate::endian::{half_at, le16, le16_all, le32, le32_all, le64, long_at, word_at};

verus! {

broadcast use crate::endian::le16_len;

/// IMU sensor data from the on-board BMI270/BMM350 (~1500 Hz), as `f32` bit
/// patterns.
#[derive(Debug, Clone, Copy)]
pub struct SensorInput {
    pub mag: [u32; 3],
    pub gyro: [u32; 3],
    pub accel: [u32; 3],
}

/// GPS data from the Mateksys M10Q-5883 u-blox receiver.
/// All values use raw UBX-NAV-PVT integer units.
#[derive(Debug, Clone, Copy)]
pub struct M10QInput {
    /// 1e-7 degrees
    pub lat: i32,
    /// 1e-7 degrees
    pub lon: i32,
    /// mm above mean sea level
    pub alt_msl: i32,
    /// mm above WGS84 ellipsoid
    pub alt_wgs84: i32,
    /// mm/s [North, East, Down]
    pub vel_ned: [i32; 3],
    /// 0=none, 2=2D, 3=3D
    pub fix_type: u8,
    pub satellites: u8,
    /// horizontal accuracy (mm)
    pub h_acc: u32,
    /// vertical accuracy (mm)
    pub v_acc: u32,
    /// speed accuracy (mm/s)
    pub s_acc: u32,
    /// mm/s
    pub ground_speed: u32,
    /// 1e-5 degrees
    pub heading_motion: i32,
    pub valid_flags: u8,
    /// GPS time of week (ms)
    pub itow: u32,
    /// Unix epoch (ms)
    pub unix_epoch_ms: i64,
}

/// External compass data from the QMC5883L on the Mateksys M10Q-5883 module.
/// Connected via STM32 I2C4 (J7 connector), mounted away from the Orin NX
/// to minimize magnetic interference.
#[derive(Debug, Clone, Copy)]
pub struct QMC5883LInput {
    /// raw magnetometer LSB
    pub mag: [i16; 3],
    pub status: u8,
}

/// The `f32` bit pattern of `n / (1000 * 2^23) * 2^(exponent - 127)`, rounded
/// to nearest: the fraction is doubled until its significand has 24 bits.
pub open spec fn f32_pattern(n: int, exponent: int) -> int
    decreases 1000 * 0x100_0000 - n,
{
    if n <= 0 {
        0
    } else if n < 1000 * 0x80_0000 {
        f32_pattern(2 * n, exponent - 1)
    } else {
        (exponent - 1) * 0x80_0000 + (2 * n + 1000) / 2000
    }
}

/// The `f32` bit pattern of `k` thousandths.
pub open spec fn thousandths_f32(k: u16) -> int {
    f32_pattern(k as int, 150)
}

/// The `f32` bit pattern of a motor value given in thousandths.
pub fn thousandths_to_f32_bits(k: u16) -> (bits: u32)
    requires
        k <= FULL_POWER,
    ensures
        bits == thousandths_f32(k),
{
    if k == 0 {
        return 0;
    }
    let mut n: u64 = k as u64;
    let mut exponent: u64 = 150;
    proof {
        lemma2_to64();
    }
    while n < 8_388_608_000
        invariant
            1 <= n < 16_777_216_000,
            117 <= exponent <= 150,
            n >= pow2((150 - exponent) as nat),
            f32_pattern(n as int, exponent as int) == thousandths_f32(k),
        decreases 16_777_216_000 - n,
    {
        proof {
            lemma_pow2_unfold((151 - exponent) as nat);
            lemma2_to64_rest();
        }
        n = 2 * n;
        exponent = exponent - 1;
    }
    ((exponent - 1) * 0x80_0000 + (2 * n + 1000) / 2000) as u32
}

/// The pattern of `k` thousandths, doubled `j` times already, is within half a
/// unit in the last place.
proof fn pattern_is_nearest(k: int, j: nat)
    requires
        1 <= k <= FULL_POWER,
        j <= 33,
        k * pow2(j) < 1000 * 0x100_0000,
    ensures
        is_nearest_f32(k, f32_pattern(k * pow2(j), 150 - j)),
    decreases 33 - j,
{
    let n = k * pow2(j);
    lemma2_to64();
    lemma2_to64_rest();
    assert(n >= pow2(j)) by (nonlinear_arith)
        requires
            n == k * pow2(j),
            k >= 1,
    ;
    if n < 1000 * 0x80_0000 {
        lemma_pow2_unfold(j + 1);
        assert(k * pow2(j + 1) == 2 * n) by (nonlinear_arith)
            requires
                n == k * pow2(j),
                pow2(j + 1) == 2 * pow2(j),
        ;
        pattern_is_nearest(k, j + 1);
    } else {
        if j < 23 {
            lemma_pow2_strictly_increases(j, 23);
            assert(n < 1000 * 0x80_0000) by (nonlinear_arith)
                requires
                    n == k * pow2(j),
                    k <= 1000,
                    pow2(j) < 0x80_0000,
                    pow2(j) >= 0,
            ;
        }
        let rest = pow2((j - 23) as nat);
        lemma_pow2_adds(23, (j - 23) as nat);
        let q = k * rest;
        assert(n == 0x80_0000 * q) by (nonlinear_arith)
            requires
                n == k * pow2(j),
                pow2(j) == 0x80_0000 * rest,
                q == k * rest,
        ;
        let m = (2 * n + 1000) / 2000;
        let b = (149 - j) * 0x80_0000 + m;
        assert(q <= 1999);
        assert(0x80_0000 <= m < 0x100_0000);
        assert(b / 0x80_0000 == 150 - j);
        assert(0x80_0000 + b % 0x80_0000 == m);
    }
}

/// `bits` is the `f32` bit pattern of a value within half a unit in the last
/// place of `k` thousandths.
pub open spec fn is_nearest_f32(k: int, bits: int) -> bool {
    let exponent = bits / 0x80_0000;
    let significand = 0x80_0000 + bits % 0x80_0000;
    &&& 117 <= exponent <= 127
    &&& -1000 <= 2 * (1000 * significand - k * pow2((150 - exponent) as nat)) <= 1000
}

/// The pattern of a nonzero motor value is that of a normal `f32` no further
/// than half a unit in the last place from it, and that of zero is zero.
pub proof fn thousandths_are_rounded_to_nearest(k: u16)
    requires
        k <= FULL_POWER,
    ensures
        k == 0 ==> thousandths_f32(k) == 0,
        k > 0 ==> is_nearest_f32(k as int, thousandths_f32(k)),
{
    if k > 0 {
        lemma2_to64();
        pattern_is_nearest(k as int, 0);
    }
}

/// A table packet for Elodin-DB: the vtable it belongs to and the row.
#[derive(Debug)]
pub struct TablePacket {
    pub id: [u8; 2],
    pub payload: Vec<u8>,
}

/// Motor command telemetry written back to Elodin-DB.
#[derive(Debug, Clone, Copy)]
pub struct MotorTelemetry {
    /// microseconds
    pub time: i64,
    /// `f32` bit patterns, normalized to [0.0, 1.0]
    pub motor_command: [u32; 4],
    /// microseconds
    pub motor_pwm: [u16; 4],
}

impl MotorTelemetry {
    /// The row in the table: the fields one after the other, little-endian and
    /// without padding, as a C record has them on a little-endian machine.
    pub open spec fn row(self) -> Seq<u8> {
        le64(self.time as int) + le32_all(self.motor_command@) + le16_all(self.motor_pwm@)
    }

    pub fn new(pwm: [u16; 4], normalized: [u32; 4], time: i64) -> (t: Self)
        ensures
            t.time == time,
            t.motor_command == normalized,
            t.motor_pwm == pwm,
    {
        MotorTelemetry { time, motor_command: normalized, motor_pwm: pwm }
    }

    /// The packet that adds this row to the table of vtable `id`.
    pub fn to_table_packet(&self, id: [u8; 2]) -> (packet: TablePacket)
        ensures
            packet.id == id,
            packet.payload@ == self.row(),
    {
        let mut payload: Vec<u8> = Vec::new();
        push_i64(&mut payload, self.time);
        push_u32s(&mut payload, self.motor_command.as_slice());
        push_u16s(&mut payload, self.motor_pwm.as_slice());
        assert(payload@ =~= self.row());
        TablePacket { id, payload }
    }
}

/// A random 16-bit number, from `fastrand::u16` over the full range. Which one
/// comes back is left open.
#[verifier::external_body]
fn random_u16() -> (n: u16) {
    fastrand::u16(..)
}

/// The packet ID with the given number: its little-endian bytes.
pub fn packet_id(n: u16) -> (id: [u8; 2])
    ensures
        id@ == le16(n as int),
{
    let id: [u8; 2] = [(n % 0x100) as u8, (n / 0x100) as u8];
    proof {
        reveal(le16);
        assert(id@ =~= le16(n as int));
    }
    id
}

/// A packet ID with a random number.
pub fn random_packet_id() -> (id: [u8; 2])
    ensures
        exists|n: u16| id@ == #[trigger] le16(n as int),
{
    let n: u16 = random_u16();
    packet_id(n)
}

/// A row is 32 bytes long and determines the telemetry.
pub proof fn row_determines_telemetry(a: MotorTelemetry, b: MotorTelemetry)
    ensures
        a.row().len() == 32,
        a.row() == b.row() ==> a == b,
{
    let (ta, tb) = (le64(a.time as int), le64(b.time as int));
    let (ca, cb) = (le32_all(a.motor_command@), le32_all(b.motor_command@));
    let (pa, pb) = (le16_all(a.motor_pwm@), le16_all(b.motor_pwm@));
    le64_determined(a.time as int, b.time as int);
    le32_all_determined(a.motor_command@, b.motor_command@);
    le32_all_determined(b.motor_command@, a.motor_command@);
    le16_all_determined(a.motor_pwm@, b.motor_pwm@);
    append_injective(ta + ca, pa, tb + cb, pb);
    append_injective(ta, ca, tb, cb);
    if a.row() == b.row() {
        assert(a.motor_command =~= b.motor_command);
        assert(a.motor_pwm =~= b.motor_pwm);
    }
}

/// A packet ID determines its number.
pub proof fn packet_id_determines_number(a: u16, b: u16)
    requires
        le16(a as int) == le16(b as int),
    ensures
        a == b,
{
    le16_determined(a as int, b as int);
}

/// Where everything stands in a row: the time as a 64-bit number in two's
/// complement, the four commands as 32-bit words and the four pulse widths as
/// 16-bit ones, each motor in its own place.
pub proof fn row_layout(t: MotorTelemetry, i: int)
    requires
        0 <= i < 4,
    ensures
        t.row().len() == 32,
        long_at(t.row(), 0) == t.time as int % 0x1_0000_0000_0000_0000,
        word_at(t.row(), 8 + 4 * i) == t.motor_command[i],
        half_at(t.row(), 24 + 2 * i) == t.motor_pwm[i],
{
    let w = t.row();
    let (c, p) = (le32_all(t.motor_command@), le16_all(t.motor_pwm@));
    le64_is_little_endian(t.time as int);
    le32_all_at(t.motor_command@, i);
    le16_all_at(t.motor_pwm@, i);
    le32_is_little_endian(t.motor_command[i] as int);
    le16_is_little_endian(t.motor_pwm[i] as int);
    assert(w.subrange(0, 8) =~= le64(t.time as int));
    numbers_in_part(w, le64(t.time as int), 0);
    assert(w.subrange(8 + 4 * i, 12 + 4 * i) =~= c.subrange(4 * i, 4 * i + 4));
    numbers_in_part(w, le32(t.motor_command[i] as int), 8 + 4 * i);
    assert(w.subrange(24 + 2 * i, 26 + 2 * i) =~= p.subrange(2 * i, 2 * i + 2));
    numbers_in_part(w, le16(t.motor_pwm[i] as int), 24 + 2 * i);
}

} // verus!
