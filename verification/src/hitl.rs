//! HITL (Hardware-In-The-Loop) socket interface.
//!
//! When enabled, accepts a TCP connection from an Elodin simulation's
//! post_step callback. The simulation sends FDM sensor packets and
//! receives motor command packets, matching the Betaflight SITL pattern.
//!
//! Protocol (binary, little-endian):
//!
//! Sim -> Bridge (FDM packet, 144 bytes = 18 x f64):
//!   timestamp(1) + gyro_rpy(3) + accel_xyz(3) + quat_wxyz(4) +
//!   vel_xyz(3) + pos_xyz(3) + pressure(1)
//!
//! Bridge -> Sim (Motor packet, 32 bytes = 4 x f64):
//!   motor[0..4] normalized [0.0, 1.0]
//!
//! The `f64` values are held as their IEEE 754 bit patterns (`f64::to_bits`).

use vstd::prelude::*;

use crate::bytes::{push_u64, read_u64};
#[allow(unused_imports)]
use crate::bytes::{le64_all_at, le64_all_determined};
#[allow(unused_imports)]
use crate::endian::{le64, le64_all, long_at};

verus! {

broadcast use crate::endian::le16_len;

/// 18 f64s = 144 bytes
pub const FDM_PACKET_SIZE: usize = 144;

/// 4 f64s = 32 bytes
pub const MOTOR_PACKET_SIZE: usize = 32;

/// The listener for a simulation.
pub struct HitlServer {
    listen_ip: [u8; 4],
    listen_port: u16,
    active: bool,
}

impl HitlServer {
    /// The IPv4 address that is listened on.
    pub closed spec fn ip(&self) -> Seq<u8> {
        self.listen_ip@
    }

    /// The TCP port that is listened on.
    pub closed spec fn port(&self) -> u16 {
        self.listen_port
    }

    /// A simulation is connected.
    pub closed spec fn active(&self) -> bool {
        self.active
    }

    /// A listener on all interfaces; port 0 disables it.
    pub fn new(port: u16) -> (r: Option<Self>)
        ensures
            r is None <==> port == 0,
            r matches Some(server) ==> {
                &&& server.ip() == seq![0u8, 0, 0, 0]
                &&& server.port() == port
                &&& !server.active()
            },
    {
        if port == 0 {
            return None;
        }
        let server = HitlServer { listen_ip: [0, 0, 0, 0], listen_port: port, active: false };
        assert(server.ip() =~= seq![0u8, 0, 0, 0]);
        Some(server)
    }

    pub fn is_active(&self) -> (r: bool)
        ensures
            r == self.active(),
    {
        self.active
    }

    /// The address and port that are listened on.
    pub fn listen_addr(&self) -> (addr: ([u8; 4], u16))
        ensures
            addr.0@ == self.ip(),
            addr.1 == self.port(),
    {
        (self.listen_ip, self.listen_port)
    }
}

/// Flight dynamics of the simulated vehicle, as `f64` bit patterns.
#[derive(Debug, Clone, Copy)]
pub struct FdmData {
    pub timestamp: u64,
    pub gyro: [u64; 3],
    pub accel: [u64; 3],
    pub quat: [u64; 4],
    pub velocity: [u64; 3],
    pub position: [u64; 3],
    pub pressure: u64,
}

impl FdmData {
    /// The values in the order of the packet.
    pub open spec fn values(self) -> Seq<u64> {
        seq![self.timestamp] + self.gyro@ + self.accel@ + self.quat@ + self.velocity@
            + self.position@ + seq![self.pressure]
    }

    /// The packet on the wire.
    pub open spec fn wire(self) -> Seq<u8> {
        le64_all(self.values())
    }
}

/// Parse an FDM packet from the simulation.
pub fn parse_fdm_packet(data: &[u8; FDM_PACKET_SIZE]) -> (fdm: FdmData)
    ensures
        fdm.wire() == data@,
{
    let bytes = data.as_slice();
    let mut vals: Vec<u64> = Vec::new();
    let mut i: usize = 0;
    assert(le64_all(vals@) =~= data@.take(0));
    while i < 18
        invariant
            i <= 18,
            bytes@ == data@,
            bytes@.len() == 144,
            vals@.len() == i,
            le64_all(vals@) == data@.take(8 * i),
        decreases 18 - i,
    {
        let ghost before = vals@;
        let v: u64 = read_u64(bytes, 8 * i);
        vals.push(v);
        proof {
            assert(vals@.drop_last() =~= before);
            assert(data@.take(8 * i) + data@.subrange(8 * i, 8 * i + 8) =~= data@.take(
                8 * (i + 1),
            ));
        }
        i = i + 1;
    }
    let fdm = FdmData {
        timestamp: vals[0],
        gyro: [vals[1], vals[2], vals[3]],
        accel: [vals[4], vals[5], vals[6]],
        quat: [vals[7], vals[8], vals[9], vals[10]],
        velocity: [vals[11], vals[12], vals[13]],
        position: [vals[14], vals[15], vals[16]],
        pressure: vals[17],
    };
    proof {
        assert(fdm.values() =~= vals@);
        assert(data@.take(144) =~= data@);
    }
    fdm
}

/// Encode motor values into a binary packet for the simulation.
pub fn encode_motor_packet(motors: &[u64; 4]) -> (buf: [u8; MOTOR_PACKET_SIZE])
    ensures
        buf@ == le64_all(motors@),
{
    let mut out: Vec<u8> = Vec::new();
    push_u64(&mut out, motors[0]);
    push_u64(&mut out, motors[1]);
    push_u64(&mut out, motors[2]);
    push_u64(&mut out, motors[3]);
    proof {
        let m = motors@;
        reveal_with_fuel(le64_all, 5);
        assert(m.drop_last() =~= m.take(3));
        assert(m.take(3).drop_last() =~= m.take(2));
        assert(m.take(2).drop_last() =~= m.take(1));
        assert(m.take(1).drop_last() =~= m.take(0));
        assert(out@ =~= le64_all(m));
        le64_all_determined(m, m);
    }
    let mut buf: [u8; MOTOR_PACKET_SIZE] = [0u8; MOTOR_PACKET_SIZE];
    let mut i: usize = 0;
    while i < MOTOR_PACKET_SIZE
        invariant
            i <= MOTOR_PACKET_SIZE == out@.len(),
            forall|j: int| 0 <= j < i ==> buf[j] == out@[j],
        decreases MOTOR_PACKET_SIZE - i,
    {
        buf[i] = out[i];
        i = i + 1;
    }
    assert(buf@ =~= out@);
    buf
}

/// The packet of some flight dynamics data parses to the same data, and to
/// nothing else.
pub proof fn fdm_round_trip(sent: FdmData, got: FdmData)
    ensures
        sent.wire().len() == FDM_PACKET_SIZE,
        got.wire() == sent.wire() ==> got == sent,
{
    let (a, b) = (sent.values(), got.values());
    le64_all_determined(a, b);
    if got.wire() == sent.wire() {
        assert(a[0] == b[0]);
        assert(a.subrange(1, 4) =~= sent.gyro@ && b.subrange(1, 4) =~= got.gyro@);
        assert(a.subrange(4, 7) =~= sent.accel@ && b.subrange(4, 7) =~= got.accel@);
        assert(a.subrange(7, 11) =~= sent.quat@ && b.subrange(7, 11) =~= got.quat@);
        assert(a.subrange(11, 14) =~= sent.velocity@ && b.subrange(11, 14) =~= got.velocity@);
        assert(a.subrange(14, 17) =~= sent.position@ && b.subrange(14, 17) =~= got.position@);
        assert(a[17] == b[17]);
        assert(got.gyro =~= sent.gyro);
        assert(got.accel =~= sent.accel);
        assert(got.quat =~= sent.quat);
        assert(got.velocity =~= sent.velocity);
        assert(got.position =~= sent.position);
    }
}

/// A motor packet determines the motor values.
pub proof fn motor_packet_determines_motors(a: [u64; 4], b: [u64; 4])
    ensures
        le64_all(a@).len() == MOTOR_PACKET_SIZE,
        le64_all(a@) == le64_all(b@) ==> a == b,
{
    le64_all_determined(a@, b@);
    if a@ == b@ {
        assert(a =~= b);
    }
}

/// Where everything stands in an FDM packet: timestamp, angular rate,
/// acceleration, attitude, velocity, position and pressure, eight bytes each.
pub proof fn fdm_layout(fdm: FdmData, i: int)
    requires
        0 <= i < 3,
    ensures
        fdm.wire().len() == 144,
        long_at(fdm.wire(), 0) == fdm.timestamp,
        long_at(fdm.wire(), 8 + 8 * i) == fdm.gyro[i],
        long_at(fdm.wire(), 32 + 8 * i) == fdm.accel[i],
        long_at(fdm.wire(), 56 + 8 * i) == fdm.quat[i],
        long_at(fdm.wire(), 80) == fdm.quat[3],
        long_at(fdm.wire(), 88 + 8 * i) == fdm.velocity[i],
        long_at(fdm.wire(), 112 + 8 * i) == fdm.position[i],
        long_at(fdm.wire(), 136) == fdm.pressure,
{
    let v = fdm.values();
    le64_all_at(v, 0);
    le64_all_at(v, 1 + i);
    le64_all_at(v, 4 + i);
    le64_all_at(v, 7 + i);
    le64_all_at(v, 10);
    le64_all_at(v, 11 + i);
    le64_all_at(v, 14 + i);
    le64_all_at(v, 17);
}

/// Motor `i` stands at byte `8 * i` of a motor packet.
pub proof fn motor_packet_layout(motors: [u64; 4], i: int)
    requires
        0 <= i < 4,
    ensures
        le64_all(motors@).len() == 32,
        long_at(le64_all(motors@), 8 * i) == motors[i],
{
    le64_all_at(motors@, i);
}

} // verus!
