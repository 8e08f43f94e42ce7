//! DroneCAN ESC command output via Linux SocketCAN.
//!
//! Builds `uavcan.equipment.esc.RawCommand` (DSDL ID 1030) frames for the
//! configured CAN interface. The RawCommand message contains up to 20
//! 14-bit signed integers. For ESC throttle, values are [0, 8191] where
//! 8191 = maximum throttle.
//!
//! DroneCAN frame format on CAN bus:
//!   - CAN ID encodes: priority (5 bits), data type ID (16 bits),
//!     service/message flag, source node ID (7 bits)
//!   - For broadcast messages: bits [28:24]=priority, [23:8]=dtid, [7]=0, [6:0]=source_node_id
//!   - Tail byte: start/end/toggle bits + transfer ID (5 bits)
//!
//! The socket calls themselves are made by the caller: `open` and `open_next`
//! say which call comes next, and `send_esc_command` hands out the frame to
//! write.

use vstd::prelude::*;

use crate::ardupilot_ipc::{ServoOutput, FULL_POWER, NUM_SERVO_CHANNELS};
use crate::bytes::push_u64;
#[allow(unused_imports)]
use crate::ardupilot_ipc::{normalized, PWM_FULL_US, PWM_STOP_US};
#[allow(unused_imports)]
use crate::bytes::{append_injective, le64_determined, le64_is_little_endian};

verus! {

broadcast use crate::endian::le16_len;

/// DroneCAN data type ID for esc.RawCommand
pub const ESC_RAW_COMMAND_DTID: u16 = 1030;

/// Default DroneCAN node ID for the bridge
pub const DEFAULT_NODE_ID: u8 = 100;

/// Maximum ESC throttle value (14-bit signed positive range)
pub const ESC_MAX_THROTTLE: i16 = 8191;

/// Transfer priority of ESC commands (medium).
pub const ESC_PRIORITY: u32 = 16;

/// Number of motors whose throttles fit in a single CAN frame.
pub const MAX_FRAME_MOTORS: usize = 4;

/// A classic CAN frame, as SocketCAN takes it.
#[derive(Debug, Clone, Copy)]
pub struct CanFrame {
    pub can_id: u32,
    pub can_dlc: u8,
    pub data: [u8; 8],
}

/// Why the CAN interface could not be opened, or a command could not be sent.
#[derive(Debug, Clone, Copy, PartialEq, Eq, Structural)]
pub enum CanError {
    /// The raw CAN socket could not be created.
    SocketFailed,
    /// The interface name holds a NUL character.
    InvalidInterfaceName,
    /// No network interface has the configured name.
    InterfaceNotFound,
    /// The socket could not be bound to the interface.
    BindFailed,
    /// The command does not fit in a single CAN frame.
    TooManyMotors { motors: usize },
}

/// What the caller has to do next to open the interface.
#[derive(Debug, Clone, Copy, PartialEq, Eq, Structural)]
pub enum OpenStep {
    /// Opening is over: the socket is kept, or CAN output is disabled.
    Finished,
    /// Create a raw CAN socket.
    CreateSocket,
    /// Look up the index of the configured interface.
    LookUpInterface { fd: i32 },
    /// Bind the socket to the interface.
    BindSocket { fd: i32, ifindex: i32 },
    /// Close the socket, if one is given, and report the error.
    Fail { error: CanError, close: Option<i32> },
}

/// What came of the last step.
#[derive(Debug, Clone, Copy, PartialEq, Eq, Structural)]
pub enum OpenEvent {
    /// The descriptor of the new socket, or a negative number.
    SocketCreated { fd: i32 },
    /// The interface index, or zero where there is no such interface.
    InterfaceIndex { fd: i32, ifindex: i32 },
    /// The result of the bind call: negative where it failed.
    BindReturned { fd: i32, ret: i32 },
}

/// The state of the CAN output.
#[verifier::ext_equal]
pub struct CanState {
    /// Name of the CAN interface (empty = disabled).
    pub interface: Seq<char>,
    /// Descriptor of the bound socket.
    pub fd: Option<i32>,
    /// DroneCAN node ID that commands are sent from.
    pub node_id: u8,
    /// Number of commands started so far, modulo 256.
    pub transfer_id: u8,
}

/// The throttle for a motor value in thousandths of full power: the value,
/// clamped to full power, scaled to the maximum throttle and rounded down.
pub open spec fn throttle(motor: u16) -> i16 {
    let m = if motor < FULL_POWER { motor } else { FULL_POWER };
    (m * ESC_MAX_THROTTLE / FULL_POWER as int) as i16
}

/// The throttles for a list of motor values.
pub open spec fn throttles(motors: Seq<u16>) -> Seq<i16> {
    motors.map_values(|m: u16| throttle(m))
}

/// The number whose base-2^14 digits are the 14-bit (two's complement) values,
/// the first one lowest.
pub open spec fn pack(values: Seq<i16>) -> int
    decreases values.len(),
{
    if values.len() == 0 {
        0
    } else {
        values[0] as int % 0x4000 + 0x4000 * pack(values.drop_first())
    }
}

/// Number of bytes that `n` 14-bit values take up.
pub open spec fn payload_len(n: int) -> int {
    (n * 14 + 7) / 8
}

/// The RawCommand payload: the 14-bit values, packed one after the other from
/// the lowest bit of the first byte on.
pub open spec fn payload(values: Seq<i16>) -> Seq<u8> {
    crate::endian::le64(pack(values)).take(payload_len(values.len() as int))
}

/// The tail byte of a single-frame transfer: start and end of transfer set,
/// toggle clear, and the low five bits of the transfer ID.
pub open spec fn tail_byte(transfer_id: u8) -> u8 {
    (0xC0 + transfer_id % 0x20) as u8
}

/// The extended CAN identifier of an ESC command, with the extended-frame flag.
pub open spec fn esc_can_id(node_id: u8) -> int {
    0x8000_0000 + ESC_PRIORITY * 0x100_0000 + ESC_RAW_COMMAND_DTID * 0x100 + node_id % 0x80
}

/// `frame` commands these throttles in transfer `transfer_id` of node `node_id`.
pub open spec fn is_esc_frame(
    frame: CanFrame,
    node_id: u8,
    transfer_id: u8,
    values: Seq<i16>,
) -> bool {
    let len = payload_len(values.len() as int);
    &&& values.len() <= MAX_FRAME_MOTORS
    &&& frame.can_id == esc_can_id(node_id)
    &&& frame.can_dlc == len + 1
    &&& frame.data@ == payload(values) + seq![tail_byte(transfer_id)] + Seq::new(
        (7 - len) as nat,
        |i: int| 0u8,
    )
}

/// The throttle for a motor value in thousandths of full power.
fn scale_throttle(motor: u16) -> (t: i16)
    ensures
        t == throttle(motor),
        0 <= t <= ESC_MAX_THROTTLE,
{
    let m: u16 = if motor < FULL_POWER {
        motor
    } else {
        FULL_POWER
    };
    (m as u32 * 8191 / 1000) as i16
}

/// 2^14, to the power `k`.
spec fn pack_limit(k: nat) -> int
    decreases k,
{
    if k == 0 {
        1
    } else {
        0x4000 * pack_limit((k - 1) as nat)
    }
}

/// Packs up to four 14-bit values into one number.
fn pack_values(values: &[i16]) -> (acc: u64)
    requires
        values@.len() <= MAX_FRAME_MOTORS,
    ensures
        acc == pack(values@),
{
    let mut acc: u64 = 0;
    let mut i: usize = values.len();
    assert(values@.skip(i as int) =~= seq![]);
    proof {
        reveal_with_fuel(pack_limit, 5);
    }
    while i > 0
        invariant
            i <= values@.len() <= MAX_FRAME_MOTORS,
            acc == pack(values@.skip(i as int)),
            acc < pack_limit((values@.len() - i) as nat),
            pack_limit(0) == 1,
            pack_limit(1) == 0x4000,
            pack_limit(2) == 0x1000_0000,
            pack_limit(3) == 0x400_0000_0000,
            pack_limit(4) == 0x100_0000_0000_0000,
        decreases i,
    {
        i = i - 1;
        let v: i16 = values[i];
        let raw: u16 = v as u16 % 0x4000;
        proof {
            assert(v >= 0 ==> v as u16 == v) by (bit_vector);
            assert(v < 0 ==> v as u16 == v + 0x1_0000) by (bit_vector);
            assert(values@.skip(i as int).drop_first() =~= values@.skip(i + 1));
        }
        acc = raw as u64 + 0x4000 * acc;
    }
    assert(values@.skip(0) =~= values@);
    acc
}

/// The frame that commands the given throttles, each taken as a 14-bit value.
/// More than four do not fit in a single frame.
pub fn esc_frame(node_id: u8, transfer_id: u8, values: &[i16]) -> (r: Result<CanFrame, CanError>)
    ensures
        match r {
            Ok(frame) => is_esc_frame(frame, node_id, transfer_id, values@),
            Err(error) => values@.len() > MAX_FRAME_MOTORS && error == (CanError::TooManyMotors {
                motors: values@.len() as usize,
            }),
        },
{
    if values.len() > MAX_FRAME_MOTORS {
        return Err(CanError::TooManyMotors { motors: values.len() });
    }
    let mut packed: Vec<u8> = Vec::new();
    push_u64(&mut packed, pack_values(values));
    let len: usize = (values.len() * 14 + 7) / 8;
    // single-frame: SOT=1, EOT=1, toggle=0
    let tail: u8 = 0xC0 | (transfer_id & 0x1F);
    assert(tail == 0xC0 + transfer_id % 0x20) by (bit_vector)
        requires
            tail == 0xC0u8 | (transfer_id & 0x1F),
    ;
    let mut data: [u8; 8] = [0u8; 8];
    let mut i: usize = 0;
    while i < len
        invariant
            i <= len <= 7,
            packed@.len() == 8,
            forall|j: int| 0 <= j < i ==> data[j] == packed@[j],
            forall|j: int| i <= j < 8 ==> data[j] == 0u8,
        decreases len - i,
    {
        data[i] = packed[i];
        i = i + 1;
    }
    data[len] = tail;
    // priority=16 (medium), DTID=1030, source_node_id, extended frame flag
    let id: u32 = ((ESC_PRIORITY & 0x1F) << 24) | ((ESC_RAW_COMMAND_DTID as u32 & 0xFFFF) << 8) | (
    node_id as u32 & 0x7F);
    let can_id: u32 = id | 0x8000_0000;
    assert(can_id == 0x8000_0000 + 16 * 0x100_0000 + 1030 * 0x100 + node_id % 0x80) by (bit_vector)
        requires
            can_id == (((16u32 & 0x1F) << 24) | ((1030u16 as u32 & 0xFFFF) << 8) | (node_id as u32
                & 0x7F)) | 0x8000_0000,
    ;
    let frame = CanFrame { can_id, can_dlc: (len + 1) as u8, data };
    proof {
        assert(packed@ =~= crate::endian::le64(pack(values@)));
        assert(frame.data@ =~= payload(values@) + seq![tail_byte(transfer_id)] + Seq::new(
            (7 - len) as nat,
            |i: int| 0u8,
        ));
    }
    Ok(frame)
}

/// CAN output to the electronic speed controllers.
pub struct CanOutput {
    interface: String,
    fd: Option<i32>,
    node_id: u8,
    transfer_id: u8,
}

impl View for CanOutput {
    type V = CanState;

    closed spec fn view(&self) -> CanState {
        CanState {
            interface: self.interface@,
            fd: self.fd,
            node_id: self.node_id,
            transfer_id: self.transfer_id,
        }
    }
}

impl CanState {
    /// CAN output is configured.
    pub open spec fn enabled(self) -> bool {
        self.interface.len() > 0
    }

    /// The interface name can be handed to the operating system.
    pub open spec fn name_valid(self) -> bool {
        !self.interface.contains('\0')
    }

    /// The step that answers `event` while the interface is being opened.
    pub open spec fn open_step(self, event: OpenEvent) -> OpenStep {
        match event {
            OpenEvent::SocketCreated { fd } => if fd < 0 {
                OpenStep::Fail { error: CanError::SocketFailed, close: None }
            } else if !self.name_valid() {
                OpenStep::Fail { error: CanError::InvalidInterfaceName, close: None }
            } else {
                OpenStep::LookUpInterface { fd }
            },
            OpenEvent::InterfaceIndex { fd, ifindex } => if ifindex == 0 {
                OpenStep::Fail { error: CanError::InterfaceNotFound, close: Some(fd) }
            } else {
                OpenStep::BindSocket { fd, ifindex }
            },
            OpenEvent::BindReturned { fd, ret } => if ret < 0 {
                OpenStep::Fail { error: CanError::BindFailed, close: Some(fd) }
            } else {
                OpenStep::Finished
            },
        }
    }

    /// The state after `event`: a socket is kept once it is bound.
    pub open spec fn after_open_event(self, event: OpenEvent) -> CanState {
        match event {
            OpenEvent::BindReturned { fd, ret } => if ret < 0 {
                self
            } else {
                CanState { fd: Some(fd), ..self }
            },
            _ => self,
        }
    }

    /// The state after a command was started.
    pub open spec fn after_command(self) -> CanState {
        CanState {
            transfer_id: if self.transfer_id == 255 {
                0
            } else {
                (self.transfer_id + 1) as u8
            },
            ..self
        }
    }

    /// What sending `motors` from this state results in.
    pub open spec fn command_result(
        self,
        motors: Seq<u16>,
        r: Result<Option<CanFrame>, CanError>,
    ) -> bool {
        if self.fd is None {
            r == Ok::<Option<CanFrame>, CanError>(None)
        } else if motors.len() > MAX_FRAME_MOTORS {
            r == Err::<Option<CanFrame>, CanError>(
                CanError::TooManyMotors { motors: motors.len() as usize },
            )
        } else {
            r matches Ok(Some(frame)) && is_esc_frame(
                frame,
                self.node_id,
                self.transfer_id,
                throttles(motors),
            )
        }
    }
}

impl CanOutput {
    pub fn new(interface: &str) -> (can: Self)
        ensures
            can@ == (CanState {
                interface: interface@,
                fd: None,
                node_id: DEFAULT_NODE_ID,
                transfer_id: 0,
            }),
    {
        CanOutput {
            interface: interface.to_string(),
            fd: None,
            node_id: DEFAULT_NODE_ID,
            transfer_id: 0,
        }
    }

    pub fn is_enabled(&self) -> (r: bool)
        ensures
            r == self@.enabled(),
    {
        !self.interface.as_str().is_empty()
    }

    /// Name of the configured interface.
    pub fn interface(&self) -> (name: &str)
        ensures
            name@ == self@.interface,
    {
        self.interface.as_str()
    }

    /// The first step of opening the interface.
    pub fn open(&self) -> (step: OpenStep)
        ensures
            step == if self@.enabled() {
                OpenStep::CreateSocket
            } else {
                OpenStep::Finished
            },
    {
        if self.is_enabled() {
            OpenStep::CreateSocket
        } else {
            OpenStep::Finished
        }
    }

    /// The step that follows once the last one had the given outcome.
    pub fn open_next(&mut self, event: OpenEvent) -> (step: OpenStep)
        ensures
            step == old(self)@.open_step(event),
            final(self)@ == old(self)@.after_open_event(event),
    {
        match event {
            OpenEvent::SocketCreated { fd } => {
                if fd < 0 {
                    OpenStep::Fail { error: CanError::SocketFailed, close: None }
                } else if has_nul(self.interface.as_str()) {
                    OpenStep::Fail { error: CanError::InvalidInterfaceName, close: None }
                } else {
                    OpenStep::LookUpInterface { fd }
                }
            },
            OpenEvent::InterfaceIndex { fd, ifindex } => {
                if ifindex == 0 {
                    OpenStep::Fail { error: CanError::InterfaceNotFound, close: Some(fd) }
                } else {
                    OpenStep::BindSocket { fd, ifindex }
                }
            },
            OpenEvent::BindReturned { fd, ret } => {
                if ret < 0 {
                    OpenStep::Fail { error: CanError::BindFailed, close: Some(fd) }
                } else {
                    self.fd = Some(fd);
                    OpenStep::Finished
                }
            },
        }
    }

    /// Descriptor of the bound socket, if the interface is open.
    pub fn fd(&self) -> (fd: Option<i32>)
        ensures
            fd == self@.fd,
    {
        self.fd
    }

    /// Gives up the socket, which the caller then closes.
    pub fn take_fd(&mut self) -> (fd: Option<i32>)
        ensures
            fd == old(self)@.fd,
            final(self)@ == (CanState { fd: None, ..old(self)@ }),
    {
        self.fd.take()
    }

    /// The frame that commands the given motor values (in thousandths of full
    /// power), to be written to the socket. There is none while the interface
    /// is not open. Every command takes up a transfer ID, even one that does
    /// not fit in a frame.
    pub fn send_esc_command(&mut self, motors: &[u16]) -> (r: Result<Option<CanFrame>, CanError>)
        ensures
            old(self)@.command_result(motors@, r),
            final(self)@ == if old(self)@.fd is None {
                old(self)@
            } else {
                old(self)@.after_command()
            },
    {
        if self.fd.is_none() {
            return Ok(None);
        }
        let transfer_id: u8 = self.transfer_id;
        self.transfer_id = self.transfer_id.wrapping_add(1);
        if motors.len() > MAX_FRAME_MOTORS {
            return Err(CanError::TooManyMotors { motors: motors.len() });
        }
        let mut values: Vec<i16> = Vec::new();
        let mut i: usize = 0;
        while i < motors.len()
            invariant
                i <= motors@.len(),
                values@ == throttles(motors@.take(i as int)),
            decreases motors@.len() - i,
        {
            values.push(scale_throttle(motors[i]));
            i = i + 1;
            assert(values@ =~= throttles(motors@.take(i as int)));
        }
        assert(motors@.take(i as int) =~= motors@);
        match esc_frame(self.node_id, transfer_id, values.as_slice()) {
            Ok(frame) => Ok(Some(frame)),
            Err(error) => Err(error),
        }
    }

    /// Commands the first `n` channels of `servo` as motors, if CAN output is
    /// enabled.
    pub fn drive_motors(&mut self, servo: &ServoOutput, n: usize) -> (r: Result<
        Option<CanFrame>,
        CanError,
    >)
        requires
            n <= NUM_SERVO_CHANNELS,
        ensures
            ({
                let motors = Seq::new(n as nat, |i: int| normalized(servo.pwm[i]));
                if old(self)@.enabled() {
                    old(self)@.command_result(motors, r)
                } else {
                    r == Ok::<Option<CanFrame>, CanError>(None)
                }
            }),
            final(self)@ == if old(self)@.enabled() && old(self)@.fd is Some {
                old(self)@.after_command()
            } else {
                old(self)@
            },
    {
        if !self.is_enabled() {
            return Ok(None);
        }
        let motors = servo.motors_normalized(n);
        self.send_esc_command(motors.as_slice())
    }
}

/// Whether the text holds a NUL character.
fn has_nul(s: &str) -> (r: bool)
    ensures
        r == s@.contains('\0'),
{
    let n: usize = s.unicode_len();
    let mut i: usize = 0;
    while i < n
        invariant
            i <= n == s@.len(),
            forall|j: int| 0 <= j < i ==> s@[j] != '\0',
        decreases n - i,
    {
        if s.get_char(i) == '\0' {
            assert(s@[i as int] == '\0');
            return true;
        }
        i = i + 1;
    }
    false
}

impl CanState {
    /// The state and the last step after opening the interface, where the
    /// socket call returns `fd`, the lookup `ifindex` and the bind call `ret`.
    pub open spec fn open_run(self, fd: i32, ifindex: i32, ret: i32) -> (CanState, OpenStep) {
        let created = OpenEvent::SocketCreated { fd };
        let found = OpenEvent::InterfaceIndex { fd, ifindex };
        let bound = OpenEvent::BindReturned { fd, ret };
        if !self.enabled() {
            (self, OpenStep::Finished)
        } else if !(self.open_step(created) is LookUpInterface) {
            (self.after_open_event(created), self.open_step(created))
        } else if !(self.open_step(found) is BindSocket) {
            (self.after_open_event(found), self.open_step(found))
        } else {
            (self.after_open_event(bound), self.open_step(bound))
        }
    }
}

/// Opening keeps the socket exactly where CAN output is enabled and every call
/// succeeds, fails exactly where it is enabled and one does not, and otherwise
/// leaves the state as it was.
pub proof fn open_keeps_only_a_bound_socket(s: CanState, fd: i32, ifindex: i32, ret: i32)
    ensures
        ({
            let (after, last) = s.open_run(fd, ifindex, ret);
            let good = fd >= 0 && s.name_valid() && ifindex != 0 && ret >= 0;
            &&& last is Finished <==> (!s.enabled() || good)
            &&& last is Fail <==> (s.enabled() && !good)
            &&& after == if s.enabled() && good {
                CanState { fd: Some(fd), ..s }
            } else {
                s
            }
        }),
{
}

/// No socket is lost while opening: one that was created is either kept or
/// handed back to be closed, and never both.
pub proof fn open_accounts_for_the_socket(s: CanState, fd: i32, ifindex: i32, ret: i32)
    requires
        s.enabled(),
        s.name_valid(),
        fd >= 0,
    ensures
        ({
            let (after, last) = s.open_run(fd, ifindex, ret);
            match last {
                OpenStep::Finished => after.fd == Some(fd),
                OpenStep::Fail { error, close } => close == Some(fd) && after == s,
                _ => false,
            }
        }),
{
}

/// Throttles never leave their range, grow with the motor value, and reach
/// both ends of the range.
pub proof fn throttle_is_monotone(a: u16, b: u16)
    requires
        a <= b,
    ensures
        0 <= throttle(a) <= throttle(b) <= ESC_MAX_THROTTLE,
        throttle(0) == 0,
        b >= FULL_POWER ==> throttle(b) == ESC_MAX_THROTTLE,
{
}

/// A longer pulse never commands less throttle; pulses up to 1000 us stop the
/// motor and pulses from 2000 us on command full throttle.
pub proof fn pulse_to_throttle_is_monotone(a: u16, b: u16)
    requires
        a <= b,
    ensures
        throttle(normalized(a)) <= throttle(normalized(b)),
        b <= PWM_STOP_US ==> throttle(normalized(b)) == 0,
        a >= PWM_FULL_US ==> throttle(normalized(a)) == ESC_MAX_THROTTLE,
{
    throttle_is_monotone(normalized(a), normalized(b));
}

/// Commands are numbered: each transfer carries the five-bit number that
/// follows the one before it, wrapping around after 31.
pub proof fn transfers_count_up(s: CanState)
    ensures
        tail_byte(s.after_command().transfer_id) == 0xC0 + (tail_byte(s.transfer_id) - 0xC0 + 1)
            % 0x20,
{
}

/// A packed number determines the 14-bit values.
proof fn pack_determines_values(a: Seq<i16>, b: Seq<i16>, i: int)
    requires
        a.len() == b.len(),
        pack(a) == pack(b),
        0 <= i < a.len(),
    ensures
        a[i] as int % 0x4000 == b[i] as int % 0x4000,
    decreases a.len(),
{
    if i > 0 {
        pack_determines_values(a.drop_first(), b.drop_first(), i - 1);
    }
}

/// The packed number of `values` is bounded by their count.
proof fn pack_bound(values: Seq<i16>)
    ensures
        0 <= pack(values) < pack_limit(values.len()),
    decreases values.len(),
{
    if values.len() > 0 {
        pack_bound(values.drop_first());
    }
}

/// The bytes past the payload of `n` values are zero in their packed number.
proof fn high_bytes_are_zero(x: int, n: nat)
    requires
        n <= MAX_FRAME_MOTORS,
        0 <= x < pack_limit(n),
    ensures
        forall|j: int| payload_len(n as int) <= j < 8 ==> crate::endian::le64(x)[j] == 0,
{
    reveal_with_fuel(pack_limit, 5);
    reveal(crate::endian::le16);
    let high = x / 0x1_0000_0000;
    let bytes = crate::endian::le64(x);
    assert(bytes[7] == high / 0x1_0000 / 0x100 % 0x100);
    assert(bytes[6] == high / 0x1_0000 % 0x100);
    assert(bytes[5] == high / 0x100 % 0x100);
    assert(bytes[4] == high % 0x100);
    assert(bytes[3] == x / 0x1_0000 / 0x100 % 0x100);
    assert(bytes[2] == x / 0x1_0000 % 0x100);
    assert(bytes[1] == x / 0x100 % 0x100);
    assert(bytes[0] == x % 0x100);
    assert(n == 0 || n == 1 || n == 2 || n == 3 || n == 4);
}

/// A payload determines the packed number.
proof fn payload_determines_number(a: Seq<i16>, b: Seq<i16>)
    requires
        a.len() == b.len() <= MAX_FRAME_MOTORS,
        payload(a) == payload(b),
    ensures
        pack(a) == pack(b),
{
    let len = payload_len(a.len() as int);
    pack_bound(a);
    pack_bound(b);
    high_bytes_are_zero(pack(a), a.len());
    high_bytes_are_zero(pack(b), b.len());
    let (ea, eb) = (crate::endian::le64(pack(a)), crate::endian::le64(pack(b)));
    assert forall|j: int| 0 <= j < 8 implies ea[j] == eb[j] by {
        if j < len {
            assert(payload(a)[j] == ea[j] && payload(b)[j] == eb[j]);
        }
    }
    assert(ea.len() == 8 && eb.len() == 8);
    assert(ea =~= eb);
    le64_determined(pack(a), pack(b));
    assert(pack_limit(a.len()) <= 0x100_0000_0000_0000) by {
        reveal_with_fuel(pack_limit, 5);
    }
}

/// A frame says all there is to know: it determines the number of motors, each
/// 14-bit throttle, the low five bits of the transfer ID and the low seven of
/// the node ID.
pub proof fn frame_determines_command(
    frame: CanFrame,
    node_a: u8,
    transfer_a: u8,
    a: Seq<i16>,
    node_b: u8,
    transfer_b: u8,
    b: Seq<i16>,
)
    requires
        is_esc_frame(frame, node_a, transfer_a, a),
        is_esc_frame(frame, node_b, transfer_b, b),
    ensures
        a.len() == b.len(),
        forall|i: int| 0 <= i < a.len() ==> a[i] as int % 0x4000 == b[i] as int % 0x4000,
        transfer_a % 0x20 == transfer_b % 0x20,
        node_a % 0x80 == node_b % 0x80,
{
    let n = a.len() as int;
    let len = payload_len(n);
    assert(a.len() == b.len());
    let zeros = Seq::new((7 - len) as nat, |i: int| 0u8);
    let (ta, tb) = (seq![tail_byte(transfer_a)], seq![tail_byte(transfer_b)]);
    append_injective(payload(a) + ta, zeros, payload(b) + tb, zeros);
    append_injective(payload(a), ta, payload(b), tb);
    assert(ta[0] == tb[0]);
    payload_determines_number(a, b);
    assert forall|i: int| 0 <= i < a.len() implies a[i] as int % 0x4000 == b[i] as int
        % 0x4000 by {
        pack_determines_values(a, b, i);
    }
}

/// A throttle is the largest whole number that is at most 8191 times the motor
/// value, taken as no more than full power.
pub proof fn throttle_is_scaled(motor: u16)
    ensures
        motor <= 1000 ==> 1000 * throttle(motor) <= motor * 8191 < 1000 * (throttle(motor) + 1),
        motor > 1000 ==> throttle(motor) == 8191,
        0 <= throttle(motor) <= 8191,
{
}

/// A number has one lowest 14-bit digit.
proof fn one_low_digit(a: int, x: int, b: int, y: int)
    requires
        0 <= a < 0x4000,
        0 <= b < 0x4000,
        a + 0x4000 * x == b + 0x4000 * y,
    ensures
        a == b,
        x == y,
{
}

/// The bytes of a payload are those of the packed number.
proof fn payload_bytes(frame: CanFrame, node_id: u8, transfer_id: u8, values: Seq<i16>)
    requires
        is_esc_frame(frame, node_id, transfer_id, values),
    ensures
        ({
            let len = payload_len(values.len() as int);
            let bytes = crate::endian::le64(pack(values));
            &&& len <= 7
            &&& bytes.len() == 8
            &&& forall|j: int| 0 <= j < len ==> frame.data[j] == bytes[j]
            &&& frame.data[len] == tail_byte(transfer_id)
            &&& forall|j: int| len < j < 8 ==> frame.data[j] == 0
        }),
{
    let len = payload_len(values.len() as int);
    let bytes = crate::endian::le64(pack(values));
    le64_is_little_endian(pack(values));
    assert(payload(values).len() == len);
    assert forall|j: int| 0 <= j < len implies frame.data[j] == bytes[j] by {
        assert(frame.data@[j] == payload(values)[j]);
    }
    assert(frame.data@[len] == tail_byte(transfer_id));
    assert forall|j: int| len < j < 8 implies frame.data[j] == 0 by {
        assert(frame.data@[j] == 0);
    }
}

/// The packed number, digit by digit and byte by byte.
proof fn packed_digits(values: Seq<i16>)
    requires
        values.len() <= 4,
    ensures
        ({
            let b = crate::endian::le64(pack(values));
            let n = values.len();
            &&& n > 0 ==> b[0] + 0x100 * (b[1] % 0x40) == values[0] as int % 0x4000
            &&& n > 1 ==> b[1] / 0x40 + 4 * b[2] + 0x400 * (b[3] % 0x10) == values[1] as int
                % 0x4000
            &&& n > 2 ==> b[3] / 0x10 + 0x10 * b[4] + 0x1000 * (b[5] % 4) == values[2] as int
                % 0x4000
            &&& n > 3 ==> b[5] / 4 + 0x40 * b[6] == values[3] as int % 0x4000
            &&& n == 1 ==> b[1] < 0x40
            &&& n == 2 ==> b[3] < 0x10
            &&& n == 3 ==> b[5] < 4
        }),
{
    let x = pack(values);
    let b = crate::endian::le64(x);
    let n = values.len();
    pack_bound(values);
    pack_limit_values(n);
    le64_is_little_endian(x);
    digits_from_bytes(
        x,
        b[0] as int,
        b[1] as int,
        b[2] as int,
        b[3] as int,
        b[4] as int,
        b[5] as int,
        b[6] as int,
        b[7] as int,
    );
    let (d0, d1) = (x % 0x4000, x / 0x4000 % 0x4000);
    let (d2, d3) = (x / 0x1000_0000 % 0x4000, x / 0x400_0000_0000);
    if n > 0 {
        let v1 = values.drop_first();
        pack_bound(v1);
        one_low_digit(d0, x / 0x4000, values[0] as int % 0x4000, pack(v1));
        if n > 1 {
            let v2 = v1.drop_first();
            pack_bound(v2);
            one_low_digit(d1, x / 0x1000_0000, v1[0] as int % 0x4000, pack(v2));
            if n > 2 {
                let v3 = v2.drop_first();
                pack_bound(v3);
                one_low_digit(d2, d3, v2[0] as int % 0x4000, pack(v3));
                if n > 3 {
                    assert(v3.drop_first().len() == 0);
                    assert(pack(v3.drop_first()) == 0);
                    assert(v3[0] == values[3]);
                }
            }
        }
    }
}

/// The limits of a packed number.
proof fn pack_limit_values(n: nat)
    requires
        n <= 4,
    ensures
        n == 0 ==> pack_limit(n) == 1,
        n == 1 ==> pack_limit(n) == 0x4000,
        n == 2 ==> pack_limit(n) == 0x1000_0000,
        n == 3 ==> pack_limit(n) == 0x400_0000_0000,
        n == 4 ==> pack_limit(n) == 0x100_0000_0000_0000,
{
    reveal_with_fuel(pack_limit, 5);
}

/// The 14-bit digits of a number of 56 bits, from its bytes.
proof fn digits_from_bytes(
    x: int,
    b0: int,
    b1: int,
    b2: int,
    b3: int,
    b4: int,
    b5: int,
    b6: int,
    b7: int,
)
    requires
        0 <= b0 < 0x100,
        0 <= b1 < 0x100,
        0 <= b2 < 0x100,
        0 <= b3 < 0x100,
        0 <= b4 < 0x100,
        0 <= b5 < 0x100,
        0 <= b6 < 0x100,
        0 <= b7,
        0 <= x < 0x100_0000_0000_0000,
        x == b0 + 0x100 * b1 + 0x1_0000 * b2 + 0x100_0000 * b3 + 0x1_0000_0000 * b4
            + 0x100_0000_0000 * b5 + 0x1_0000_0000_0000 * b6 + 0x100_0000_0000_0000 * b7,
    ensures
        b0 + 0x100 * (b1 % 0x40) == x % 0x4000,
        b1 / 0x40 + 4 * b2 + 0x400 * (b3 % 0x10) == x / 0x4000 % 0x4000,
        b3 / 0x10 + 0x10 * b4 + 0x1000 * (b5 % 4) == x / 0x1000_0000 % 0x4000,
        b5 / 4 + 0x40 * b6 == x / 0x400_0000_0000,
        x / 0x4000 == x / 0x4000 % 0x4000 + 0x4000 * (x / 0x1000_0000),
        x / 0x1000_0000 == x / 0x1000_0000 % 0x4000 + 0x4000 * (x / 0x400_0000_0000),
        x < 0x4000 ==> b1 < 0x40,
        x < 0x1000_0000 ==> b3 < 0x10,
        x < 0x400_0000_0000 ==> b5 < 4,
{
    assert(b7 == 0);
    let d0 = b0 + 0x100 * (b1 % 0x40);
    let d1 = b1 / 0x40 + 4 * b2 + 0x400 * (b3 % 0x10);
    let d2 = b3 / 0x10 + 0x10 * b4 + 0x1000 * (b5 % 4);
    let d3 = b5 / 4 + 0x40 * b6;
    let x2 = d2 + 0x4000 * d3;
    let x1 = d1 + 0x4000 * x2;
    assert(x == d0 + 0x4000 * x1);
    one_low_digit(d0, x1, x % 0x4000, x / 0x4000);
    one_low_digit(d1, x2, x1 % 0x4000, x1 / 0x4000);
    one_low_digit(d2, d3, x2 % 0x4000, x2 / 0x4000);
    assert(x1 / 0x4000 == x / 0x1000_0000);
    assert(x2 / 0x4000 == x / 0x400_0000_0000);
}

/// Where everything stands in the frame for raw throttles: each throttle is the
/// 14-bit digit in its own place, modulo 2^14, the bits after the last are
/// clear, the tail byte follows and then zeros.
pub proof fn esc_frame_layout(frame: CanFrame, node_id: u8, transfer_id: u8, values: Seq<i16>)
    requires
        is_esc_frame(frame, node_id, transfer_id, values),
    ensures
        ({
            let d = frame.data;
            let n = values.len();
            &&& n <= 4
            &&& frame.can_id == 0x9004_0600 + node_id as int % 0x80
            &&& n > 0 ==> d[0] + 0x100 * (d[1] % 0x40) == values[0] as int % 0x4000
            &&& n > 1 ==> d[1] / 0x40 + 4 * d[2] + 0x400 * (d[3] % 0x10) == values[1] as int
                % 0x4000
            &&& n > 2 ==> d[3] / 0x10 + 0x10 * d[4] + 0x1000 * (d[5] % 4) == values[2] as int
                % 0x4000
            &&& n > 3 ==> d[5] / 4 + 0x40 * d[6] == values[3] as int % 0x4000
            &&& n == 1 ==> d[1] < 0x40
            &&& n == 2 ==> d[3] < 0x10
            &&& n == 3 ==> d[5] < 4
            &&& n == 0 ==> frame.can_dlc == 1
            &&& n == 1 ==> frame.can_dlc == 3
            &&& n == 2 ==> frame.can_dlc == 5
            &&& n == 3 ==> frame.can_dlc == 7
            &&& n == 4 ==> frame.can_dlc == 8
            &&& d[frame.can_dlc - 1] == 0xC0 + transfer_id as int % 0x20
            &&& forall|j: int| frame.can_dlc <= j < 8 ==> d[j] == 0
        }),
{
    payload_bytes(frame, node_id, transfer_id, values);
    packed_digits(values);
    let n = values.len();
    assert(n == 0 || n == 1 || n == 2 || n == 3 || n == 4);
}

/// What a command tells each motor: its own throttle, which is its value, taken
/// as no more than full power, times 8191 and rounded down, in its own place,
/// whatever the other motors are told.
pub proof fn each_motor_gets_its_own_throttle(
    s: CanState,
    motors: Seq<u16>,
    r: Result<Option<CanFrame>, CanError>,
)
    requires
        s.fd is Some,
        motors.len() <= 4,
        s.command_result(motors, r),
    ensures
        r is Ok,
        r->Ok_0 is Some,
        ({
            let frame = r->Ok_0->0;
            let d = frame.data;
            let n = motors.len();
            let t0 = d[0] + 0x100 * (d[1] % 0x40);
            let t1 = d[1] / 0x40 + 4 * d[2] + 0x400 * (d[3] % 0x10);
            let t2 = d[3] / 0x10 + 0x10 * d[4] + 0x1000 * (d[5] % 4);
            let t3 = d[5] / 4 + 0x40 * d[6];
            &&& n > 0 && motors[0] <= 1000 ==> 1000 * t0 <= motors[0] * 8191 < 1000 * (t0 + 1)
            &&& n > 1 && motors[1] <= 1000 ==> 1000 * t1 <= motors[1] * 8191 < 1000 * (t1 + 1)
            &&& n > 2 && motors[2] <= 1000 ==> 1000 * t2 <= motors[2] * 8191 < 1000 * (t2 + 1)
            &&& n > 3 && motors[3] <= 1000 ==> 1000 * t3 <= motors[3] * 8191 < 1000 * (t3 + 1)
            &&& n > 0 && motors[0] > 1000 ==> t0 == 8191
            &&& n > 1 && motors[1] > 1000 ==> t1 == 8191
            &&& n > 2 && motors[2] > 1000 ==> t2 == 8191
            &&& n > 3 && motors[3] > 1000 ==> t3 == 8191
            &&& frame.can_id == 0x9004_0600 + s.node_id as int % 0x80
            &&& n == 0 ==> frame.can_dlc == 1
            &&& n == 1 ==> frame.can_dlc == 3 && d[1] < 0x40
            &&& n == 2 ==> frame.can_dlc == 5 && d[3] < 0x10
            &&& n == 3 ==> frame.can_dlc == 7 && d[5] < 4
            &&& n == 4 ==> frame.can_dlc == 8
            &&& d[frame.can_dlc - 1] == 0xC0 + s.transfer_id as int % 0x20
            &&& forall|j: int| frame.can_dlc <= j < 8 ==> d[j] == 0
        }),
{
    let frame = r->Ok_0->0;
    let values = throttles(motors);
    esc_frame_layout(frame, s.node_id, s.transfer_id, values);
    if motors.len() > 0 {
        throttle_digit(motors, 0);
    }
    if motors.len() > 1 {
        throttle_digit(motors, 1);
    }
    if motors.len() > 2 {
        throttle_digit(motors, 2);
    }
    if motors.len() > 3 {
        throttle_digit(motors, 3);
    }
}

/// The 14-bit digit for a motor.
proof fn throttle_digit(motors: Seq<u16>, i: int)
    requires
        0 <= i < motors.len(),
    ensures
        ({
            let t = throttles(motors)[i] as int % 0x4000;
            &&& motors[i] <= 1000 ==> 1000 * t <= motors[i] * 8191 < 1000 * (t + 1)
            &&& motors[i] > 1000 ==> t == 8191
        }),
{
    throttle_is_scaled(motors[i]);
}

/// When there is no frame: none and no error while the interface is not open,
/// and otherwise an error that tells the number of motors, exactly where there
/// are more than four.
pub proof fn commands_fail_only_for_too_many_motors(
    s: CanState,
    motors: Seq<u16>,
    r: Result<Option<CanFrame>, CanError>,
)
    requires
        s.command_result(motors, r),
        motors.len() <= usize::MAX,
    ensures
        s.fd is None <==> r is Ok && r->Ok_0 is None,
        r is Err <==> s.fd is Some && motors.len() > 4,
        r matches Err(error) ==> error is TooManyMotors && error->motors == motors.len(),
{
}

/// A command takes up one transfer ID, modulo 256, and changes nothing else.
pub proof fn commands_only_take_a_transfer_id(s: CanState)
    ensures
        s.after_command().interface == s.interface,
        s.after_command().fd == s.fd,
        s.after_command().node_id == s.node_id,
        s.after_command().transfer_id as int == (s.transfer_id + 1) % 256,
{
}

/// CAN output is enabled exactly where the interface has a name.
pub proof fn a_name_enables_can_output(s: CanState)
    ensures
        s.enabled() <==> s.interface != Seq::<char>::empty(),
{
    if s.interface.len() == 0 {
        assert(s.interface =~= Seq::<char>::empty());
    }
}

/// What follows each call while the interface is opened: the descriptor and the
/// index are passed on as they came, every failure has its own error, and the
/// socket is to be closed where a later call failed.
pub proof fn each_call_has_its_answer(s: CanState, fd: i32, ifindex: i32, ret: i32)
    ensures
        ({
            let created = s.open_step(OpenEvent::SocketCreated { fd });
            let named = forall|i: int| 0 <= i < s.interface.len() ==> s.interface[i] != '\0';
            &&& fd < 0 <==> created is Fail && created->error is SocketFailed
            &&& fd >= 0 && !named <==> created is Fail && created->error is InvalidInterfaceName
            &&& fd >= 0 && named <==> created is LookUpInterface
            &&& created is LookUpInterface ==> created->LookUpInterface_fd == fd
            &&& created is Fail ==> created->close is None
        }),
        ({
            let found = s.open_step(OpenEvent::InterfaceIndex { fd, ifindex });
            &&& ifindex == 0 <==> found is Fail
            &&& ifindex != 0 <==> found is BindSocket
            &&& found is Fail ==> found->error is InterfaceNotFound && found->close == Some(fd)
            &&& found is BindSocket ==> found->BindSocket_fd == fd && found->ifindex == ifindex
        }),
        ({
            let bound = s.open_step(OpenEvent::BindReturned { fd, ret });
            &&& ret < 0 <==> bound is Fail
            &&& ret >= 0 <==> bound is Finished
            &&& bound is Fail ==> bound->error is BindFailed && bound->close == Some(fd)
        }),
        s.after_open_event(OpenEvent::SocketCreated { fd }) == s,
        s.after_open_event(OpenEvent::InterfaceIndex { fd, ifindex }) == s,
        ({
            let after = s.after_open_event(OpenEvent::BindReturned { fd, ret });
            &&& after.fd == if ret < 0 { s.fd } else { Some(fd) }
            &&& after.interface == s.interface
            &&& after.node_id == s.node_id
            &&& after.transfer_id == s.transfer_id
        }),
{
    if s.interface.contains('\0') {
        let i = choose|i: int| 0 <= i < s.interface.len() && s.interface[i] == '\0';
        assert(s.interface[i] == '\0');
    }
}

} // verus!
