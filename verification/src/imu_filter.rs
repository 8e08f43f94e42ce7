//! Sample windows of the coning and sculling IMU pre-integrator.
//!
//! Collects N high-rate (1500 Hz) IMU samples, from which one corrected sample
//! at ~400 Hz is computed for ArduPilot's SCHED_LOOP_RATE.
//!
//! The integration itself works on floating-point numbers; here samples are
//! held as IEEE 754 bit patterns, which are admitted, ordered and handed out
//! one full window at a time.

#[allow(unused_imports)]
use vstd::arithmetic::power2::{lemma_pow2_pos, lemma_pow2_strictly_increases, lemma_pow2_unfold, pow2};
use vstd::prelude::*;

verus! {

/// Number of samples that one output is computed from.
pub const SAMPLES_PER_OUTPUT: usize = 4;

/// The `f64` bit pattern of the longest sample interval, 0.1 s.
pub const MAX_INTERVAL_BITS: u64 = 0x3FB9_9999_9999_999A;

/// The `f64` bit pattern of infinity. Positive patterns above it are not numbers.
pub const INFINITY_BITS: u64 = 0x7FF0_0000_0000_0000;

/// The sign bit of an `f64`.
pub const SIGN_BIT: u64 = 0x8000_0000_0000_0000;

/// One raw IMU sample in the FRD frame, as `f64` bit patterns.
#[derive(Debug, Clone, Copy)]
pub struct ImuSample {
    /// rad/s
    pub gyro: [u64; 3],
    /// m/s^2
    pub accel: [u64; 3],
    /// Time since the sample before (s).
    pub dt: u64,
}

/// The magnitude bits of an `f64` pattern.
pub open spec fn magnitude(bits: u64) -> int {
    bits as int % (SIGN_BIT as int)
}

/// The interval is above zero and no longer than 0.1 s; a pattern that is not
/// a number passes as well, since it is neither too short nor too long.
///
/// Among patterns with a clear sign bit, the order of the numbers is the order
/// of the patterns.
pub open spec fn interval_accepted(dt: u64) -> bool {
    ||| magnitude(dt) > INFINITY_BITS
    ||| 0 < dt <= MAX_INTERVAL_BITS
}

/// Accumulates accepted samples until a window is full.
pub struct ConingIntegrator {
    window: Vec<ImuSample>,
}

impl View for ConingIntegrator {
    type V = Seq<ImuSample>;

    closed spec fn view(&self) -> Seq<ImuSample> {
        self.window@
    }
}

/// The pending samples after `sample`, and the window that it completes.
pub open spec fn push_spec(pending: Seq<ImuSample>, sample: ImuSample) -> (
    Seq<ImuSample>,
    Option<Seq<ImuSample>>,
) {
    if !interval_accepted(sample.dt) {
        (pending, None)
    } else if pending.len() + 1 < SAMPLES_PER_OUTPUT {
        (pending.push(sample), None)
    } else {
        (seq![], Some(pending.push(sample)))
    }
}

impl ConingIntegrator {
    /// The window is never full between two samples.
    pub open spec fn wf(&self) -> bool {
        self@.len() < SAMPLES_PER_OUTPUT
    }

    pub fn new() -> (filter: Self)
        ensures
            filter.wf(),
            filter@ == Seq::<ImuSample>::empty(),
    {
        ConingIntegrator { window: Vec::new() }
    }

    /// Feed one raw IMU sample (already in FRD frame).
    /// Returns the window to integrate every SAMPLES_PER_OUTPUT accepted samples.
    pub fn push(&mut self, gyro_rads: [u64; 3], accel_ms2: [u64; 3], dt: u64) -> (r: Option<
        Vec<ImuSample>,
    >)
        requires
            old(self).wf(),
        ensures
            final(self).wf(),
            ({
                let sample = ImuSample { gyro: gyro_rads, accel: accel_ms2, dt };
                let (pending, full) = push_spec(old(self)@, sample);
                &&& final(self)@ == pending
                &&& match r {
                    Some(window) => full == Some(window@),
                    None => full is None,
                }
            }),
    {
        let not_a_number: bool = dt % SIGN_BIT > INFINITY_BITS;
        if !not_a_number && (dt == 0 || dt > MAX_INTERVAL_BITS) {
            return None;
        }
        self.window.push(ImuSample { gyro: gyro_rads, accel: accel_ms2, dt });
        if self.window.len() < SAMPLES_PER_OUTPUT {
            return None;
        }
        let mut full: Vec<ImuSample> = Vec::new();
        std::mem::swap(&mut full, &mut self.window);
        Some(full)
    }
}

/// The samples of a stream that are accepted, in order.
pub open spec fn accepted(stream: Seq<ImuSample>) -> Seq<ImuSample> {
    stream.filter(|s: ImuSample| interval_accepted(s.dt))
}

/// The pending samples and the windows handed out, after a whole stream was
/// pushed into a new integrator.
pub open spec fn run(stream: Seq<ImuSample>) -> (Seq<ImuSample>, Seq<Seq<ImuSample>>)
    decreases stream.len(),
{
    if stream.len() == 0 {
        (seq![], seq![])
    } else {
        let (pending, windows) = run(stream.drop_last());
        let (after, full) = push_spec(pending, stream.last());
        match full {
            Some(window) => (after, windows.push(window)),
            None => (after, windows),
        }
    }
}

/// Every accepted sample is integrated exactly once and in order: the windows
/// handed out, one after the other, followed by the pending samples, are the
/// accepted samples of the stream. Each window is full.
pub proof fn windows_partition_the_stream(stream: Seq<ImuSample>)
    ensures
        ({
            let (pending, windows) = run(stream);
            &&& pending.len() < SAMPLES_PER_OUTPUT
            &&& forall|i: int|
                0 <= i < windows.len() ==> #[trigger] windows[i].len() == SAMPLES_PER_OUTPUT
            &&& windows.flatten() + pending == accepted(stream)
        }),
    decreases stream.len(),
{
    reveal(Seq::filter);
    if stream.len() == 0 {
        assert(Seq::<Seq<ImuSample>>::empty().flatten() =~= seq![]);
    } else {
        windows_partition_the_stream(stream.drop_last());
        let (pending, windows) = run(stream.drop_last());
        let (after, full) = push_spec(pending, stream.last());
        if full is Some {
            let window = full->0;
            windows.lemma_flatten_push(window);
            assert(windows.push(window).flatten() + after =~= accepted(stream));
        } else {
            assert(windows.flatten() + after =~= accepted(stream));
        }
    }
}

/// There is one output for every four accepted samples.
pub proof fn outputs_are_counted(stream: Seq<ImuSample>)
    ensures
        run(stream).1.len() == accepted(stream).len() / SAMPLES_PER_OUTPUT as nat,
        run(stream).0.len() == accepted(stream).len() % SAMPLES_PER_OUTPUT as nat,
    decreases stream.len(),
{
    reveal(Seq::filter);
    if stream.len() > 0 {
        outputs_are_counted(stream.drop_last());
    }
}

/// The intervals that are accepted, as numbers. A pattern is a sign bit, eleven
/// exponent bits and 52 fraction bits. One with all exponent bits set is
/// infinity or, with a fraction, not a number; the latter passes. Any other one
/// with a clear sign bit stands for `significand * 2^(exponent - 1075)` and is
/// accepted exactly where that is above zero and no more than
/// `7205759403792794 * 2^-56`, the `f64` closest to a tenth.
pub proof fn intervals_up_to_a_tenth_are_accepted(dt: u64)
    ensures
        ({
            let negative = dt >= 0x8000_0000_0000_0000;
            let exponent = dt as int / 0x10_0000_0000_0000 % 0x800;
            let fraction = dt as int % 0x10_0000_0000_0000;
            let significand = if exponent == 0 { fraction } else { 0x10_0000_0000_0000 + fraction };
            let scale = pow2(if exponent == 0 { 1 } else { exponent as nat });
            if exponent == 0x7FF {
                interval_accepted(dt) <==> fraction != 0
            } else {
                interval_accepted(dt) <==> !negative && 0 < significand && significand * scale
                    <= 7205759403792794 * pow2(1019)
            }
        }),
{
    let negative = dt >= 0x8000_0000_0000_0000;
    let exponent = dt as int / 0x10_0000_0000_0000 % 0x800;
    let fraction = dt as int % 0x10_0000_0000_0000;
    let significand = if exponent == 0 { fraction } else { 0x10_0000_0000_0000 + fraction };
    let e: nat = if exponent == 0 { 1 } else { exponent as nat };
    let (scale, limit) = (pow2(e), pow2(1019));
    assert(magnitude(dt) == exponent * 0x10_0000_0000_0000 + fraction);
    if exponent != 0x7FF && !negative {
        assert(dt == exponent * 0x10_0000_0000_0000 + fraction);
        lemma_pow2_pos(e);
        lemma_pow2_pos(1019);
        if e < 1019 {
            pow2_gap(e, 1019);
            assert(significand * scale <= 7205759403792794 * limit) by (nonlinear_arith)
                requires
                    0 <= significand < 0x20_0000_0000_0000,
                    0 < scale,
                    2 * scale <= limit,
            ;
        } else if e > 1019 {
            pow2_gap(1019, e);
            assert(significand * scale > 7205759403792794 * limit) by (nonlinear_arith)
                requires
                    significand >= 0x10_0000_0000_0000,
                    0 < limit,
                    2 * limit <= scale,
            ;
        } else {
            assert(significand * scale <= 7205759403792794 * limit <==> significand
                <= 7205759403792794) by (nonlinear_arith)
                requires
                    scale == limit,
                    limit > 0,
            ;
        }
    }
}

/// A larger power of two is at least twice a smaller one.
proof fn pow2_gap(a: nat, b: nat)
    requires
        a < b,
    ensures
        2 * pow2(a) <= pow2(b),
{
    lemma_pow2_unfold(a + 1);
    if a + 1 < b {
        lemma_pow2_strictly_increases(a + 1, b);
    }
}

/// What becomes of a sample: one that is not accepted changes nothing, any
/// other is put behind those that wait, and every fourth hands them all out.
pub proof fn samples_wait_for_three_others(pending: Seq<ImuSample>, sample: ImuSample)
    requires
        pending.len() < 4,
    ensures
        ({
            let (after, full) = push_spec(pending, sample);
            &&& !interval_accepted(sample.dt) ==> after == pending && full is None
            &&& interval_accepted(sample.dt) && pending.len() < 3 ==> full is None && after
                == pending + seq![sample]
            &&& interval_accepted(sample.dt) && pending.len() == 3 ==> after == Seq::<
                ImuSample,
            >::empty() && full is Some && full->0 == pending + seq![sample]
        }),
{
    assert(pending.push(sample) =~= pending + seq![sample]);
}

} // verus!
