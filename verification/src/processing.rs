//! The sampling schedule of the processing pipeline, and tuner gain
//! selection.
//!
//! Samples are buffered into windows of `window_size` samples; each full
//! window is transformed into a spectrum, and every `average_size` spectra
//! are averaged into one frame. The numeric work (FFT, magnitudes, sums) is
//! floating point and is done by the caller; this module decides, sample by
//! sample, which of it is due and numbers the frames.
use vstd::prelude::*;

verus! {

/// What a sample completes.
#[derive(Clone, Copy, Debug, PartialEq, Eq)]
pub enum SampleStep {
    /// The sample was buffered; the window is not full yet.
    Buffered,
    /// The window is full: transform it into a spectrum and add that to the
    /// running sum; the average is not complete yet.
    Spectrum,
    /// The window is full and completes an average: transform it, add it,
    /// and emit the average as the frame with this serial.
    Frame { serial: u64 },
}

/// The mathematical value of a [`FrameSchedule`].
pub ghost struct ScheduleModel {
    pub window_size: nat,
    pub average_size: nat,
    /// Samples in the current window.
    pub buffered: nat,
    /// Spectra in the current average.
    pub averaged: nat,
    /// Frames emitted so far; the serial of the next frame.
    pub num_frames: nat,
}

/// Counts samples into windows and windows into averages.
#[derive(Debug)]
pub struct FrameSchedule {
    window_size: usize,
    average_size: usize,
    buffered: usize,
    averaged: usize,
    num_frames: u64,
}

impl View for FrameSchedule {
    type V = ScheduleModel;

    closed spec fn view(&self) -> ScheduleModel {
        ScheduleModel {
            window_size: self.window_size as nat,
            average_size: self.average_size as nat,
            buffered: self.buffered as nat,
            averaged: self.averaged as nat,
            num_frames: self.num_frames as nat,
        }
    }
}

/// The schedule after one more sample, and what that sample completes.
pub open spec fn schedule_step(m: ScheduleModel) -> (ScheduleModel, SampleStep) {
    if m.buffered + 1 < m.window_size {
        (ScheduleModel { buffered: m.buffered + 1, ..m }, SampleStep::Buffered)
    } else if m.averaged + 1 < m.average_size {
        (ScheduleModel { buffered: 0, averaged: m.averaged + 1, ..m }, SampleStep::Spectrum)
    } else {
        (
            ScheduleModel { buffered: 0, averaged: 0, num_frames: m.num_frames + 1, ..m },
            SampleStep::Frame { serial: m.num_frames as u64 },
        )
    }
}

/// The schedule of a fresh pipeline after `k` samples.
pub open spec fn schedule_after(window_size: nat, average_size: nat, k: nat) -> ScheduleModel {
    ScheduleModel {
        window_size,
        average_size,
        buffered: k % window_size,
        averaged: (k / window_size) % average_size,
        num_frames: k / (window_size * average_size),
    }
}

/// The schedule after `count` more samples, and the serials of the frames
/// that those samples complete, in order.
pub open spec fn run_schedule(m: ScheduleModel, count: nat) -> (ScheduleModel, Seq<u64>)
    decreases count,
{
    if count == 0 {
        (m, seq![])
    } else {
        let (next, step) = schedule_step(m);
        let rest = run_schedule(next, (count - 1) as nat);
        (
            rest.0,
            match step {
                SampleStep::Frame { serial } => seq![serial] + rest.1,
                _ => rest.1,
            },
        )
    }
}

/// Counting samples never lowers the frame counter.
pub proof fn lemma_run_schedule_frames_grow(m: ScheduleModel, count: nat)
    ensures
        m.num_frames <= run_schedule(m, count).0.num_frames,
    decreases count,
{
    if count > 0 {
        lemma_run_schedule_frames_grow(schedule_step(m).0, (count - 1) as nat);
    }
}

/// Splitting a run of samples into two batches changes nothing: the
/// schedule after both batches is the one after the whole run, and the
/// frames of the first batch followed by those of the second are the frames
/// of the whole run.
pub proof fn lemma_run_schedule_split(m: ScheduleModel, a: nat, b: nat)
    ensures
        run_schedule(m, a + b) == (
            run_schedule(run_schedule(m, a).0, b).0,
            run_schedule(m, a).1 + run_schedule(run_schedule(m, a).0, b).1,
        ),
    decreases a,
{
    if a == 0 {
        assert(Seq::<u64>::empty() + run_schedule(m, b).1 =~= run_schedule(m, b).1);
    } else {
        let next = schedule_step(m).0;
        lemma_run_schedule_split(next, (a - 1) as nat, b);
        assert((a + b - 1) as nat == ((a - 1) as nat + b) as nat);
        let first = run_schedule(next, (a - 1) as nat);
        let second = run_schedule(first.0, b);
        match schedule_step(m).1 {
            SampleStep::Frame { serial } => {
                assert(seq![serial] + (first.1 + second.1) =~= (seq![serial] + first.1) + second.1);
            },
            _ => {},
        }
    }
}

impl FrameSchedule {
    #[verifier::type_invariant]
    closed spec fn inv(self) -> bool {
        &&& 0 < self.window_size
        &&& 0 < self.average_size
        &&& self.buffered < self.window_size
        &&& self.averaged < self.average_size
    }

    /// A schedule for windows of `window_size` samples and averages of
    /// `average_size` spectra. Both must be positive: with either zero the
    /// pipeline panics on its first sample.
    pub fn new(window_size: usize, average_size: usize) -> (r: FrameSchedule)
        requires
            window_size > 0,
            average_size > 0,
        ensures
            r@ == schedule_after(window_size as nat, average_size as nat, 0),
    {
        proof {
            vstd::arithmetic::div_mod::lemma_small_mod(0, window_size as nat);
            vstd::arithmetic::div_mod::lemma_small_mod(0, average_size as nat);
            vstd::arithmetic::mul::lemma_mul_strictly_positive(
                window_size as int,
                average_size as int,
            );
        }
        FrameSchedule { window_size, average_size, buffered: 0, averaged: 0, num_frames: 0 }
    }

    /// Samples per window.
    pub fn window_size(&self) -> (r: usize)
        ensures
            r == self@.window_size,
            r > 0,
    {
        proof {
            use_type_invariant(self);
        }
        self.window_size
    }

    /// Spectra per average.
    pub fn average_size(&self) -> (r: usize)
        ensures
            r == self@.average_size,
            r > 0,
    {
        proof {
            use_type_invariant(self);
        }
        self.average_size
    }

    /// Frames emitted so far.
    pub fn num_frames(&self) -> (r: u64)
        ensures
            r == self@.num_frames,
    {
        self.num_frames
    }

    /// Counts one sample and says what it completes. Where the sample
    /// completes a frame, the frame counter must have room for it.
    pub fn push_sample(&mut self) -> (r: SampleStep)
        requires
            schedule_step(old(self)@).0.num_frames <= u64::MAX,
        ensures
            (final(self)@, r) == schedule_step(old(self)@),
    {
        proof {
            use_type_invariant(&*self);
        }
        if self.buffered + 1 < self.window_size {
            self.buffered = self.buffered + 1;
            SampleStep::Buffered
        } else if self.averaged + 1 < self.average_size {
            self.buffered = 0;
            self.averaged = self.averaged + 1;
            SampleStep::Spectrum
        } else {
            let serial = self.num_frames;
            self.buffered = 0;
            self.averaged = 0;
            self.num_frames = self.num_frames + 1;
            SampleStep::Frame { serial }
        }
    }

    /// Counts `count` samples and gives the serials of the frames they
    /// complete, in order. The frame counter must have room for those frames.
    pub fn push_samples(&mut self, count: usize) -> (r: Vec<u64>)
        requires
            run_schedule(old(self)@, count as nat).0.num_frames <= u64::MAX,
        ensures
            (final(self)@, r@) == run_schedule(old(self)@, count as nat),
    {
        let mut serials: Vec<u64> = Vec::new();
        let mut i: usize = 0;
        while i < count
            invariant
                i <= count,
                run_schedule(self@, (count - i) as nat).0.num_frames <= u64::MAX,
                run_schedule(old(self)@, count as nat) == (
                    run_schedule(self@, (count - i) as nat).0,
                    serials@ + run_schedule(self@, (count - i) as nat).1,
                ),
            decreases count - i,
        {
            let ghost before = self@;
            let ghost done = serials@;
            proof {
                lemma_run_schedule_frames_grow(
                    schedule_step(before).0,
                    (count - i - 1) as nat,
                );
            }
            let step = self.push_sample();
            match step {
                SampleStep::Frame { serial } => {
                    serials.push(serial);
                },
                _ => {},
            }
            proof {
                let rest = run_schedule(self@, (count - i - 1) as nat);
                assert(run_schedule(before, (count - i) as nat).0 == rest.0);
                match step {
                    SampleStep::Frame { serial } => {
                        assert(done + (seq![serial] + rest.1) =~= serials@ + rest.1);
                    },
                    _ => {},
                }
            }
            i = i + 1;
        }
        assert(serials@ + Seq::<u64>::empty() =~= serials@);
        serials
    }
}

/// Frames come every `window_size * average_size` samples, numbered from 0:
/// one step from the schedule after `k` samples gives the schedule after
/// `k + 1`, and that sample completes a frame exactly when `k + 1` is a
/// multiple of `window_size * average_size`, the frame numbered
/// `k / (window_size * average_size)`.
pub proof fn lemma_schedule_counts_samples(window_size: nat, average_size: nat, k: nat)
    requires
        window_size > 0,
        average_size > 0,
    ensures
        schedule_step(schedule_after(window_size, average_size, k)).0 == schedule_after(
            window_size,
            average_size,
            k + 1,
        ),
        (schedule_step(schedule_after(window_size, average_size, k)).1 matches SampleStep::Frame {
            serial,
        }) <==> (k + 1) % (window_size * average_size) == 0,
        schedule_step(schedule_after(window_size, average_size, k)).1 matches SampleStep::Frame {
            serial,
        } ==> serial == (k / (window_size * average_size)) as u64,
{
    let w = window_size as int;
    let a = average_size as int;
    let ki = k as int;
    let q = ki / w;
    let r = ki % w;
    vstd::arithmetic::div_mod::lemma_fundamental_div_mod(ki, w);
    vstd::arithmetic::div_mod::lemma_mod_bound(ki, w);
    vstd::arithmetic::div_mod::lemma_div_pos_is_pos(ki, w);
    vstd::arithmetic::div_mod::lemma_div_denominator(ki, w, a);
    vstd::arithmetic::div_mod::lemma_div_denominator(ki + 1, w, a);
    vstd::arithmetic::div_mod::lemma_breakdown(ki + 1, w, a);
    let qa = q / a;
    let ra = q % a;
    vstd::arithmetic::div_mod::lemma_fundamental_div_mod(q, a);
    vstd::arithmetic::div_mod::lemma_mod_bound(q, a);
    if r + 1 < w {
        vstd::arithmetic::div_mod::lemma_fundamental_div_mod_converse(ki + 1, w, q, r + 1);
        assert(w * ((q % a)) >= 0) by (nonlinear_arith)
            requires
                w > 0,
                q % a >= 0,
        ;
    } else {
        assert(ki + 1 == (q + 1) * w + 0) by (nonlinear_arith)
            requires
                ki == w * q + r,
                r + 1 == w,
        ;
        vstd::arithmetic::div_mod::lemma_fundamental_div_mod_converse(ki + 1, w, q + 1, 0);
        if ra + 1 < a {
            assert(q + 1 == qa * a + (ra + 1)) by (nonlinear_arith)
                requires
                    q == a * qa + ra,
            ;
            vstd::arithmetic::div_mod::lemma_fundamental_div_mod_converse(q + 1, a, qa, ra + 1);
            assert(w * (ra + 1) > 0) by (nonlinear_arith)
                requires
                    w > 0,
                    ra >= 0,
            ;
        } else {
            assert(q + 1 == (qa + 1) * a + 0) by (nonlinear_arith)
                requires
                    q == a * qa + ra,
                    ra + 1 == a,
            ;
            vstd::arithmetic::div_mod::lemma_fundamental_div_mod_converse(q + 1, a, qa + 1, 0);
            assert(w * 0 == 0);
        }
    }
}

/// A batch of samples completes one frame per `window_size * average_size`
/// samples: from the schedule after `n` samples, `count` more samples give
/// the schedule after `n + count` samples and complete the frames numbered
/// `n / (window_size * average_size)` up to, not including,
/// `(n + count) / (window_size * average_size)`, in order.
pub proof fn lemma_schedule_batch(window_size: nat, average_size: nat, n: nat, count: nat)
    requires
        window_size > 0,
        average_size > 0,
    ensures
        run_schedule(schedule_after(window_size, average_size, n), count) == (
            schedule_after(window_size, average_size, n + count),
            Seq::new(
                ((n + count) / (window_size * average_size) - n / (window_size * average_size)) as nat,
                |j: int| (n / (window_size * average_size) + j) as u64,
            ),
        ),
    decreases count,
{
    let wa = window_size * average_size;
    vstd::arithmetic::mul::lemma_mul_strictly_positive(window_size as int, average_size as int);
    if count == 0 {
        assert(Seq::new(0nat, |j: int| (n / wa + j) as u64) =~= Seq::<u64>::empty());
    } else {
        lemma_schedule_counts_samples(window_size, average_size, n);
        lemma_schedule_batch(window_size, average_size, n + 1, (count - 1) as nat);
        let q0 = n / wa;
        let q1 = (n + 1) / wa;
        let q2 = (n + count) / wa;
        vstd::arithmetic::div_mod::lemma_fundamental_div_mod(n as int, wa as int);
        vstd::arithmetic::div_mod::lemma_mod_bound(n as int, wa as int);
        vstd::arithmetic::div_mod::lemma_div_is_ordered((n + 1) as int, (n + count) as int, wa as int);
        let tail = Seq::new((q2 - q1) as nat, |j: int| (q1 + j) as u64);
        let whole = Seq::new((q2 - q0) as nat, |j: int| (q0 + j) as u64);
        if (n + 1) % wa == 0 {
            vstd::arithmetic::div_mod::lemma_fundamental_div_mod((n + 1) as int, wa as int);
            assert(q1 == q0 + 1) by (nonlinear_arith)
                requires
                    n == wa * q0 + n % wa,
                    0 <= n % wa < wa,
                    n + 1 == wa * q1 + 0,
                    wa > 0,
            ;
            assert(seq![q0 as u64] + tail =~= whole);
        } else {
            vstd::arithmetic::div_mod::lemma_fundamental_div_mod((n + 1) as int, wa as int);
            vstd::arithmetic::div_mod::lemma_mod_bound((n + 1) as int, wa as int);
            assert(q1 == q0) by (nonlinear_arith)
                requires
                    n == wa * q0 + n % wa,
                    0 <= n % wa < wa,
                    n + 1 == wa * q1 + (n + 1) % wa,
                    0 < (n + 1) % wa < wa,
                    wa > 0,
            ;
            assert(tail =~= whole);
        }
    }
}

/// `|g - target|`.
pub open spec fn gain_distance(g: i32, target: i32) -> int {
    if g >= target {
        g - target
    } else {
        target - g
    }
}

/// `(g - target).abs()`, which must not overflow.
fn distance(g: i32, target: i32) -> (r: i32)
    requires
        i32::MIN < g - target <= i32::MAX,
    ensures
        r == gain_distance(g, target),
{
    let d = g - target;
    if d < 0 {
        -d
    } else {
        d
    }
}

/// Picks the available tuner gain closest to `target` (tenths of a dB), the
/// first one where several are equally close: its index and its value. The
/// list must not be empty, and each difference `gain - target`, and its
/// absolute value, must fit into an `i32`.
pub fn select_gain(gains: &[i32], target: i32) -> (r: (usize, i32))
    requires
        gains@.len() > 0,
        forall|i: int| 0 <= i < gains@.len() ==> i32::MIN < #[trigger] gains@[i] - target <= i32::MAX,
    ensures
        r.0 < gains@.len(),
        r.1 == gains@[r.0 as int],
        forall|i: int|
            0 <= i < gains@.len() ==> gain_distance(r.1, target) <= gain_distance(gains@[i], target),
        forall|i: int| 0 <= i < r.0 ==> gain_distance(r.1, target) < gain_distance(gains@[i], target),
{
    let mut best: usize = 0;
    let mut best_dist: i32 = distance(gains[0], target);
    let mut i: usize = 1;
    while i < gains.len()
        invariant
            0 < i <= gains@.len(),
            best < i,
            forall|j: int| 0 <= j < gains@.len() ==> i32::MIN < #[trigger] gains@[j] - target <= i32::MAX,
            best_dist == gain_distance(gains@[best as int], target),
            forall|j: int| 0 <= j < i ==> best_dist <= gain_distance(gains@[j], target),
            forall|j: int| 0 <= j < best ==> best_dist < gain_distance(gains@[j], target),
        decreases gains@.len() - i,
    {
        let d = distance(gains[i], target);
        if d < best_dist {
            best = i;
            best_dist = d;
        }
        i = i + 1;
    }
    (best, gains[best])
}

} // verus!
