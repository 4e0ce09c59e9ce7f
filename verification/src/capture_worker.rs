//! The listener behind the screens: what it keeps of the sound, and when it has
//! something to tell.

use vstd::prelude::*;

use crate::features::{FEATURE_WINDOW_SAMPLES, SAMPLE_RATE_HZ};
use crate::single::{Single, ZERO};

verus! {

/// Nanoseconds between two levels.
pub const LEVEL_INTERVAL: u64 = 50_000_000;

/// Nanoseconds between two looks at the device.
pub const POLL_INTERVAL: u64 = 15_000_000;

/// Nanoseconds between two frames.
pub const FRAME_INTERVAL: u64 = 30_000_000;

/// Samples that frames are made of: a quarter of a second.
pub const RECENT_SPAN: usize = 11025;

/// Points of a drawn waveform.
pub const WAVEFORM_POINTS: usize = 256;

/// How much the listener tells.
#[derive(Clone, Copy, Debug, PartialEq, Eq, Structural)]
pub enum CaptureDetail {
    Standard,
    /// Frames for the diagnostics, too.
    Diagnostics,
}

/// What the listener tells.
#[derive(Clone, Debug)]
pub enum CaptureEvent {
    Started { device_name: String, sample_rate: u32 },
    Level { rms: Single, peak: Single },
    /// `detected_at` is in nanoseconds of the listener's clock.
    Onset { window: Vec<Single>, is_transient: bool, detected_at: u64 },
    Frame { waveform: Vec<Single>, bands: [Single; 16] },
    /// Listening has ended; the text says why.
    Failed(String),
}

/// The largest absolute value in the sequence, and at least `floor`.
pub open spec fn loudest(floor: Single, s: Seq<Single>) -> Single
    decreases s.len(),
{
    if s.len() == 0 {
        floor
    } else {
        loudest(floor, s.drop_last()).larger(s.last().unsigned())
    }
}

/// Where part `i` of `points` starts among `n` samples.
pub open spec fn part_start(i: int, n: int, points: int) -> int {
    i * n / points
}

/// Where it ends: at least one sample on, and no further than the last.
pub open spec fn part_end(i: int, n: int, points: int) -> int {
    let next = (i + 1) * n / points;
    let wide = if next > part_start(i, n, points) {
        next
    } else {
        part_start(i, n, points) + 1
    };
    if wide < n {
        wide
    } else {
        n
    }
}

/// Parts are not empty and lie inside.
pub proof fn parts_lie_inside(i: int, n: int, points: int)
    requires
        0 <= i < points,
        n > 0,
    ensures
        0 <= part_start(i, n, points) < part_end(i, n, points) <= n,
        part_start(i + 1, n, points) <= part_end(i, n, points),
{
    assert(0 <= i * n / points < n) by (nonlinear_arith)
        requires
            0 <= i < points,
            n > 0,
    ;
    assert((i + 1) * n / points <= n) by (nonlinear_arith)
        requires
            0 <= i < points,
            n > 0,
    ;
}

/// A waveform in `points` points: each the largest absolute value of its part.
/// Nothing where there are no samples or no points.
pub open spec fn waveform(s: Seq<Single>, points: int) -> Seq<Single> {
    if s.len() == 0 || points <= 0 {
        Seq::empty()
    } else {
        Seq::new(
            points as nat,
            |i: int|
                loudest(
                    Single { bits: ZERO },
                    s.subrange(
                        part_start(i, s.len() as int, points),
                        part_end(i, s.len() as int, points),
                    ),
                ),
        )
    }
}

fn loudest_of(floor: Single, s: &[Single], from: usize, to: usize) -> (m: Single)
    requires
        from <= to <= s@.len(),
    ensures
        m == loudest(floor, s@.subrange(from as int, to as int)),
{
    let mut m: Single = floor;
    let mut i: usize = from;
    while i < to
        invariant
            from <= i <= to <= s@.len(),
            m == loudest(floor, s@.subrange(from as int, i as int)),
        decreases to - i,
    {
        proof {
            assert(s@.subrange(from as int, i + 1).drop_last() =~= s@.subrange(
                from as int,
                i as int,
            ));
        }
        m = m.max(s[i].abs());
        i += 1;
    }
    m
}

/// The waveform of samples in `points` points.
pub fn envelope(samples: &[Single], points: usize) -> (out: Vec<Single>)
    ensures
        out@ == waveform(samples@, points as int),
{
    let mut out: Vec<Single> = Vec::new();
    if samples.len() == 0 || points == 0 {
        return out;
    }
    let n: usize = samples.len();
    let mut i: usize = 0;
    proof {
        assert(out@ =~= waveform(samples@, points as int).take(0));
    }
    while i < points
        invariant
            i <= points,
            points > 0,
            n == samples@.len(),
            n > 0,
            out@ == waveform(samples@, points as int).take(i as int),
        decreases points - i,
    {
        proof {
            parts_lie_inside(i as int, n as int, points as int);
            assert((i + 1) * n <= 0xffff_ffff_ffff_fffe_0000_0000_0000_0001) by (nonlinear_arith)
                requires
                    0 <= i + 1 <= 0xffff_ffff_ffff_ffff,
                    0 <= n <= 0xffff_ffff_ffff_ffff,
            ;
            assert(i * n <= (i + 1) * n) by (nonlinear_arith)
                requires
                    n >= 0,
            ;
            assert((i + 1) * n / (points as int) >= 0) by (nonlinear_arith)
                requires
                    n >= 0,
                    i >= 0,
                    points > 0,
            ;
            assert(i * n >= 0) by (nonlinear_arith)
                requires
                    n >= 0,
                    i >= 0,
            ;
        }
        let lo: u128 = i as u128 * n as u128 / points as u128;
        let next: u128 = (i as u128 + 1) * n as u128 / points as u128;
        let wide: u128 = if next > lo {
            next
        } else {
            lo + 1
        };
        let hi: u128 = if wide < n as u128 {
            wide
        } else {
            n as u128
        };
        out.push(loudest_of(Single { bits: ZERO }, samples, lo as usize, hi as usize));
        i += 1;
        proof {
            assert(out@ =~= waveform(samples@, points as int).take(i as int));
        }
    }
    proof {
        assert(waveform(samples@, points as int).take(points as int) =~= waveform(
            samples@,
            points as int,
        ));
    }
    out
}

proof fn loudest_bounds(floor: Single, s: Seq<Single>, k: int)
    requires
        0 <= k < s.len(),
        !s[k].nan(),
        !floor.nan(),
    ensures
        !loudest(floor, s).nan(),
        s[k].unsigned().at_most(loudest(floor, s)),
    decreases s.len(),
{
    let t = s.drop_last();
    loudest_is_a_number(floor, t);
    if k < t.len() {
        assert(t[k] == s[k]);
        loudest_bounds(floor, t, k);
    }
}

proof fn loudest_is_a_number(floor: Single, s: Seq<Single>)
    requires
        !floor.nan(),
    ensures
        !loudest(floor, s).nan(),
        floor.at_most(loudest(floor, s)),
    decreases s.len(),
{
    if s.len() > 0 {
        loudest_is_a_number(floor, s.drop_last());
    }
}

proof fn part_of(k: int, n: int, points: int, i: int) -> (r: int)
    requires
        0 <= k < n,
        0 <= i < points,
        part_start(i, n, points) <= k,
    ensures
        i <= r < points,
        part_start(r, n, points) <= k < part_end(r, n, points),
    decreases points - i,
{
    parts_lie_inside(i, n, points);
    if k < part_end(i, n, points) {
        i
    } else if i + 1 < points {
        part_of(k, n, points, i + 1)
    } else {
        assert((i + 1) * n / points == n) by (nonlinear_arith)
            requires
                i + 1 == points,
                points > 0,
                n > 0,
        ;
        i
    }
}

/// No peak is lost: every sample is covered by a point that is at least as
/// large, and every point is a number that is not negative.
pub proof fn no_peak_is_lost(s: Seq<Single>, points: int, k: int)
    requires
        points > 0,
        0 <= k < s.len(),
        !s[k].nan(),
    ensures
        waveform(s, points).len() == points,
        exists|i: int|
            0 <= i < points && s[k].unsigned().at_most(#[trigger] waveform(s, points)[i]),
{
    let n = s.len() as int;
    assert(part_start(0, n, points) == 0) by (nonlinear_arith)
        requires
            part_start(0, n, points) == 0 * n / points,
            points > 0,
    ;
    let i = part_of(k, n, points, 0);
    parts_lie_inside(i, n, points);
    let part = s.subrange(part_start(i, n, points), part_end(i, n, points));
    assert(part[k - part_start(i, n, points)] == s[k]);
    loudest_bounds(Single { bits: ZERO }, part, k - part_start(i, n, points));
    assert(waveform(s, points)[i] == loudest(Single { bits: ZERO }, part));
}

/// The points of a waveform are numbers and not negative, whatever the samples.
pub proof fn waveforms_are_not_negative(s: Seq<Single>, points: int, i: int)
    requires
        0 <= i < waveform(s, points).len(),
    ensures
        (Single { bits: ZERO }).at_most(waveform(s, points)[i]),
{
    let n = s.len() as int;
    parts_lie_inside(i, n, points);
    loudest_is_a_number(
        Single { bits: ZERO },
        s.subrange(part_start(i, n, points), part_end(i, n, points)),
    );
}

/// The end of a sequence, at most `n` long.
pub open spec fn tail(s: Seq<Single>, n: int) -> Seq<Single> {
    if s.len() > n {
        s.skip(s.len() - n)
    } else {
        s
    }
}

/// What the listener keeps between looks at the device.
#[derive(Clone, Debug)]
pub struct Worker {
    pub detail: CaptureDetail,
    /// Samples since the last level.
    pub count: usize,
    /// The largest absolute value since the last level.
    pub peak: Single,
    /// When the last level was told.
    pub last_level: u64,
    /// When the last frame was told.
    pub last_frame: u64,
    /// The latest samples, for frames.
    pub recent: Vec<Single>,
}

/// Nanoseconds from one moment to another; nothing backwards.
pub open spec fn since(then: u64, now: u64) -> int {
    if now >= then {
        now - then
    } else {
        0
    }
}

fn since_then(then: u64, now: u64) -> (d: u64)
    ensures
        d == since(then, now),
{
    if now >= then {
        now - then
    } else {
        0
    }
}

impl Worker {
    /// No more than the span of a frame is kept.
    pub open spec fn wf(&self) -> bool {
        self.recent@.len() <= RECENT_SPAN && RECENT_SPAN == SAMPLE_RATE_HZ / 4
    }

    pub fn new(detail: CaptureDetail, now: u64) -> (w: Worker)
        ensures
            w.wf(),
            w.detail == detail,
            w.count == 0,
            w.peak == (Single { bits: ZERO }),
            w.last_level == now,
            w.last_frame == now,
            w.recent@.len() == 0,
    {
        Worker {
            detail,
            count: 0,
            peak: Single { bits: ZERO },
            last_level: now,
            last_frame: now,
            recent: Vec::new(),
        }
    }

    /// Take samples in. They are kept only for the diagnostics, and then no more
    /// than the latest.
    pub fn absorb(&mut self, buf: &[Single])
        requires
            old(self).wf(),
            old(self).count + buf@.len() <= usize::MAX,
        ensures
            final(self).wf(),
            final(self).detail == old(self).detail,
            final(self).count == old(self).count + buf@.len(),
            final(self).peak == loudest(old(self).peak, buf@),
            final(self).last_level == old(self).last_level,
            final(self).last_frame == old(self).last_frame,
            final(self).recent@ == if old(self).detail == CaptureDetail::Diagnostics {
                tail(old(self).recent@ + buf@, RECENT_SPAN as int)
            } else {
                old(self).recent@
            },
    {
        proof {
            assert(buf@.subrange(0, buf@.len() as int) =~= buf@);
        }
        self.peak = loudest_of(self.peak, buf, 0, buf.len());
        self.count = self.count + buf.len();
        if self.detail == CaptureDetail::Diagnostics {
            let ghost before = self.recent@;
            let mut i: usize = 0;
            while i < buf.len()
                invariant
                    i <= buf@.len(),
                    self.recent@ == before + buf@.take(i as int),
                    self.detail == old(self).detail,
                    self.count == old(self).count + buf@.len(),
                    self.peak == loudest(old(self).peak, buf@),
                    self.last_level == old(self).last_level,
                    self.last_frame == old(self).last_frame,
                decreases buf@.len() - i,
            {
                self.recent.push(buf[i]);
                i += 1;
                proof {
                    assert(self.recent@ =~= before + buf@.take(i as int));
                }
            }
            proof {
                assert(buf@.take(i as int) =~= buf@);
            }
            if self.recent.len() > RECENT_SPAN {
                let drop: usize = self.recent.len() - RECENT_SPAN;
                let ghost all = self.recent@;
                self.recent = self.recent.split_off(drop);
                proof {
                    assert(self.recent@ =~= all.skip(drop as int));
                }
            }
        }
    }

    /// Whether a level is to be told.
    pub fn level_due(&self, now: u64) -> (r: bool)
        ensures
            r == (since(self.last_level, now) >= LEVEL_INTERVAL),
    {
        since_then(self.last_level, now) >= LEVEL_INTERVAL
    }

    /// Tell the level, and begin the next. `rms` is the energy of the samples
    /// since the last one; without samples it is zero.
    pub fn take_level(&mut self, rms: Single, now: u64) -> (e: CaptureEvent)
        ensures
            e == (CaptureEvent::Level {
                rms: if old(self).count > 0 {
                    rms
                } else {
                    Single { bits: ZERO }
                },
                peak: old(self).peak,
            }),
            *final(self) == (Worker {
                count: 0,
                peak: Single { bits: ZERO },
                last_level: now,
                ..*old(self)
            }),
    {
        let e = CaptureEvent::Level {
            rms: if self.count > 0 {
                rms
            } else {
                Single { bits: ZERO }
            },
            peak: self.peak,
        };
        self.count = 0;
        self.peak = Single { bits: ZERO };
        self.last_level = now;
        e
    }

    /// Whether a frame is to be told: only for the diagnostics, not too often,
    /// and once there is a full window.
    pub fn frame_due(&self, now: u64) -> (r: bool)
        ensures
            r == (self.detail == CaptureDetail::Diagnostics && since(self.last_frame, now)
                >= FRAME_INTERVAL && self.recent@.len() >= FEATURE_WINDOW_SAMPLES),
    {
        self.detail == CaptureDetail::Diagnostics && since_then(self.last_frame, now)
            >= FRAME_INTERVAL && self.recent.len() >= FEATURE_WINDOW_SAMPLES
    }

    /// Tell a frame. `bands` is the spectrum of the latest window.
    pub fn take_frame(&mut self, bands: [Single; 16], now: u64) -> (e: CaptureEvent)
        ensures
            e matches CaptureEvent::Frame { waveform: w, bands: b } && w@ == waveform(
                old(self).recent@,
                WAVEFORM_POINTS as int,
            ) && b == bands,
            *final(self) == (Worker { last_frame: now, ..*old(self) }),
    {
        let drawn = envelope(&self.recent, WAVEFORM_POINTS);
        self.last_frame = now;
        CaptureEvent::Frame { waveform: drawn, bands }
    }

    /// Where the latest full window starts among the kept samples.
    pub fn window_start(&self) -> (r: Option<usize>)
        ensures
            r == if self.recent@.len() >= FEATURE_WINDOW_SAMPLES {
                Some((self.recent@.len() - FEATURE_WINDOW_SAMPLES) as usize)
            } else {
                None
            },
    {
        if self.recent.len() >= FEATURE_WINDOW_SAMPLES {
            Some(self.recent.len() - FEATURE_WINDOW_SAMPLES)
        } else {
            None
        }
    }
}

proof fn loudest_is_reached(floor: Single, s: Seq<Single>)
    ensures
        loudest(floor, s) == floor || exists|k: int|
            0 <= k < s.len() && (#[trigger] s[k]).unsigned() == loudest(floor, s),
    decreases s.len(),
{
    if s.len() > 0 {
        let t = s.drop_last();
        loudest_is_reached(floor, t);
        if loudest(floor, s) == loudest(floor, t) {
            if loudest(floor, t) != floor {
                let k = choose|k: int|
                    0 <= k < t.len() && (#[trigger] t[k]).unsigned() == loudest(floor, t);
                assert(s[k].unsigned() == loudest(floor, s));
            }
        } else {
            assert(s[s.len() - 1].unsigned() == loudest(floor, s));
        }
    }
}

/// The peak is the largest absolute value that was heard, or what it was before;
/// no sample exceeds it.
pub proof fn peaks_are_heard(floor: Single, s: Seq<Single>, k: int)
    requires
        0 <= k < s.len(),
        !floor.nan(),
    ensures
        floor.at_most(loudest(floor, s)),
        !s[k].nan() ==> s[k].unsigned().at_most(loudest(floor, s)),
        loudest(floor, s) == floor || exists|i: int|
            0 <= i < s.len() && (#[trigger] s[i]).unsigned() == loudest(floor, s),
{
    loudest_is_a_number(floor, s);
    if !s[k].nan() {
        loudest_bounds(floor, s, k);
    }
    loudest_is_reached(floor, s);
}

/// The parts of a waveform lie one after the other: the first starts with the
/// samples, the last ends with them, and where there are as many samples as points
/// each starts where the one before ends. No part is longer than its share, rounded
/// up.
pub proof fn parts_lie_in_a_row(i: int, n: int, points: int)
    requires
        0 <= i < points,
        n > 0,
    ensures
        part_start(0, n, points) == 0,
        part_end(points - 1, n, points) == n,
        n >= points ==> part_end(i, n, points) == part_start(i + 1, n, points),
        n >= points ==> points * (part_end(i, n, points) - part_start(i, n, points)) < n + points,
        n < points ==> part_end(i, n, points) == part_start(i, n, points) + 1,
{
    assert(0 * n / points == 0) by (nonlinear_arith)
        requires
            points > 0,
    ;
    assert(points * n / points == n) by (nonlinear_arith)
        requires
            points > 0,
    ;
    let (a, b) = (i * n / points, (i + 1) * n / points);
    assert((i + 1) * n == i * n + n) by (nonlinear_arith);
    let x = i * n;
    assert(0 <= x <= (points - 1) * n) by (nonlinear_arith)
        requires
            x == i * n,
            0 <= i <= points - 1,
            n > 0,
    ;
    assert((points - 1) * n == points * n - n) by (nonlinear_arith);
    assert(a < n && b <= n) by (nonlinear_arith)
        requires
            a == x / points,
            b == (x + n) / points,
            x + n <= points * n,
            points > 0,
            n > 0,
    ;
    assert(points * (b - a) < n + points) by (nonlinear_arith)
        requires
            a == x / points,
            b == (x + n) / points,
            points > 0,
    ;
    if n >= points {
        assert(b >= a + 1) by (nonlinear_arith)
            requires
                a == x / points,
                b == (x + n) / points,
                n >= points,
                points > 0,
        ;
    } else {
        assert(b <= a + 1) by (nonlinear_arith)
            requires
                a == x / points,
                b == (x + n) / points,
                n < points,
                points > 0,
        ;
    }
    let last = (points - 1) * n / points;
    assert((points - 1 + 1) * n / points == n);
    assert(last < n) by (nonlinear_arith)
        requires
            last == (points * n - n) / points,
            n > 0,
            points > 0,
    ;
}

/// Each point of a waveform is the absolute value of a sample of its own part, or
/// zero where the part is silent.
pub proof fn points_are_samples_of_their_part(samples: &[Single], points: usize, out: Vec<
    Single,
>, i: int)
    requires
        call_ensures(envelope, (samples, points), out),
        samples@.len() > 0,
        0 <= i < points,
    ensures
        out@.len() == points,
        out@[i].bits == 0 || exists|k: int|
            part_start(i, samples@.len() as int, points as int) <= k < part_end(
                i,
                samples@.len() as int,
                points as int,
            ) && (#[trigger] samples@[k]).unsigned() == out@[i],
        forall|k: int|
            part_start(i, samples@.len() as int, points as int) <= k < part_end(
                i,
                samples@.len() as int,
                points as int,
            ) && !(#[trigger] samples@[k]).nan() ==> samples@[k].unsigned().at_most(out@[i]),
{
    let n = samples@.len() as int;
    let (a, b) = (part_start(i, n, points as int), part_end(i, n, points as int));
    parts_lie_inside(i, n, points as int);
    let part = samples@.subrange(a, b);
    let zero = Single { bits: ZERO };
    loudest_is_reached(zero, part);
    if out@[i] != zero {
        let k = choose|k: int|
            0 <= k < part.len() && (#[trigger] part[k]).unsigned() == loudest(zero, part);
        assert(samples@[a + k].unsigned() == out@[i]);
    }
    assert forall|k: int| a <= k < b && !(
    #[trigger] samples@[k]).nan() implies samples@[k].unsigned().at_most(out@[i]) by {
        assert(part[k - a] == samples@[k]);
        loudest_bounds(zero, part, k - a);
    }
}

/// What is kept are the latest samples, in order, and no more than the span.
pub proof fn the_latest_samples_are_kept(s: Seq<Single>, n: int, k: int)
    requires
        n >= 0,
        0 <= k < tail(s, n).len(),
    ensures
        tail(s, n).len() <= n,
        s.len() <= n ==> tail(s, n) == s,
        s.len() > n ==> tail(s, n).len() == n,
        tail(s, n)[tail(s, n).len() - 1 - k] == s[s.len() - 1 - k],
{
}

/// Levels come twenty times a second and frames not more often than every thirty
/// milliseconds, and those only for the diagnostics and with a full window. A clock
/// that steps back makes neither due.
pub proof fn levels_and_frames_keep_their_pace(w: &Worker, now: u64, level: bool, frame: bool)
    requires
        call_ensures(Worker::level_due, (w, now), level),
        call_ensures(Worker::frame_due, (w, now), frame),
    ensures
        level <==> now - w.last_level >= 50_000_000,
        frame <==> w.detail is Diagnostics && now - w.last_frame >= 30_000_000 && w.recent@.len()
            >= 4096,
{
}

/// Time runs forward only: what passed since a moment is what must be added to it, and
/// nothing where that moment is still to come.
pub proof fn time_runs_forward(then: u64, now: u64)
    ensures
        now >= then ==> then + since(then, now) == now,
        now <= then ==> since(then, now) == 0,
{
}

} // verus!
