//! Onset detection: a sharp rise of energy over an adaptive noise floor starts
//! a window; a window that does not decay is no tap.
//!
//! The detector takes the stream in chunks of any size. It looks at it hop by
//! hop, each time a full feature window has arrived, and keeps the noise floor
//! and the refractory period between calls. Energies are measured by the
//! caller's function, which sees the window and the detector's two levels.

use vstd::prelude::*;
use vstd::slice::slice_subrange;

use crate::features::{FEATURE_WINDOW_SAMPLES, SAMPLE_RATE_HZ};
use crate::single::{Single, ZERO};

verus! {

/// Samples in one hop.
pub const HOP: usize = 256;

/// Hops after an onset in which no other may start: one window's worth.
pub const REFRACTORY_HOPS: usize = 16;

/// Encoding of the energy below which nothing triggers, `1e-6`.
pub const ABS_FLOOR: u32 = 0x3586_37bd;

/// Encoding of the largest ratio of tail to head energy of a tap, `0.5`.
pub const SUSTAIN_DECAY_MAX: u32 = 0x3f00_0000;

/// Samples at either end of a window whose energy the decay is measured from:
/// fifteen milliseconds.
pub const EDGE_SAMPLES: usize = 661;

/// What was measured at one hop.
#[derive(Clone, Copy, Debug, PartialEq, Eq, Structural)]
pub struct HopReading {
    /// Energy of the hop.
    pub rms: Single,
    /// The noise floor times the onset ratio.
    pub onset_level: Single,
    /// The previous hop's energy times the attack ratio.
    pub attack_level: Single,
    /// The noise floor moved a little towards this hop's energy.
    pub tracked_floor: Single,
    /// Tail energy of the window over its head energy.
    pub decay_ratio: Single,
}

/// An onset and the window captured from it.
#[derive(Clone, Debug)]
pub struct OnsetEvent {
    /// Position in the stream where the window starts.
    pub start: usize,
    /// [`FEATURE_WINDOW_SAMPLES`] samples.
    pub window: Vec<Single>,
    /// Whether the window decays like a tap; a sustained sound does not.
    pub is_transient: bool,
}

/// An onset, as a mathematical value.
pub struct Onset {
    pub start: int,
    pub window: Seq<Single>,
    pub is_transient: bool,
}

impl View for OnsetEvent {
    type V = Onset;

    open spec fn view(&self) -> Onset {
        Onset { start: self.start as int, window: self.window@, is_transient: self.is_transient }
    }
}

/// The views of several onsets.
pub open spec fn onsets(v: Seq<OnsetEvent>) -> Seq<Onset> {
    Seq::new(v.len(), |i: int| v[i]@)
}

/// What a detector remembers of the stream so far.
#[verifier::ext_equal]
pub struct Stream {
    /// Position in the stream of the first pending sample.
    pub base: int,
    /// Samples not yet passed by.
    pub pending: Seq<Single>,
    pub noise_floor: Single,
    pub prev_hop_rms: Single,
    /// Hops left of the refractory period.
    pub cooldown: nat,
    /// Whether a hop was read before.
    pub initialized: bool,
}

/// Whether the energy stands out of the noise and rose sharply.
pub open spec fn strikes(r: HopReading) -> bool {
    r.onset_level.larger(Single { bits: ABS_FLOOR }).below(r.rms) && r.attack_level.below(r.rms)
}

impl Stream {
    /// The stream of a detector that has heard nothing.
    pub open spec fn silent() -> Stream {
        Stream {
            base: 0,
            pending: Seq::empty(),
            noise_floor: Single { bits: ABS_FLOOR },
            prev_hop_rms: Single { bits: ZERO },
            cooldown: 0,
            initialized: false,
        }
    }

    /// The stream with more samples at its end.
    pub open spec fn fed(self, samples: Seq<Single>) -> Stream {
        Stream { pending: self.pending + samples, ..self }
    }

    /// Whether a full window has arrived.
    pub open spec fn ready(self) -> bool {
        self.pending.len() >= FEATURE_WINDOW_SAMPLES
    }

    /// The window at the front.
    pub open spec fn window(self) -> Seq<Single> {
        self.pending.take(FEATURE_WINDOW_SAMPLES as int)
    }

    /// Whether an onset starts at the front hop, given its reading.
    pub open spec fn fires(self, r: HopReading) -> bool {
        r.rms.finite() && self.cooldown == 0 && self.initialized && strikes(r)
    }

    /// The onset that starts at the front hop.
    pub open spec fn onset(self, r: HopReading) -> Onset {
        Onset {
            start: self.base,
            window: self.window(),
            is_transient: r.decay_ratio.below(Single { bits: SUSTAIN_DECAY_MAX }),
        }
    }

    /// The stream past the front hop. A hop whose energy is no finite number
    /// leaves everything but the position as it was. Only a quiet hop outside
    /// the refractory period moves the noise floor.
    pub open spec fn past(self, r: HopReading) -> Stream {
        let moved = Stream {
            base: self.base + HOP,
            pending: self.pending.skip(HOP as int),
            ..self
        };
        if !r.rms.finite() {
            moved
        } else {
            Stream {
                noise_floor: if self.cooldown == 0 && !self.fires(r) {
                    r.tracked_floor
                } else {
                    self.noise_floor
                },
                cooldown: if self.cooldown > 0 {
                    (self.cooldown - 1) as nat
                } else if self.fires(r) {
                    REFRACTORY_HOPS as nat
                } else {
                    0
                },
                prev_hop_rms: r.rms,
                initialized: true,
                ..moved
            }
        }
    }

    /// The stream after as many hops as there are readings.
    pub open spec fn after(self, readings: Seq<HopReading>) -> Stream
        decreases readings.len(),
    {
        if readings.len() == 0 {
            self
        } else {
            self.after(readings.drop_last()).past(readings.last())
        }
    }

    /// The onsets found in these hops.
    pub open spec fn found(self, readings: Seq<HopReading>) -> Seq<Onset>
        decreases readings.len(),
    {
        if readings.len() == 0 {
            Seq::empty()
        } else {
            let before = self.found(readings.drop_last());
            let at = self.after(readings.drop_last());
            if at.fires(readings.last()) {
                before.push(at.onset(readings.last()))
            } else {
                before
            }
        }
    }

    /// The readings are those that `measure` gives, hop for hop, and they go on
    /// until no full window is left.
    pub open spec fn read_through(
        self,
        measure: spec_fn(Seq<Single>, Single, Single, HopReading) -> bool,
        readings: Seq<HopReading>,
    ) -> bool {
        &&& self.read_partly(measure, readings)
        &&& !self.after(readings).ready()
    }

    /// The readings are those that `measure` gives, hop for hop.
    pub open spec fn read_partly(
        self,
        measure: spec_fn(Seq<Single>, Single, Single, HopReading) -> bool,
        readings: Seq<HopReading>,
    ) -> bool {
        forall|k: int|
            0 <= k < readings.len() ==> #[trigger] self.reads(measure, readings, k)
    }

    /// Reading `k` is one that `measure` gives at the hop that it is for.
    pub open spec fn reads(
        self,
        measure: spec_fn(Seq<Single>, Single, Single, HopReading) -> bool,
        readings: Seq<HopReading>,
        k: int,
    ) -> bool {
        let at = self.after(readings.take(k));
        at.ready() && measure(at.window(), at.noise_floor, at.prev_hop_rms, readings[k])
    }
}

/// What an executable measuring function may answer.
pub open spec fn answers<F: Fn(&[Single], Single, Single) -> HopReading>(measure: F) -> spec_fn(
    Seq<Single>,
    Single,
    Single,
    HopReading,
) -> bool {
    |window: Seq<Single>, noise_floor: Single, prev_hop_rms: Single, r: HopReading|
        exists|w: &[Single]|
            w@ == window && #[trigger] call_ensures(measure, (w, noise_floor, prev_hop_rms), r)
}

/// Streaming onset detector.
#[derive(Clone, Debug)]
pub struct OnsetDetector {
    buf: Vec<Single>,
    base_index: usize,
    noise_floor: Single,
    prev_hop_rms: Single,
    cooldown_hops: usize,
    initialized: bool,
}

impl View for OnsetDetector {
    type V = Stream;

    closed spec fn view(&self) -> Stream {
        Stream {
            base: self.base_index as int,
            pending: self.buf@,
            noise_floor: self.noise_floor,
            prev_hop_rms: self.prev_hop_rms,
            cooldown: self.cooldown_hops as nat,
            initialized: self.initialized,
        }
    }
}

impl OnsetDetector {
    /// A detector at the start of a stream.
    pub fn new() -> (d: OnsetDetector)
        ensures
            d@ == Stream::silent(),
    {
        OnsetDetector {
            buf: Vec::new(),
            base_index: 0,
            noise_floor: Single { bits: ABS_FLOOR },
            prev_hop_rms: Single { bits: ZERO },
            cooldown_hops: 0,
            initialized: false,
        }
    }

    /// Take a chunk of the stream and return the onsets whose whole window has
    /// now arrived, sustained ones among them.
    pub fn process<F: Fn(&[Single], Single, Single) -> HopReading>(
        &mut self,
        samples: &[Single],
        measure: F,
    ) -> (events: Vec<OnsetEvent>)
        requires
            old(self)@.base + old(self)@.pending.len() + samples@.len() <= usize::MAX,
            forall|w: &[Single], noise_floor: Single, prev_hop_rms: Single|
                w@.len() == FEATURE_WINDOW_SAMPLES ==> #[trigger] call_requires(
                    measure,
                    (w, noise_floor, prev_hop_rms),
                ),
        ensures
            exists|readings: Seq<HopReading>|
                #![trigger old(self)@.fed(samples@).after(readings)]
                old(self)@.fed(samples@).read_through(answers(measure), readings)
                && final(self)@ == old(self)@.fed(samples@).after(readings)
                && onsets(events@) == old(self)@.fed(samples@).found(readings),
            final(self)@.pending.len() < FEATURE_WINDOW_SAMPLES,
            final(self)@.base + final(self)@.pending.len() == old(self)@.base
                + old(self)@.pending.len() + samples@.len(),
    {
        let ghost first = self@.fed(samples@);
        let ghost mut readings: Seq<HopReading> = Seq::empty();
        let mut i: usize = 0;
        while i < samples.len()
            invariant
                i <= samples@.len(),
                self.buf@ == old(self).buf@ + samples@.take(i as int),
                self@ == (Stream { pending: self.buf@, ..old(self)@ }),
            decreases samples@.len() - i,
        {
            self.buf.push(samples[i]);
            i += 1;
            proof {
                assert(self.buf@ =~= old(self).buf@ + samples@.take(i as int));
            }
        }
        proof {
            assert(samples@.take(i as int) =~= samples@);
            assert(self@ == first);
        }
        let mut events: Vec<OnsetEvent> = Vec::new();
        let mut start: usize = 0;
        proof {
            assert(self.buf@.skip(0) =~= self.buf@);
            assert(onsets(events@) =~= Seq::<Onset>::empty());
        }
        while self.buf.len() - start >= FEATURE_WINDOW_SAMPLES
            invariant
                start <= self.buf@.len(),
                self.buf@ == first.pending,
                self.base_index == first.base,
                first.base + first.pending.len() <= usize::MAX,
                first.after(readings) == (Stream {
                    base: self.base_index + start,
                    pending: self.buf@.skip(start as int),
                    ..self@
                }),
                first.read_partly(answers(measure), readings),
                onsets(events@) == first.found(readings),
                forall|w: &[Single], noise_floor: Single, prev_hop_rms: Single|
                    w@.len() == FEATURE_WINDOW_SAMPLES ==> #[trigger] call_requires(
                        measure,
                        (w, noise_floor, prev_hop_rms),
                    ),
            decreases self.buf@.len() - start,
        {
            let ghost at = first.after(readings);
            let window: &[Single] = slice_subrange(
                self.buf.as_slice(),
                start,
                start + FEATURE_WINDOW_SAMPLES,
            );
            proof {
                assert(window@ =~= at.window());
            }
            let r: HopReading = measure(window, self.noise_floor, self.prev_hop_rms);
            proof {
                let more = readings.push(r);
                assert(more.drop_last() =~= readings);
                assert forall|k: int| 0 <= k < more.len() implies #[trigger] first.reads(
                    answers(measure),
                    more,
                    k,
                ) by {
                    if k < readings.len() {
                        assert(more.take(k) =~= readings.take(k));
                        assert(more[k] == readings[k]);
                        assert(first.reads(answers(measure), readings, k));
                    } else {
                        assert(more.take(k) =~= readings);
                    }
                }
                assert(self.buf@.skip(start as int).skip(HOP as int) =~= self.buf@.skip(
                    start + HOP,
                ));
            }
            if r.rms.is_finite() {
                let strikes: bool = r.onset_level.max(Single { bits: ABS_FLOOR }).lt(r.rms)
                    && r.attack_level.lt(r.rms);
                if self.cooldown_hops > 0 {
                    self.cooldown_hops = self.cooldown_hops - 1;
                } else if self.initialized && strikes {
                    let ghost before = events@;
                    events.push(
                        OnsetEvent {
                            start: self.base_index + start,
                            window: copied(window),
                            is_transient: r.decay_ratio.lt(Single { bits: SUSTAIN_DECAY_MAX }),
                        },
                    );
                    self.cooldown_hops = REFRACTORY_HOPS;
                    proof {
                        assert(onsets(events@) =~= onsets(before).push(at.onset(r)));
                    }
                } else {
                    self.noise_floor = r.tracked_floor;
                }
                self.prev_hop_rms = r.rms;
                self.initialized = true;
            }
            proof {
                readings = readings.push(r);
            }
            start += HOP;
        }
        if start > 0 {
            self.buf = self.buf.split_off(start);
            self.base_index = self.base_index + start;
        }
        proof {
            assert(self@ =~= first.after(readings));
        }
        events
    }
}

impl Default for OnsetDetector {
    fn default() -> (d: OnsetDetector)
        ensures
            d@ == Stream::silent(),
    {
        OnsetDetector::new()
    }
}

fn copied(s: &[Single]) -> (v: Vec<Single>)
    ensures
        v@ == s@,
{
    let mut v: Vec<Single> = Vec::new();
    let mut i: usize = 0;
    while i < s.len()
        invariant
            i <= s@.len(),
            v@ == s@.take(i as int),
        decreases s@.len() - i,
    {
        v.push(s[i]);
        i += 1;
        proof {
            assert(v@ =~= s@.take(i as int));
        }
    }
    proof {
        assert(s@.take(i as int) =~= s@);
    }
    v
}

/// How many samples at either end of a window of `n` the decay is measured
/// from.
pub fn decay_edge(n: usize) -> (edge: usize)
    ensures
        edge == if n / 4 < EDGE_SAMPLES {
            n / 4
        } else {
            EDGE_SAMPLES
        },
        2 * edge <= n,
        EDGE_SAMPLES == SAMPLE_RATE_HZ * 15 / 1000,
{
    if n / 4 < EDGE_SAMPLES {
        n / 4
    } else {
        EDGE_SAMPLES
    }
}

/// Reading one batch of hops after another is reading them all.
pub proof fn after_joins(s: Stream, a: Seq<HopReading>, b: Seq<HopReading>)
    ensures
        s.after(a + b) == s.after(a).after(b),
        s.found(a + b) == s.found(a) + s.after(a).found(b),
    decreases b.len(),
{
    if b.len() == 0 {
        assert(a + b =~= a);
        assert(s.found(a) + Seq::<Onset>::empty() =~= s.found(a));
    } else {
        assert((a + b).drop_last() =~= a + b.drop_last());
        after_joins(s, a, b.drop_last());
        let at = s.after(a).after(b.drop_last());
        if at.fires(b.last()) {
            assert(s.found(a + b) =~= s.found(a) + s.after(a).found(b));
        }
    }
}

/// Samples that arrive later change nothing about hops that were ready before.
pub proof fn feeding_commutes(s: Stream, readings: Seq<HopReading>, more: Seq<Single>)
    requires
        forall|k: int| 0 <= k < readings.len() ==> (#[trigger] s.after(readings.take(k))).ready(),
    ensures
        s.fed(more).after(readings) == s.after(readings).fed(more),
        s.fed(more).found(readings) == s.found(readings),
    decreases readings.len(),
{
    if readings.len() > 0 {
        let init = readings.drop_last();
        let n = (readings.len() - 1) as int;
        assert(readings.take(n) =~= init);
        assert(s.after(readings.take(n)).ready());
        assert forall|k: int| 0 <= k < init.len() implies (#[trigger] s.after(
            init.take(k),
        )).ready() by {
            assert(init.take(k) =~= readings.take(k));
        }
        feeding_commutes(s, init, more);
        let at = s.after(init);
        assert((at.pending + more).skip(HOP as int) =~= at.pending.skip(HOP as int) + more);
        assert(at.fed(more).window() =~= at.window());
    }
}

/// Chunk borders do not matter: feeding the stream in two chunks leaves the
/// detector as one feed of both leaves it, and finds the same onsets.
pub proof fn chunks_match_a_single_call(
    s: Stream,
    a: Seq<Single>,
    b: Seq<Single>,
    measure: spec_fn(Seq<Single>, Single, Single, HopReading) -> bool,
    first: Seq<HopReading>,
    second: Seq<HopReading>,
)
    requires
        s.fed(a).read_through(measure, first),
        s.fed(a).after(first).fed(b).read_through(measure, second),
    ensures
        s.fed(a + b).read_through(measure, first + second),
        s.fed(a + b).after(first + second) == s.fed(a).after(first).fed(b).after(second),
        s.fed(a + b).found(first + second) == s.fed(a).found(first) + s.fed(a).after(first).fed(
            b,
        ).found(second),
{
    assert(s.fed(a + b) =~= s.fed(a).fed(b)) by {
        assert(s.pending + (a + b) =~= (s.pending + a) + b);
    }
    read_partly_is_ready(s.fed(a), measure, first);
    feeding_commutes(s.fed(a), first, b);
    after_joins(s.fed(a).fed(b), first, second);
    readings_join(s.fed(a), b, measure, first, second);
}

proof fn readings_join(
    s: Stream,
    more: Seq<Single>,
    measure: spec_fn(Seq<Single>, Single, Single, HopReading) -> bool,
    first: Seq<HopReading>,
    second: Seq<HopReading>,
)
    requires
        s.read_partly(measure, first),
        s.after(first).fed(more).read_partly(measure, second),
    ensures
        s.fed(more).read_partly(measure, first + second),
{
    let both = first + second;
    let whole = s.fed(more);
    let rest = s.after(first).fed(more);
    read_partly_is_ready(s, measure, first);
    feeding_commutes(s, first, more);
    assert forall|k: int| 0 <= k < both.len() implies #[trigger] whole.reads(
        measure,
        both,
        k,
    ) by {
        if k < first.len() {
            reading_survives_feeding(s, more, measure, first, k);
            assert(both.take(k) =~= first.take(k));
        } else {
            let j = k - first.len();
            assert(both.take(k) =~= first + second.take(j));
            after_joins(whole, first, second.take(j));
            assert(rest.reads(measure, second, j));
            assert(both[k] == second[j]);
            assert(whole.after(both.take(k)) == rest.after(second.take(j)));
        }
    }
}

proof fn read_partly_is_ready(
    s: Stream,
    measure: spec_fn(Seq<Single>, Single, Single, HopReading) -> bool,
    readings: Seq<HopReading>,
)
    requires
        s.read_partly(measure, readings),
    ensures
        forall|k: int| 0 <= k < readings.len() ==> (#[trigger] s.after(readings.take(k))).ready(),
{
    assert forall|k: int| 0 <= k < readings.len() implies (#[trigger] s.after(
        readings.take(k),
    )).ready() by {
        assert(s.reads(measure, readings, k));
    }
}

proof fn reading_survives_feeding(
    s: Stream,
    more: Seq<Single>,
    measure: spec_fn(Seq<Single>, Single, Single, HopReading) -> bool,
    readings: Seq<HopReading>,
    k: int,
)
    requires
        s.read_partly(measure, readings),
        0 <= k < readings.len(),
    ensures
        s.fed(more).reads(measure, readings, k),
{
    let part = readings.take(k);
    assert(s.reads(measure, readings, k));
    read_partly_is_ready(s, measure, readings);
    assert forall|j: int| 0 <= j < part.len() implies (#[trigger] s.after(
        part.take(j),
    )).ready() by {
        assert(part.take(j) =~= readings.take(j));
    }
    feeding_commutes(s, part, more);
    let at = s.after(part);
    assert(at.fed(more).window() =~= at.window());
}

/// A hop whose energy is a NaN or infinite moves on and changes nothing else:
/// the noise floor stays a number.
pub proof fn a_corrupt_hop_changes_no_level(s: Stream, r: HopReading)
    requires
        !r.rms.finite(),
    ensures
        !s.fires(r),
        s.past(r).noise_floor == s.noise_floor,
        s.past(r).prev_hop_rms == s.prev_hop_rms,
        s.past(r).cooldown == s.cooldown,
        s.past(r).initialized == s.initialized,
        s.past(r).base == s.base + HOP,
{
}

/// Where the found onsets lie: in stream order within what was read, and so far
/// apart that no two windows overlap. The refractory period says how far the
/// next one still is.
pub proof fn windows_never_overlap(s: Stream, readings: Seq<HopReading>)
    ensures
        forall|i: int|
            0 <= i < s.found(readings).len() ==> s.base <= (#[trigger] s.found(
                readings,
            )[i]).start,
        forall|i: int, j: int|
            0 <= i < j < s.found(readings).len() ==> (#[trigger] s.found(readings)[i]).start
                + FEATURE_WINDOW_SAMPLES < (#[trigger] s.found(readings)[j]).start,
{
    spacing(s, readings);
}

proof fn spacing(s: Stream, readings: Seq<HopReading>)
    ensures
        s.after(readings).base == s.base + HOP * readings.len(),
        forall|i: int|
            0 <= i < s.found(readings).len() ==> s.base <= (#[trigger] s.found(
                readings,
            )[i]).start && s.found(readings)[i].start + FEATURE_WINDOW_SAMPLES + HOP <= s.after(
                readings,
            ).base + HOP * s.after(readings).cooldown,
        forall|i: int, j: int|
            0 <= i < j < s.found(readings).len() ==> (#[trigger] s.found(readings)[i]).start
                + FEATURE_WINDOW_SAMPLES + HOP <= (#[trigger] s.found(readings)[j]).start,
    decreases readings.len(),
{
    if readings.len() > 0 {
        let init = readings.drop_last();
        spacing(s, init);
        let at = s.after(init);
        let before = s.found(init);
        let now = s.found(readings);
        assert forall|i: int| 0 <= i < now.len() implies s.base <= (#[trigger] now[i]).start
            && now[i].start + FEATURE_WINDOW_SAMPLES + HOP <= s.after(readings).base + HOP
            * s.after(readings).cooldown by {
            if i < before.len() {
                assert(now[i] == before[i]);
            } else {
                assert(now[i] == at.onset(readings.last()));
            }
        }
        assert forall|i: int, j: int| 0 <= i < j < now.len() implies (#[trigger] now[i]).start
            + FEATURE_WINDOW_SAMPLES + HOP <= (#[trigger] now[j]).start by {
            assert(now[i] == before[i]);
            if j < before.len() {
                assert(now[j] == before[j]);
            }
        }
    }
}

/// The chunks of a stream, one after the other.
pub open spec fn joined<T>(chunks: Seq<Seq<T>>) -> Seq<T>
    decreases chunks.len(),
{
    if chunks.len() == 0 {
        Seq::empty()
    } else {
        joined(chunks.drop_last()) + chunks.last()
    }
}

impl Stream {
    /// The stream after several chunks, each read with its readings.
    pub open spec fn after_chunks(
        self,
        chunks: Seq<Seq<Single>>,
        readings: Seq<Seq<HopReading>>,
    ) -> Stream
        decreases chunks.len(),
    {
        if chunks.len() == 0 {
            self
        } else {
            self.after_chunks(chunks.drop_last(), readings.drop_last()).fed(chunks.last()).after(
                readings.last(),
            )
        }
    }

    /// The onsets found in several chunks, chunk after chunk.
    pub open spec fn found_in_chunks(
        self,
        chunks: Seq<Seq<Single>>,
        readings: Seq<Seq<HopReading>>,
    ) -> Seq<Onset>
        decreases chunks.len(),
    {
        if chunks.len() == 0 {
            Seq::empty()
        } else {
            self.found_in_chunks(chunks.drop_last(), readings.drop_last()) + self.after_chunks(
                chunks.drop_last(),
                readings.drop_last(),
            ).fed(chunks.last()).found(readings.last())
        }
    }

    /// Each chunk is read through from where the one before left the stream.
    pub open spec fn chunks_read(
        self,
        chunks: Seq<Seq<Single>>,
        measure: spec_fn(Seq<Single>, Single, Single, HopReading) -> bool,
        readings: Seq<Seq<HopReading>>,
    ) -> bool
        decreases chunks.len(),
    {
        &&& readings.len() == chunks.len()
        &&& chunks.len() > 0 ==> {
            &&& self.chunks_read(chunks.drop_last(), measure, readings.drop_last())
            &&& self.after_chunks(chunks.drop_last(), readings.drop_last()).fed(
                chunks.last(),
            ).read_through(measure, readings.last())
        }
    }
}

/// Chunk borders do not matter, however many there are: feeding a stream in any
/// chunks, empty ones among them, leaves the detector as one feed of all of them
/// leaves it, and finds the same onsets in the same order.
pub proof fn any_chunks_match_a_single_call(
    s: Stream,
    chunks: Seq<Seq<Single>>,
    measure: spec_fn(Seq<Single>, Single, Single, HopReading) -> bool,
    readings: Seq<Seq<HopReading>>,
)
    requires
        !s.ready(),
        s.chunks_read(chunks, measure, readings),
    ensures
        s.fed(joined(chunks)).read_through(measure, joined(readings)),
        s.fed(joined(chunks)).after(joined(readings)) == s.after_chunks(chunks, readings),
        s.fed(joined(chunks)).found(joined(readings)) == s.found_in_chunks(chunks, readings),
    decreases chunks.len(),
{
    if chunks.len() == 0 {
        assert(s.fed(joined(chunks)) =~= s) by {
            assert(s.pending + Seq::<Single>::empty() =~= s.pending);
        }
    } else {
        let (before, read) = (chunks.drop_last(), readings.drop_last());
        any_chunks_match_a_single_call(s, before, measure, read);
        chunks_match_a_single_call(
            s,
            joined(before),
            chunks.last(),
            measure,
            joined(read),
            readings.last(),
        );
    }
}

/// Two readings of a stream by a measure that gives one answer only are the same:
/// what a call finds depends on the stream and on what is measured alone.
pub proof fn readings_are_determined(
    s: Stream,
    measure: spec_fn(Seq<Single>, Single, Single, HopReading) -> bool,
    a: Seq<HopReading>,
    b: Seq<HopReading>,
)
    requires
        forall|w: Seq<Single>, floor: Single, rms: Single, x: HopReading, y: HopReading|
            #[trigger] measure(w, floor, rms, x) && #[trigger] measure(w, floor, rms, y) ==> x == y,
        s.read_through(measure, a),
        s.read_through(measure, b),
    ensures
        a == b,
{
    let n = if a.len() < b.len() {
        a.len() as int
    } else {
        b.len() as int
    };
    readings_agree(s, measure, a, b, n);
    if a.len() < b.len() {
        assert(a.take(n) =~= a);
        assert(s.reads(measure, b, n));
    } else if b.len() < a.len() {
        assert(b.take(n) =~= b);
        assert(s.reads(measure, a, n));
    } else {
        assert(a.take(n) =~= a);
        assert(b.take(n) =~= b);
    }
}

proof fn readings_agree(
    s: Stream,
    measure: spec_fn(Seq<Single>, Single, Single, HopReading) -> bool,
    a: Seq<HopReading>,
    b: Seq<HopReading>,
    n: int,
)
    requires
        forall|w: Seq<Single>, floor: Single, rms: Single, x: HopReading, y: HopReading|
            #[trigger] measure(w, floor, rms, x) && #[trigger] measure(w, floor, rms, y) ==> x == y,
        s.read_partly(measure, a),
        s.read_partly(measure, b),
        0 <= n <= a.len(),
        n <= b.len(),
    ensures
        a.take(n) == b.take(n),
    decreases n,
{
    if n > 0 {
        readings_agree(s, measure, a, b, n - 1);
        assert(s.reads(measure, a, n - 1));
        assert(s.reads(measure, b, n - 1));
        let at = s.after(a.take(n - 1));
        assert(measure(at.window(), at.noise_floor, at.prev_hop_rms, a[n - 1]));
        assert(measure(at.window(), at.noise_floor, at.prev_hop_rms, b[n - 1]));
        assert(a.take(n) =~= a.take(n - 1).push(a[n - 1]));
        assert(b.take(n) =~= b.take(n - 1).push(b[n - 1]));
    } else {
        assert(a.take(n) =~= b.take(n));
    }
}

proof fn hops_pass_samples(
    s: Stream,
    measure: spec_fn(Seq<Single>, Single, Single, HopReading) -> bool,
    readings: Seq<HopReading>,
    n: int,
)
    requires
        s.read_partly(measure, readings),
        0 <= n <= readings.len(),
    ensures
        HOP * n <= s.pending.len(),
        s.after(readings.take(n)).base == s.base + HOP * n,
        s.after(readings.take(n)).pending == s.pending.skip(HOP * n),
    decreases n,
{
    if n == 0 {
        assert(s.pending.skip(0) =~= s.pending);
    } else {
        hops_pass_samples(s, measure, readings, n - 1);
        assert(readings.take(n).drop_last() =~= readings.take(n - 1));
        assert(s.reads(measure, readings, n - 1));
        assert(s.pending.skip(HOP * (n - 1)).skip(HOP as int) =~= s.pending.skip(HOP * n));
    }
}

/// The window of an onset is the stream from its start on: all of it lies within
/// the samples that have arrived, and it is exactly these samples.
pub proof fn windows_are_the_stream(
    s: Stream,
    measure: spec_fn(Seq<Single>, Single, Single, HopReading) -> bool,
    readings: Seq<HopReading>,
    i: int,
)
    requires
        s.read_partly(measure, readings),
        0 <= i < s.found(readings).len(),
    ensures
        s.base <= s.found(readings)[i].start,
        s.found(readings)[i].start - s.base + FEATURE_WINDOW_SAMPLES <= s.pending.len(),
        s.found(readings)[i].window == s.pending.subrange(
            s.found(readings)[i].start - s.base,
            s.found(readings)[i].start - s.base + FEATURE_WINDOW_SAMPLES,
        ),
    decreases readings.len(),
{
    let n = readings.len() - 1;
    let init = readings.drop_last();
    assert(init =~= readings.take(n));
    if i < s.found(init).len() {
        assert forall|k: int| 0 <= k < init.len() implies #[trigger] s.reads(
            measure,
            init,
            k,
        ) by {
            assert(s.reads(measure, readings, k));
            assert(init.take(k) =~= readings.take(k));
        }
        windows_are_the_stream(s, measure, init, i);
        assert(s.found(readings)[i] == s.found(init)[i]);
    } else {
        hops_pass_samples(s, measure, readings, n);
        assert(s.reads(measure, readings, n));
        let at = s.after(init);
        assert(s.found(readings)[i] == at.onset(readings.last()));
        assert(at.window() =~= s.pending.subrange(
            HOP * n,
            HOP * n + FEATURE_WINDOW_SAMPLES,
        ));
    }
}

/// Everything that a fresh detector returns over any number of calls: each window
/// is the stream at its start, and the starts rise, each more than a window after
/// the one before.
pub proof fn onsets_of_a_stream(
    chunks: Seq<Seq<Single>>,
    measure: spec_fn(Seq<Single>, Single, Single, HopReading) -> bool,
    readings: Seq<Seq<HopReading>>,
)
    requires
        Stream::silent().chunks_read(chunks, measure, readings),
    ensures
        forall|i: int|
            0 <= i < Stream::silent().found_in_chunks(chunks, readings).len() ==> {
                let e = #[trigger] Stream::silent().found_in_chunks(chunks, readings)[i];
                &&& 0 <= e.start
                &&& e.start + FEATURE_WINDOW_SAMPLES <= joined(chunks).len()
                &&& e.window == joined(chunks).subrange(
                    e.start,
                    e.start + FEATURE_WINDOW_SAMPLES,
                )
                &&& e.window.len() == FEATURE_WINDOW_SAMPLES
            },
        forall|i: int, j: int|
            0 <= i < j < Stream::silent().found_in_chunks(chunks, readings).len() ==> (
            #[trigger] Stream::silent().found_in_chunks(chunks, readings)[i]).start
                + FEATURE_WINDOW_SAMPLES < (#[trigger] Stream::silent().found_in_chunks(
                chunks,
                readings,
            )[j]).start,
{
    let s = Stream::silent();
    any_chunks_match_a_single_call(s, chunks, measure, readings);
    let whole = s.fed(joined(chunks));
    assert(whole.pending =~= joined(chunks));
    windows_never_overlap(whole, joined(readings));
    assert forall|i: int| 0 <= i < s.found_in_chunks(chunks, readings).len() implies {
        let e = #[trigger] s.found_in_chunks(chunks, readings)[i];
        &&& 0 <= e.start
        &&& e.start + FEATURE_WINDOW_SAMPLES <= joined(chunks).len()
        &&& e.window == joined(chunks).subrange(e.start, e.start + FEATURE_WINDOW_SAMPLES)
        &&& e.window.len() == FEATURE_WINDOW_SAMPLES
    } by {
        windows_are_the_stream(whole, measure, joined(readings), i);
    }
}

/// Silence has no onset: nothing is found where no hop is louder than the least
/// energy that triggers.
pub proof fn silence_has_no_onset(s: Stream, readings: Seq<HopReading>)
    requires
        forall|k: int|
            0 <= k < readings.len() ==> (#[trigger] readings[k]).rms.at_most(
                Single { bits: ABS_FLOOR },
            ),
    ensures
        s.found(readings).len() == 0,
    decreases readings.len(),
{
    if readings.len() > 0 {
        let init = readings.drop_last();
        assert forall|k: int| 0 <= k < init.len() implies (#[trigger] init[k]).rms.at_most(
            Single { bits: ABS_FLOOR },
        ) by {
            assert(init[k] == readings[k]);
        }
        silence_has_no_onset(s, init);
        assert(readings[readings.len() - 1].rms.at_most(Single { bits: ABS_FLOOR }));
    }
}

proof fn hops_before(s: Stream, readings: Seq<HopReading>)
    ensures
        s.after(readings).initialized <==> s.initialized || exists|j: int|
            0 <= j < readings.len() && (#[trigger] readings[j]).rms.finite(),
        readings.len() > 0 && readings.last().rms.finite() ==> s.after(readings).prev_hop_rms
            == readings.last().rms,
    decreases readings.len(),
{
    if readings.len() > 0 {
        let init = readings.drop_last();
        hops_before(s, init);
        if exists|j: int| 0 <= j < init.len() && (#[trigger] init[j]).rms.finite() {
            let j = choose|j: int| 0 <= j < init.len() && (#[trigger] init[j]).rms.finite();
            assert(readings[j].rms.finite());
        }
        if readings.last().rms.finite() {
            assert(readings[readings.len() - 1].rms.finite());
        }
        if exists|j: int| 0 <= j < readings.len() && (#[trigger] readings[j]).rms.finite() {
            let j = choose|j: int| 0 <= j < readings.len() && (#[trigger] readings[j]).rms.finite();
            if j < init.len() {
                assert(init[j].rms.finite());
            }
        }
    }
}

/// Every onset starts at a hop whose energy is a number above the attack level,
/// above the onset level and above the least energy that triggers, and a hop was
/// heard before it. It counts as a tap exactly where its window's tail has less
/// than half the energy of its head.
pub proof fn onsets_are_sharp_rises(s: Stream, readings: Seq<HopReading>, i: int) -> (k: int)
    requires
        0 <= i < s.found(readings).len(),
    ensures
        0 <= k < readings.len(),
        s.found(readings)[i].start == s.base + 256 * k,
        readings[k].rms.finite(),
        readings[k].attack_level.below(readings[k].rms),
        readings[k].onset_level.nan() || readings[k].onset_level.below(readings[k].rms),
        (Single { bits: 0x3586_37bd }).below(readings[k].rms),
        s.found(readings)[i].is_transient <==> readings[k].decay_ratio.below(
            Single { bits: 0x3f00_0000 },
        ),
        s.initialized || exists|j: int| 0 <= j < k && (#[trigger] readings[j]).rms.finite(),
        k == 0 ==> s.cooldown == 0,
    decreases readings.len(),
{
    let init = readings.drop_last();
    if i < s.found(init).len() {
        let k = onsets_are_sharp_rises(s, init, i);
        assert(s.found(readings)[i] == s.found(init)[i]);
        assert(init[k] == readings[k]);
        if !s.initialized {
            let j = choose|j: int| 0 <= j < k && (#[trigger] init[j]).rms.finite();
            assert(readings[j].rms.finite());
        }
        k
    } else {
        let k = readings.len() - 1;
        spacing(s, init);
        hops_before(s, init);
        if !s.initialized {
            let j = choose|j: int| 0 <= j < init.len() && (#[trigger] init[j]).rms.finite();
            assert(readings[j].rms.finite());
        }
        k
    }
}

/// Where no hop is louder than its attack level, nothing is found.
pub proof fn no_rise_no_onset(s: Stream, readings: Seq<HopReading>)
    requires
        forall|k: int|
            0 <= k < readings.len() ==> !(#[trigger] readings[k]).attack_level.below(
                readings[k].rms,
            ),
    ensures
        s.found(readings).len() == 0,
{
    if s.found(readings).len() > 0 {
        let k = onsets_are_sharp_rises(s, readings, 0);
        assert(!readings[k].attack_level.below(readings[k].rms));
    }
}

/// A steady sound starts at most once: where one hop alone is louder than its
/// attack level, there is at most one onset, and it starts at that hop.
pub proof fn steady_sounds_start_once(s: Stream, readings: Seq<HopReading>, rise: int)
    requires
        forall|k: int|
            0 <= k < readings.len() && k != rise ==> !(
            #[trigger] readings[k]).attack_level.below(readings[k].rms),
    ensures
        s.found(readings).len() <= 1,
        s.found(readings).len() == 1 ==> s.found(readings)[0].start == s.base + 256 * rise,
{
    if s.found(readings).len() > 0 {
        let k = onsets_are_sharp_rises(s, readings, 0);
        assert(k == rise);
    }
    if s.found(readings).len() > 1 {
        let k = onsets_are_sharp_rises(s, readings, 1);
        assert(k == rise);
        windows_never_overlap(s, readings);
        assert(s.found(readings)[0].start < s.found(readings)[1].start);
    }
}

proof fn refractory_since(s: Stream, readings: Seq<HopReading>) -> (at: int)
    requires
        s.cooldown == 0,
        forall|k: int| 0 <= k < readings.len() ==> (#[trigger] readings[k]).rms.finite(),
    ensures
        s.after(readings).cooldown > 0 ==> 0 <= at < readings.len() && s.after(
            readings,
        ).cooldown == 17 - (readings.len() - at) && exists|i: int|
            0 <= i < s.found(readings).len() && (#[trigger] s.found(readings)[i]).start == s.base
                + 256 * at,
    decreases readings.len(),
{
    if readings.len() == 0 {
        0
    } else {
        let init = readings.drop_last();
        assert forall|k: int| 0 <= k < init.len() implies (#[trigger] init[k]).rms.finite() by {
            assert(readings[k].rms.finite());
        }
        let before = refractory_since(s, init);
        spacing(s, init);
        assert(readings[readings.len() - 1].rms.finite());
        let state = s.after(init);
        if state.cooldown > 0 {
            let i = choose|i: int|
                0 <= i < s.found(init).len() && (#[trigger] s.found(init)[i]).start == s.base + 256
                    * before;
            assert(s.found(readings)[i].start == s.base + 256 * before);
            before
        } else {
            if state.fires(readings.last()) {
                assert(s.found(readings)[s.found(init).len() as int].start == s.base + 256 * (
                readings.len() - 1));
            }
            readings.len() - 1
        }
    }
}

proof fn found_so_far(s: Stream, readings: Seq<HopReading>, n: int)
    requires
        0 <= n <= readings.len(),
    ensures
        s.found(readings.take(n)).is_prefix_of(s.found(readings)),
{
    assert(readings =~= readings.take(n) + readings.skip(n));
    after_joins(s, readings.take(n), readings.skip(n));
    assert(s.found(readings.take(n)).is_prefix_of(s.found(readings)));
}

/// No sharp rise is missed: a hop that stands out of the noise and is louder than
/// its attack level starts an onset, unless no hop was heard before it or one of
/// the sixteen hops before it started one.
pub proof fn sharp_rises_are_found(s: Stream, readings: Seq<HopReading>, k: int)
    requires
        s.cooldown == 0,
        forall|j: int| 0 <= j < readings.len() ==> (#[trigger] readings[j]).rms.finite(),
        0 <= k < readings.len(),
        s.initialized || k > 0,
        readings[k].attack_level.below(readings[k].rms),
        readings[k].onset_level.below(readings[k].rms),
        (Single { bits: 0x3586_37bd }).below(readings[k].rms),
    ensures
        exists|i: int|
            0 <= i < s.found(readings).len() && s.base + 256 * (k - 16) <= (
            #[trigger] s.found(readings)[i]).start <= s.base + 256 * k,
        (forall|i: int|
            0 <= i < s.found(readings).len() ==> !(s.base + 256 * (k - 16) <= (
            #[trigger] s.found(readings)[i]).start < s.base + 256 * k)) ==> exists|i: int|
            0 <= i < s.found(readings).len() && (#[trigger] s.found(readings)[i]).start == s.base
                + 256 * k,
{
    let before = readings.take(k);
    assert forall|j: int| 0 <= j < before.len() implies (#[trigger] before[j]).rms.finite() by {
        assert(readings[j].rms.finite());
    }
    let at = refractory_since(s, before);
    hops_before(s, before);
    spacing(s, before);
    let state = s.after(before);
    if k > 0 {
        assert(before[0].rms.finite());
    }
    if state.cooldown > 0 {
        let i = choose|i: int|
            0 <= i < s.found(before).len() && (#[trigger] s.found(before)[i]).start == s.base + 256
                * at;
        found_so_far(s, readings, k);
        assert(s.found(readings)[i] == s.found(before)[i]);
        assert(k - 16 <= at < k);
    } else {
        let upto = readings.take(k + 1);
        assert(upto.drop_last() =~= before);
        assert(readings[k].rms.finite());
        assert(state.fires(readings[k]));
        let i = s.found(before).len() as int;
        assert(s.found(upto)[i].start == s.base + 256 * k);
        found_so_far(s, readings, k + 1);
        assert(s.found(readings)[i] == s.found(upto)[i]);
    }
}

/// What a hop leaves behind. A hop that is heard becomes the one that the next is
/// compared with. The noise floor follows quiet hops alone: one that starts an
/// onset, or lies in the refractory period, leaves it. An onset is followed by
/// sixteen hops that start none.
pub proof fn hops_leave_their_levels(s: Stream, r: HopReading)
    requires
        r.rms.finite(),
    ensures
        s.past(r).base == s.base + 256,
        s.past(r).pending == s.pending.skip(256),
        s.past(r).prev_hop_rms == r.rms,
        s.past(r).initialized,
        s.cooldown > 0 ==> s.found(seq![r]).len() == 0 && s.past(r).cooldown == s.cooldown - 1
            && s.past(r).noise_floor == s.noise_floor,
        s.cooldown == 0 && s.found(seq![r]).len() == 0 ==> s.past(r).cooldown == 0 && s.past(
            r,
        ).noise_floor == r.tracked_floor,
        s.found(seq![r]).len() > 0 ==> s.past(r).cooldown == 16 && s.past(r).noise_floor
            == s.noise_floor,
{
    assert(seq![r].drop_last() =~= Seq::<HopReading>::empty());
    assert(s.after(seq![r].drop_last()) == s);
    assert(s.found(seq![r].drop_last()).len() == 0);
}

/// Every hop is measured in its place: on the full window that starts with it,
/// against the levels that the hops before it have left, the energy of the hop
/// before it among them. The hops go on as long as a full window is there.
pub proof fn hops_are_measured_in_their_place(
    s: Stream,
    measure: spec_fn(Seq<Single>, Single, Single, HopReading) -> bool,
    readings: Seq<HopReading>,
    k: int,
)
    requires
        s.read_partly(measure, readings),
        0 <= k < readings.len(),
    ensures
        256 * k + 4096 <= s.pending.len(),
        measure(
            s.pending.subrange(256 * k, 256 * k + 4096),
            s.after(readings.take(k)).noise_floor,
            s.after(readings.take(k)).prev_hop_rms,
            readings[k],
        ),
        k == 0 ==> s.after(readings.take(k)) == s,
        k > 0 && readings[k - 1].rms.finite() ==> s.after(readings.take(k)).prev_hop_rms
            == readings[k - 1].rms,
        s.read_through(measure, readings) ==> s.pending.len() < 256 * readings.len() + 4096,
{
    hops_pass_samples(s, measure, readings, k);
    hops_pass_samples(s, measure, readings, readings.len() as int);
    assert(readings.take(readings.len() as int) =~= readings);
    assert(s.reads(measure, readings, k));
    let at = s.after(readings.take(k));
    assert(at.window() =~= s.pending.subrange(256 * k, 256 * k + 4096));
    hops_before(s, readings.take(k));
    if k > 0 {
        assert(readings.take(k).last() == readings[k - 1]);
    }
}

/// A sound that does not get louder starts no onset: with an attack level that is
/// no lower than the energy of the hop before, every onset after the first hop
/// starts at a hop that is louder than the one before it.
pub proof fn onsets_are_louder_than_the_hop_before(
    s: Stream,
    measure: spec_fn(Seq<Single>, Single, Single, HopReading) -> bool,
    readings: Seq<HopReading>,
    i: int,
)
    requires
        s.read_partly(measure, readings),
        forall|w: Seq<Single>, floor: Single, prev: Single, r: HopReading| #[trigger]
            measure(w, floor, prev, r) && prev.finite() ==> prev.at_most(r.attack_level),
        forall|j: int| 0 <= j < readings.len() ==> (#[trigger] readings[j]).rms.finite(),
        0 <= i < s.found(readings).len(),
        s.found(readings)[i].start > s.base,
    ensures
        exists|k: int|
            0 < k < readings.len() && s.found(readings)[i].start == s.base + 256 * k && readings[k
                - 1].rms.below((#[trigger] readings[k]).rms),
{
    let k = onsets_are_sharp_rises(s, readings, i);
    assert(readings[k - 1].rms.finite());
    hops_are_measured_in_their_place(s, measure, readings, k);
    assert(readings[k - 1].rms.below(readings[k].rms));
}

/// A fresh detector cannot tell a rise at the first hop: what it finds starts
/// later.
pub proof fn nothing_starts_with_the_stream(samples: Seq<Single>, readings: Seq<HopReading>, i: int)
    requires
        0 <= i < Stream::silent().fed(samples).found(readings).len(),
    ensures
        Stream::silent().fed(samples).found(readings)[i].start >= 256,
{
    let k = onsets_are_sharp_rises(Stream::silent().fed(samples), readings, i);
}

/// The decay is measured from fifteen milliseconds at either end, 661 samples,
/// but from no more than a quarter of the window.
pub proof fn decay_edges_are_short(n: usize, edge: usize)
    requires
        call_ensures(decay_edge, (n,), edge),
    ensures
        edge <= 661,
        4 * edge <= n,
        edge == 661 || 4 * (edge + 1) > n,
{
}

} // verus!
