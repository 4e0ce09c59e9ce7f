//! The feature vector of one tap and the layout of its parts.

use vstd::prelude::*;

use crate::single::{all_finite, finite_seq, Single, ZERO};

verus! {

/// Capture rate that every window is taken at.
pub const SAMPLE_RATE_HZ: u32 = 44_100;

/// Samples in one feature window.
pub const FEATURE_WINDOW_SAMPLES: usize = 4096;

/// Time-domain features at the front of the vector.
pub const TEMPORAL_FEATURE_COUNT: usize = 6;

/// Spectral bands that follow them.
pub const SPECTRAL_BAND_COUNT: usize = 16;

/// Cepstral coefficients at the end.
pub const CEPSTRAL_COEFF_COUNT: usize = 12;

/// Length of the whole vector.
pub const FEATURE_DIM: usize = 34;

/// Features of one tap.
#[derive(Clone, Copy, Debug)]
pub struct FeatureVector {
    pub temporal: [Single; 6],
    pub spectral_bands: [Single; 16],
    pub cepstral: [Single; 12],
}

impl View for FeatureVector {
    type V = Seq<Single>;

    /// The features in order: temporal, spectral, cepstral.
    open spec fn view(&self) -> Seq<Single> {
        self.temporal@ + self.spectral_bands@ + self.cepstral@
    }
}

impl FeatureVector {
    /// All features in one array, in the order of the view.
    pub fn as_array(&self) -> (out: [Single; 34])
        ensures
            out@ == self@,
            out@.len() == FEATURE_DIM,
            FEATURE_DIM == TEMPORAL_FEATURE_COUNT + SPECTRAL_BAND_COUNT + CEPSTRAL_COEFF_COUNT,
    {
        let mut out: [Single; 34] = [Single { bits: ZERO };34];
        let mut i: usize = 0;
        while i < 34
            invariant
                i <= 34,
                self@.len() == 34,
                forall|j: int| 0 <= j < i ==> out@[j] == #[trigger] self@[j],
            decreases 34 - i,
        {
            let v: Single = if i < 6 {
                self.temporal[i]
            } else if i < 22 {
                self.spectral_bands[i - 6]
            } else {
                self.cepstral[i - 22]
            };
            out[i] = v;
            i += 1;
        }
        proof {
            assert(out@ =~= self@);
        }
        out
    }

    /// Whether every feature is finite.
    pub fn is_finite(&self) -> (r: bool)
        ensures
            r == finite_seq(self@),
    {
        let all = self.as_array();
        all_finite(&all)
    }
}

/// The smaller of two positions.
pub open spec fn least(a: int, b: int) -> int {
    if a <= b {
        a
    } else {
        b
    }
}

/// Band `i` between rounded edges: from its lower edge to the next one, at
/// least one bin wide, and nothing past the last bin.
pub open spec fn band(edge_bins: Seq<usize>, max_bin: int, i: int) -> (int, int) {
    let lo = least(edge_bins[i] as int, max_bin);
    let next = least(edge_bins[i + 1] as int, max_bin);
    (
        lo,
        least(
            if next > lo {
                next
            } else {
                lo + 1
            },
            max_bin,
        ),
    )
}

/// The bin ranges of the spectral bands between rounded band edges, for a
/// spectrum of `fft_size` points. One edge more than bands.
pub fn compute_band_bins(fft_size: usize, edge_bins: &[usize]) -> (ranges: Vec<(usize, usize)>)
    requires
        edge_bins@.len() > 0,
    ensures
        ranges@.len() == edge_bins@.len() - 1,
        forall|i: int|
            0 <= i < ranges@.len() ==> ((#[trigger] ranges@[i]).0 as int, ranges@[i].1 as int)
                == band(edge_bins@, fft_size as int / 2, i),
{
    let max_bin: usize = fft_size / 2;
    let mut ranges: Vec<(usize, usize)> = Vec::new();
    let mut i: usize = 0;
    while i < edge_bins.len() - 1
        invariant
            edge_bins@.len() > 0,
            i <= edge_bins@.len() - 1,
            max_bin == fft_size / 2,
            ranges@.len() == i,
            forall|j: int|
                0 <= j < i ==> ((#[trigger] ranges@[j]).0 as int, ranges@[j].1 as int) == band(
                    edge_bins@,
                    fft_size as int / 2,
                    j,
                ),
        decreases edge_bins@.len() - i,
    {
        let lo: usize = if edge_bins[i] <= max_bin {
            edge_bins[i]
        } else {
            max_bin
        };
        let next: usize = if edge_bins[i + 1] <= max_bin {
            edge_bins[i + 1]
        } else {
            max_bin
        };
        let wide: usize = if next > lo {
            next
        } else {
            lo + 1
        };
        let hi: usize = if wide <= max_bin {
            wide
        } else {
            max_bin
        };
        ranges.push((lo, hi));
        i += 1;
    }
    ranges
}

/// Every band lies inside the spectrum, and below the last bin it is not empty.
pub proof fn bands_lie_inside(edge_bins: Seq<usize>, max_bin: int, i: int)
    requires
        0 <= i < edge_bins.len() - 1,
        0 <= max_bin,
    ensures
        0 <= band(edge_bins, max_bin, i).0 <= band(edge_bins, max_bin, i).1 <= max_bin,
        edge_bins[i] < max_bin ==> band(edge_bins, max_bin, i).0 < band(edge_bins, max_bin, i).1,
{
}

/// What can be read off a window without rounding: its largest absolute value,
/// where that is first reached, and how often the signal changes sides.
#[derive(Clone, Copy, Debug, PartialEq, Eq, Structural)]
pub struct WindowShape {
    pub peak: Single,
    pub peak_idx: usize,
    pub zero_crossings: usize,
}

/// Not below zero; a NaN is.
pub open spec fn upper_side(s: Single) -> bool {
    (Single { bits: ZERO }).at_most(s)
}

/// The shape of a window.
pub open spec fn shape_of(x: Seq<Single>) -> WindowShape
    decreases x.len(),
{
    if x.len() == 0 {
        WindowShape { peak: Single { bits: ZERO }, peak_idx: 0, zero_crossings: 0 }
    } else {
        let before = shape_of(x.drop_last());
        let a = x.last().unsigned();
        let crosses = x.len() > 1 && upper_side(x.last()) != upper_side(x[x.len() - 2]);
        WindowShape {
            peak: if before.peak.below(a) {
                a
            } else {
                before.peak
            },
            peak_idx: if before.peak.below(a) {
                (x.len() - 1) as usize
            } else {
                before.peak_idx
            },
            zero_crossings: if crosses {
                (before.zero_crossings + 1) as usize
            } else {
                before.zero_crossings
            },
        }
    }
}

/// Read off the shape of a window.
pub fn window_shape(x: &[Single]) -> (r: WindowShape)
    ensures
        r == shape_of(x@),
{
    let mut r = WindowShape { peak: Single { bits: ZERO }, peak_idx: 0, zero_crossings: 0 };
    let mut i: usize = 0;
    while i < x.len()
        invariant
            i <= x@.len(),
            r == shape_of(x@.take(i as int)),
            r.zero_crossings <= i,
        decreases x@.len() - i,
    {
        proof {
            assert(x@.take(i + 1).drop_last() =~= x@.take(i as int));
        }
        let s: Single = x[i];
        let a: Single = s.abs();
        if r.peak.lt(a) {
            r.peak = a;
            r.peak_idx = i;
        }
        if i > 0 {
            let above: bool = (Single { bits: ZERO }).le(s);
            let was_above: bool = (Single { bits: ZERO }).le(x[i - 1]);
            if above != was_above {
                r.zero_crossings = r.zero_crossings + 1;
            }
        }
        i += 1;
    }
    proof {
        assert(x@.take(i as int) =~= x@);
    }
    r
}

/// No number of a window exceeds its peak, and a peak that is not zero is
/// reached at its position.
pub proof fn peaks_bound_the_window(x: Seq<Single>, i: int)
    requires
        0 <= i < x.len() <= usize::MAX,
        !x[i].nan(),
    ensures
        x[i].unsigned().at_most(shape_of(x).peak),
        shape_of(x).peak.rank() > 0 ==> shape_of(x).peak_idx < x.len() && x[shape_of(
            x,
        ).peak_idx as int].unsigned() == shape_of(x).peak,
{
    peak_is_reached(x);
    peak_bounds(x, i);
}

proof fn peak_is_reached(x: Seq<Single>)
    requires
        x.len() <= usize::MAX,
    ensures
        !shape_of(x).peak.nan(),
        shape_of(x).peak.rank() >= 0,
        shape_of(x).peak.rank() > 0 ==> shape_of(x).peak_idx < x.len() && x[shape_of(
            x,
        ).peak_idx as int].unsigned() == shape_of(x).peak,
    decreases x.len(),
{
    if x.len() > 0 {
        let t = x.drop_last();
        peak_is_reached(t);
        if shape_of(t).peak.rank() > 0 {
            assert(t[shape_of(t).peak_idx as int] == x[shape_of(t).peak_idx as int]);
        }
    }
}

proof fn peak_bounds(x: Seq<Single>, i: int)
    requires
        0 <= i < x.len() <= usize::MAX,
        !x[i].nan(),
    ensures
        x[i].unsigned().at_most(shape_of(x).peak),
    decreases x.len(),
{
    let t = x.drop_last();
    peak_is_reached(t);
    if i < t.len() {
        assert(t[i] == x[i]);
        peak_bounds(t, i);
    }
}

/// Bands between rising edges below the last bin lie edge to edge: each runs from
/// its own edge to the next.
pub proof fn bands_lie_edge_to_edge(
    fft_size: usize,
    edge_bins: &[usize],
    ranges: Vec<(usize, usize)>,
    i: int,
)
    requires
        edge_bins@.len() > 0,
        call_ensures(compute_band_bins, (fft_size, edge_bins), ranges),
        0 <= i < edge_bins@.len() - 1,
    ensures
        ranges@.len() == edge_bins@.len() - 1,
        ranges@[i].0 <= ranges@[i].1 <= fft_size / 2,
        edge_bins@[i] <= fft_size / 2 ==> ranges@[i].0 == edge_bins@[i],
        edge_bins@[i] < edge_bins@[i + 1] <= fft_size / 2 ==> ranges@[i].1 == edge_bins@[i + 1],
        edge_bins@[i] >= edge_bins@[i + 1] && edge_bins@[i] < fft_size / 2 ==> ranges@[i].1
            == edge_bins@[i] + 1,
        edge_bins@[i] >= fft_size / 2 ==> ranges@[i].0 == ranges@[i].1,
{
    assert((ranges@[i].0 as int, ranges@[i].1 as int) == band(
        edge_bins@,
        fft_size as int / 2,
        i,
    ));
}

/// One more sample raises the number of crossings by one where it lies on the other
/// side of zero than the sample before it, and leaves it otherwise. A louder sample
/// than all before becomes the peak.
pub proof fn samples_change_the_shape_one_by_one(x: Seq<Single>, v: Single)
    requires
        x.len() < usize::MAX,
        !v.nan(),
        x.len() > 0 ==> !x.last().nan(),
    ensures
        shape_of(Seq::empty()).zero_crossings == 0 && shape_of(Seq::empty()).peak.bits == 0,
        x.len() > 0 ==> shape_of(x.push(v)).zero_crossings == shape_of(x).zero_crossings + if (
        v.below(Single { bits: 0 }) != x.last().below(Single { bits: 0 })) {
            1int
        } else {
            0
        },
        x.len() == 0 ==> shape_of(x.push(v)).zero_crossings == 0,
        shape_of(x).peak.below(v.unsigned()) ==> shape_of(x.push(v)).peak == v.unsigned()
            && shape_of(x.push(v)).peak_idx == x.len(),
        !shape_of(x).peak.below(v.unsigned()) ==> shape_of(x.push(v)).peak == shape_of(x).peak
            && shape_of(x.push(v)).peak_idx == shape_of(x).peak_idx,
{
    assert(x.push(v).drop_last() =~= x);
    crossings_fit(x);
}

proof fn crossings_fit(x: Seq<Single>)
    requires
        x.len() <= usize::MAX,
    ensures
        shape_of(x).zero_crossings <= x.len(),
        x.len() > 0 ==> shape_of(x).zero_crossings < x.len(),
    decreases x.len(),
{
    if x.len() > 0 {
        crossings_fit(x.drop_last());
    }
}

/// The peak is where it is first reached: every sample before it is smaller.
pub proof fn peaks_are_where_they_are_first_reached(x: Seq<Single>, i: int)
    requires
        x.len() <= usize::MAX,
        0 <= i < shape_of(x).peak_idx,
        i < x.len(),
        !x[i].nan(),
        shape_of(x).peak.rank() > 0,
    ensures
        x[i].unsigned().below(shape_of(x).peak),
    decreases x.len(),
{
    let t = x.drop_last();
    peak_is_reached(t);
    if shape_of(t).peak.below(x.last().unsigned()) {
        peak_bounds(t, i);
    } else {
        assert(t[i] == x[i]);
        peaks_are_where_they_are_first_reached(t, i);
    }
}

/// The features stand in one row: six of the time domain, sixteen bands, twelve
/// cepstral coefficients.
pub proof fn features_stand_in_one_row(fv: &FeatureVector, out: [Single; 34], i: int)
    requires
        call_ensures(FeatureVector::as_array, (fv,), out),
    ensures
        0 <= i < 6 ==> out@[i] == fv.temporal@[i],
        0 <= i < 16 ==> out@[6 + i] == fv.spectral_bands@[i],
        0 <= i < 12 ==> out@[22 + i] == fv.cepstral@[i],
{
}

} // verus!
