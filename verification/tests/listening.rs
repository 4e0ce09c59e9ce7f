//! Hearing taps: onsets, features, the classifier, calibration and endurance.

#![allow(dead_code)]

use std::sync::Arc;

use qwerty::calibration::{
    assess_environment, assess_tap, build_profile, leave_one_out_consistency, onset_edge,
    CalibrationError, CalibrationSession, EnvironmentQuality, TapFeedback, ZoneMeta,
};
use qwerty::classifier::{
    plan_zones, Classification, ClassifierError, ClassifierParams, Distances, Fit,
};
use qwerty::features::{
    compute_band_bins, window_shape, FeatureVector, CEPSTRAL_COEFF_COUNT, FEATURE_DIM,
    FEATURE_WINDOW_SAMPLES, SAMPLE_RATE_HZ, SPECTRAL_BAND_COUNT, TEMPORAL_FEATURE_COUNT,
};
use qwerty::ids::{ProfileId, ZoneId};
use qwerty::onset::{decay_edge, HopReading, OnsetDetector, OnsetEvent, HOP};
use qwerty::profile::{DeviceFingerprint, SensingMode, Timestamp, ZoneLayout};
use qwerty::single::{min_of, total_max_of, Single};
use qwerty::soak::{failures, pipeline_first, BatchTally, Lcg, SoakConfig, SoakFailure};
use rustfft::num_complex::Complex;
use rustfft::{Fft, FftPlanner};

const ONSET_RATIO: f32 = 3.0;
const ATTACK_RATIO: f32 = 2.0;
const NOISE_EMA_ALPHA: f32 = 0.05;
const MASK_RATIO: f32 = 3.0;
const STD_FLOOR: f32 = 1e-6;
const NOVELTY_SIGMA: f32 = 4.0;
const CONFIDENCE_BETA: f32 = 1.0;
const BAND_LOW_HZ: f32 = 120.0;
const EPS: f32 = 1e-9;
const DECAY_EPS: f32 = 1e-12;

/// A number by its encoding.
fn single(x: f32) -> Single {
    Single::from_bits(x.to_bits())
}

/// The number of an encoding.
fn float(s: Single) -> f32 {
    f32::from_bits(s.to_bits())
}

fn singles(xs: &[f32]) -> Vec<Single> {
    xs.iter().map(|x| single(*x)).collect()
}

fn floats(xs: &[Single]) -> Vec<f32> {
    xs.iter().map(|s| float(*s)).collect()
}

fn mean_sq(x: &[f32]) -> f32 {
    if x.is_empty() {
        return 0.0;
    }
    x.iter().map(|s| s * s).sum::<f32>() / x.len() as f32
}

/// What the onset detector asks of a window.
fn hop_reading(window: &[Single], noise_floor: Single, prev_hop_rms: Single) -> HopReading {
    let w = floats(window);
    let floor = float(noise_floor);
    let hop = &w[..HOP];
    let rms = (hop.iter().map(|s| s * s).sum::<f32>() / hop.len() as f32).sqrt();
    let edge = decay_edge(w.len());
    let head = mean_sq(&w[..edge]);
    let tail = mean_sq(&w[w.len() - edge..]);
    HopReading {
        rms: single(rms),
        onset_level: single(floor * ONSET_RATIO),
        attack_level: single(float(prev_hop_rms) * ATTACK_RATIO),
        tracked_floor: single(NOISE_EMA_ALPHA * rms + (1.0 - NOISE_EMA_ALPHA) * floor),
        decay_ratio: single(tail / (head + DECAY_EPS)),
    }
}

/// Energy of samples, summed in double precision.
fn rms(x: &[f32]) -> f32 {
    if x.is_empty() {
        return 0.0;
    }
    (x.iter().map(|s| (*s as f64) * (*s as f64)).sum::<f64>() / x.len() as f64).sqrt() as f32
}

/// Loudness of the first samples of a window.
fn onset_loudness(window: &[Single]) -> Single {
    if window.is_empty() {
        return single(0.0);
    }
    single(rms(&floats(&window[..onset_edge(window.len())])))
}

/// The loudness that stands out of a noise floor.
fn mask_level(noise_floor: f32) -> Single {
    single(noise_floor * MASK_RATIO)
}

/// Turns windows into feature vectors.
struct FeatureExtractor {
    fft: Arc<dyn Fft<f32>>,
    hann: Vec<f32>,
    band_bins: Vec<(usize, usize)>,
}

impl FeatureExtractor {
    fn new() -> Self {
        let n = FEATURE_WINDOW_SAMPLES;
        let fft = FftPlanner::<f32>::new().plan_fft_forward(n);
        let hann = (0..n)
            .map(|i| {
                let s = (std::f32::consts::PI * i as f32 / n as f32).sin();
                s * s
            })
            .collect();
        Self {
            fft,
            hann,
            band_bins: compute_band_bins(n, &band_edges(n, SAMPLE_RATE_HZ, SPECTRAL_BAND_COUNT)),
        }
    }

    /// Features of a window of exactly [`FEATURE_WINDOW_SAMPLES`] samples.
    fn extract(&self, window: &[Single]) -> FeatureVector {
        assert_eq!(
            window.len(),
            FEATURE_WINDOW_SAMPLES,
            "feature window must be exactly {FEATURE_WINDOW_SAMPLES} samples",
        );
        let x = floats(window);
        let temporal = temporal_features(window, &x);
        let mut buf: Vec<Complex<f32>> = x
            .iter()
            .zip(&self.hann)
            .map(|(s, w)| Complex::new(s * w, 0.0))
            .collect();
        self.fft.process(&mut buf);
        let mut bands = [0.0f32; SPECTRAL_BAND_COUNT];
        for (band, &(lo, hi)) in bands.iter_mut().zip(&self.band_bins) {
            let mut acc = 0.0f32;
            for c in &buf[lo..hi] {
                acc += c.norm_sqr();
            }
            *band = acc;
        }
        let total: f32 = bands.iter().sum::<f32>() + EPS;
        for b in &mut bands {
            *b /= total;
        }
        FeatureVector {
            temporal: temporal.map(single),
            spectral_bands: bands.map(single),
            cepstral: cepstrum(&bands).map(single),
        }
    }
}

/// The rounded bins of log-spaced band edges.
fn band_edges(fft_size: usize, sample_rate: u32, band_count: usize) -> Vec<usize> {
    let hz_per_bin = sample_rate as f32 / fft_size as f32;
    let log_lo = BAND_LOW_HZ.ln();
    let log_hi = (sample_rate as f32 / 2.0).ln();
    (0..=band_count)
        .map(|i| {
            let frac = i as f32 / band_count as f32;
            let hz = (log_lo + (log_hi - log_lo) * frac).exp();
            (hz / hz_per_bin).round() as usize
        })
        .collect()
}

fn temporal_features(window: &[Single], x: &[f32]) -> [f32; TEMPORAL_FEATURE_COUNT] {
    let n = x.len() as f32;
    let shape = window_shape(window);
    let mut sum_sq = 0.0f32;
    let mut centroid_num = 0.0f32;
    for (i, &s) in x.iter().enumerate() {
        let sq = s * s;
        sum_sq += sq;
        centroid_num += i as f32 * sq;
    }
    let rms = (sum_sq / n).sqrt();
    let peak = float(shape.peak);
    [
        (rms + EPS).ln(),
        shape.zero_crossings as f32 / n,
        peak,
        peak / (rms + EPS),
        shape.peak_idx as f32 / n,
        centroid_num / (sum_sq + EPS) / n,
    ]
}

fn cepstrum(bands: &[f32; SPECTRAL_BAND_COUNT]) -> [f32; CEPSTRAL_COEFF_COUNT] {
    let log_bands = bands.map(|b| (b + EPS).ln());
    let m = SPECTRAL_BAND_COUNT as f32;
    let mut out = [0.0f32; CEPSTRAL_COEFF_COUNT];
    for (k_idx, o) in out.iter_mut().enumerate() {
        let k = (k_idx + 1) as f32;
        let mut acc = 0.0f32;
        for (n_idx, &lb) in log_bands.iter().enumerate() {
            let angle = std::f32::consts::PI / m * (n_idx as f32 + 0.5) * k;
            acc += lb * angle.cos();
        }
        *o = acc;
    }
    out
}

fn euclidean(a: &[f32], b: &[f32]) -> f32 {
    a.iter()
        .zip(b)
        .map(|(x, y)| {
            let d = x - y;
            d * d
        })
        .sum::<f32>()
        .sqrt()
}

fn mean_std(xs: &[f32]) -> (f32, f32) {
    if xs.is_empty() {
        return (0.0, 0.0);
    }
    let n = xs.len() as f32;
    let mean = xs.iter().sum::<f32>() / n;
    let var = xs.iter().map(|x| (x - mean).powi(2)).sum::<f32>() / n;
    (mean, var.sqrt())
}

fn features(fv: &FeatureVector) -> Vec<f32> {
    floats(&fv.as_array())
}

fn standardized(x: &[f32], mean: &[f32], std: &[f32]) -> Vec<f32> {
    x.iter()
        .zip(mean.iter().zip(std))
        .map(|(&x, (&m, &sd))| (x - m) / sd)
        .collect()
}

/// Statistics and distances of labelled samples, for a classifier to be
/// assembled from.
fn fit(samples: &[(ZoneId, FeatureVector)], negatives: &[FeatureVector]) -> Fit {
    let raw: Vec<Vec<f32>> = samples.iter().map(|(_, fv)| features(fv)).collect();
    let n = raw.len() as f32;
    let mut mean = vec![0.0f32; FEATURE_DIM];
    for r in &raw {
        for (m, x) in mean.iter_mut().zip(r) {
            *m += x;
        }
    }
    for m in &mut mean {
        *m /= n;
    }
    let mut std = vec![0.0f32; FEATURE_DIM];
    for r in &raw {
        for (s, (x, m)) in std.iter_mut().zip(r.iter().zip(&mean)) {
            let d = x - m;
            *s += d * d;
        }
    }
    for s in &mut std {
        *s = (*s / n).sqrt().max(STD_FLOOR);
    }
    let examples: Vec<Vec<f32>> = raw.iter().map(|r| standardized(r, &mean, &std)).collect();
    let mut centroids: Vec<Vec<f32>> = Vec::new();
    let mut spreads: Vec<f32> = Vec::new();
    if let Ok(plan) = plan_zones(samples) {
        centroids = vec![vec![0.0f32; FEATURE_DIM]; plan.zone_ids.len()];
        for (ex, &z) in examples.iter().zip(&plan.zone_of) {
            for (c, x) in centroids[z].iter_mut().zip(ex) {
                *c += x;
            }
        }
        for (c, &count) in centroids.iter_mut().zip(&plan.counts) {
            for x in c.iter_mut() {
                *x /= count as f32;
            }
        }
        spreads = examples
            .iter()
            .zip(&plan.zone_of)
            .map(|(ex, &z)| euclidean(ex, &centroids[z]))
            .collect();
    }
    let (spread_mean, spread_std) = mean_std(&spreads);
    let negative_distances: Vec<Single> = negatives
        .iter()
        .map(|fv| {
            let z = standardized(&features(fv), &mean, &std);
            single(
                examples
                    .iter()
                    .map(|ex| euclidean(&z, ex))
                    .fold(f32::INFINITY, f32::min),
            )
        })
        .collect();
    let spreads = singles(&spreads);
    let midpoint = (float(total_max_of(&spreads)) + float(min_of(&negative_distances))) * 0.5;
    Fit {
        feature_mean: singles(&mean),
        feature_std: singles(&std),
        standardized: examples.iter().map(|v| singles(v)).collect(),
        centroids: centroids.iter().map(|v| singles(v)).collect(),
        spreads,
        spread_bound: single(spread_mean + NOVELTY_SIGMA * spread_std),
        negative_distances,
        midpoint: single(midpoint),
    }
}

/// Distances of a feature vector from everything that a classifier knows.
fn measure(params: &ClassifierParams, fv: &FeatureVector) -> Distances {
    let z = standardized(
        &features(fv),
        &floats(&params.feature_mean),
        &floats(&params.feature_std),
    );
    let to = |v: &Vec<Single>| euclidean(&z, &floats(v));
    let examples: Vec<Single> = params.examples.iter().map(|ex| single(to(&ex.v))).collect();
    let centroids: Vec<f32> = params.centroids.iter().map(to).collect();
    let min_d2 = centroids.iter().map(|d| d * d).fold(f32::INFINITY, f32::min);
    let weights: Vec<f32> = centroids
        .iter()
        .map(|d| (-CONFIDENCE_BETA * (d * d - min_d2)).exp())
        .collect();
    let denom: f32 = weights.iter().fold(0.0, |a, w| a + w);
    Distances {
        examples,
        centroids: singles(&centroids),
        confidences: weights
            .iter()
            .map(|w| single(if denom > 0.0 { w / denom } else { 0.0 }))
            .collect(),
    }
}

const PI: f32 = std::f32::consts::PI;

fn process(d: &mut OnsetDetector, samples: &[f32]) -> Vec<OnsetEvent> {
    d.process(&singles(samples), hop_reading)
}

fn silence(n: usize) -> Vec<f32> {
    vec![0.0; n]
}

/// A tap-like impulse: instant attack, exponential decay.
fn tap(n: usize, amp: f32) -> Vec<f32> {
    (0..n)
        .map(|i| {
            let t = i as f32 / SAMPLE_RATE_HZ as f32;
            let env = (-t * 120.0).exp();
            let carrier = (2.0 * PI * 2500.0 * i as f32 / SAMPLE_RATE_HZ as f32).sin();
            amp * env * carrier
        })
        .collect()
}

/// A sustained tone: rises and stays energetic for the whole window.
fn sustained_tone(n: usize, amp: f32) -> Vec<f32> {
    (0..n)
        .map(|i| amp * (2.0 * PI * 440.0 * i as f32 / SAMPLE_RATE_HZ as f32).sin())
        .collect()
}

/// One signal surrounded by quiet, long enough to hold a full window.
fn clip_with(signal: Vec<f32>) -> Vec<f32> {
    let mut v = silence(HOP * 8);
    v.extend(signal);
    v.extend(silence(FEATURE_WINDOW_SAMPLES));
    v
}

// --- onsets ---------------------------------------------------------------

#[test]
fn accepts_a_tap_as_transient() {
    let mut d = OnsetDetector::new();
    let events = process(&mut d, &clip_with(tap(FEATURE_WINDOW_SAMPLES, 0.8)));
    assert_eq!(events.len(), 1, "expected exactly one onset for one tap");
    assert!(events[0].is_transient, "a tap must pass the sustained gate");
    assert_eq!(events[0].window.len(), FEATURE_WINDOW_SAMPLES);
}

#[test]
fn rejects_a_sustained_tone_as_non_tap() {
    let mut d = OnsetDetector::new();
    let events = process(&mut d, &clip_with(sustained_tone(FEATURE_WINDOW_SAMPLES * 2, 0.8)));
    assert!(
        events.iter().all(|e| !e.is_transient),
        "a sustained tone must not be accepted as a tap",
    );
}

#[test]
fn silence_produces_no_onsets() {
    let mut d = OnsetDetector::new();
    assert!(process(&mut d, &silence(FEATURE_WINDOW_SAMPLES * 4)).is_empty());
}

#[test]
fn amplitude_does_not_flip_the_tap_decision() {
    for amp in [0.2, 0.5, 1.0] {
        let mut d = OnsetDetector::new();
        let events = process(&mut d, &clip_with(tap(FEATURE_WINDOW_SAMPLES, amp)));
        assert!(
            events.iter().any(|e| e.is_transient),
            "tap at amp {amp} should be accepted",
        );
    }
}

#[test]
fn a_nan_sample_does_not_poison_the_noise_floor() {
    let floor_seen = std::cell::Cell::new(0.0f32);
    let watched = |w: &[Single], f: Single, p: Single| {
        floor_seen.set(float(f));
        hop_reading(w, f, p)
    };
    let mut d = OnsetDetector::new();
    // Warm the adaptive floor with steady background energy.
    d.process(&singles(&sustained_tone(FEATURE_WINDOW_SAMPLES * 2, 0.05)), &watched);
    assert!(floor_seen.get().is_finite() && floor_seen.get() > 1e-6);

    // A single corrupt sample must not turn the floor into NaN.
    d.process(&singles(&[f32::NAN]), &watched);
    d.process(&singles(&sustained_tone(FEATURE_WINDOW_SAMPLES, 0.05)), &watched);
    assert!(
        floor_seen.get().is_finite(),
        "noise floor became non-finite after a NaN sample: {}",
        floor_seen.get()
    );

    // The detector still works: a clean tap is still accepted.
    let events = d.process(&singles(&clip_with(tap(FEATURE_WINDOW_SAMPLES, 0.8))), &watched);
    assert!(floor_seen.get().is_finite());
    assert!(
        events.iter().any(|e| e.is_transient),
        "detector must still detect a real tap after a NaN sample"
    );
}

#[test]
fn windows_are_the_stream_at_their_start_in_any_chunks() {
    let mut clip = clip_with(tap(FEATURE_WINDOW_SAMPLES, 0.8));
    clip.extend(clip_with(tap(FEATURE_WINDOW_SAMPLES, 0.6)));
    let whole = process(&mut OnsetDetector::new(), &clip);
    assert!(whole.len() >= 2);
    for sizes in [[1, 0, 5000], [255, 256, 257], [4095, 4096, 4097]] {
        let mut d = OnsetDetector::new();
        let (mut events, mut at, mut turn) = (Vec::new(), 0, 0);
        while at < clip.len() {
            let end = (at + sizes[turn % 3]).min(clip.len());
            events.extend(process(&mut d, &clip[at..end]));
            at = end;
            turn += 1;
        }
        assert_eq!(events.len(), whole.len());
        for (a, b) in events.iter().zip(&whole) {
            assert_eq!((a.start, a.is_transient, &a.window), (b.start, b.is_transient, &b.window));
            assert_eq!(a.window, singles(&clip[a.start..a.start + FEATURE_WINDOW_SAMPLES]));
        }
        for pair in events.windows(2) {
            assert!(pair[0].start + FEATURE_WINDOW_SAMPLES < pair[1].start);
        }
    }
}

#[test]
fn streaming_in_small_chunks_matches_single_call() {
    let clip = clip_with(tap(FEATURE_WINDOW_SAMPLES, 0.8));

    let mut streamed = OnsetDetector::new();
    let mut events = Vec::new();
    for chunk in clip.chunks(100) {
        events.extend(process(&mut streamed, chunk));
    }

    let mut single_call = OnsetDetector::new();
    let one_shot = process(&mut single_call, &clip);

    assert!(
        events.iter().any(|e| e.is_transient),
        "streaming across chunk boundaries should still detect the tap",
    );
    assert_eq!(
        events.len(),
        one_shot.len(),
        "chunked and single-call must agree on onset count",
    );
    for (a, b) in events.iter().zip(&one_shot) {
        assert_eq!(a.start, b.start);
        assert_eq!(a.window, b.window);
        assert_eq!(a.is_transient, b.is_transient);
    }
}

#[test]
fn onsets_keep_a_refractory_distance() {
    let mut clip = clip_with(tap(FEATURE_WINDOW_SAMPLES, 0.8));
    clip.extend(tap(FEATURE_WINDOW_SAMPLES, 0.8));
    clip.extend(silence(FEATURE_WINDOW_SAMPLES));
    let mut d = OnsetDetector::new();
    let events = process(&mut d, &clip);
    assert_eq!(events.len(), 2);
    assert!(events[1].start > events[0].start + FEATURE_WINDOW_SAMPLES);
}

#[test]
fn the_default_detector_is_a_fresh_one() {
    let mut a = OnsetDetector::default();
    let mut b = OnsetDetector::new();
    let clip = clip_with(tap(FEATURE_WINDOW_SAMPLES, 0.5));
    assert_eq!(process(&mut a, &clip).len(), process(&mut b, &clip).len());
}

#[test]
fn decay_edges_are_fifteen_milliseconds_or_a_quarter() {
    assert_eq!(decay_edge(FEATURE_WINDOW_SAMPLES), 661);
    assert_eq!(decay_edge(100), 25);
    assert_eq!(decay_edge(0), 0);
    assert_eq!(onset_edge(FEATURE_WINDOW_SAMPLES), 661);
    assert_eq!(onset_edge(10), 10);
}

// --- features ---------------------------------------------------------------

fn sine(freq: f32, n: usize) -> Vec<f32> {
    (0..n)
        .map(|i| (2.0 * PI * freq * i as f32 / SAMPLE_RATE_HZ as f32).sin())
        .collect()
}

#[test]
fn dimensionality_is_stable() {
    assert_eq!(FEATURE_DIM, 34);
    let ex = FeatureExtractor::new();
    let fv = ex.extract(&singles(&sine(1000.0, FEATURE_WINDOW_SAMPLES)));
    assert_eq!(fv.as_array().len(), FEATURE_DIM);
}

#[test]
fn extraction_is_deterministic_bit_for_bit() {
    let win = singles(&sine(2000.0, FEATURE_WINDOW_SAMPLES));
    let a = FeatureExtractor::new();
    let b = FeatureExtractor::new();
    let fa = a.extract(&win);
    let fa2 = a.extract(&win);
    let fb = b.extract(&win);
    assert_eq!(fa.as_array(), fa2.as_array());
    assert_eq!(fa.as_array(), fb.as_array());
}

#[test]
fn output_is_always_finite() {
    let ex = FeatureExtractor::new();
    for input in [
        vec![0.0; FEATURE_WINDOW_SAMPLES],
        sine(440.0, FEATURE_WINDOW_SAMPLES),
        vec![1.0; FEATURE_WINDOW_SAMPLES],
    ] {
        let fv = ex.extract(&singles(&input));
        assert!(fv.is_finite(), "non-finite features for an input");
    }
}

#[test]
fn spectral_bands_form_a_distribution() {
    let ex = FeatureExtractor::new();
    let fv = ex.extract(&singles(&sine(3000.0, FEATURE_WINDOW_SAMPLES)));
    let sum: f32 = fv.spectral_bands.iter().map(|s| float(*s)).sum();
    assert!((sum - 1.0).abs() < 1e-3, "bands should sum to ~1, got {sum}");
}

#[test]
fn loudness_scaling_barely_moves_shape_features() {
    let ex = FeatureExtractor::new();
    let quiet = sine(2500.0, FEATURE_WINDOW_SAMPLES);
    let loud: Vec<f32> = quiet.iter().map(|s| s * 4.0).collect();
    let fq = ex.extract(&singles(&quiet));
    let fl = ex.extract(&singles(&loud));
    for (a, b) in fq.spectral_bands.iter().zip(&fl.spectral_bands) {
        assert!((float(*a) - float(*b)).abs() < 1e-4, "spectral shape shifted with loudness");
    }
    for (a, b) in fq.cepstral.iter().zip(&fl.cepstral) {
        assert!((float(*a) - float(*b)).abs() < 1e-3, "cepstral shifted with loudness");
    }
}

#[test]
fn features_come_in_order_and_a_nan_among_them_shows() {
    let mut fv = FeatureVector {
        temporal: [single(1.0); TEMPORAL_FEATURE_COUNT],
        spectral_bands: [single(2.0); SPECTRAL_BAND_COUNT],
        cepstral: [single(3.0); CEPSTRAL_COEFF_COUNT],
    };
    let all = fv.as_array();
    assert_eq!((float(all[0]), float(all[5])), (1.0, 1.0));
    assert_eq!((float(all[6]), float(all[21])), (2.0, 2.0));
    assert_eq!((float(all[22]), float(all[33])), (3.0, 3.0));
    assert!(fv.is_finite());
    fv.cepstral[11] = single(f32::NAN);
    assert!(!fv.is_finite());
}

#[test]
fn bands_are_contiguous_and_inside_the_spectrum() {
    let edges = band_edges(FEATURE_WINDOW_SAMPLES, SAMPLE_RATE_HZ, SPECTRAL_BAND_COUNT);
    let bins = compute_band_bins(FEATURE_WINDOW_SAMPLES, &edges);
    assert_eq!(bins.len(), SPECTRAL_BAND_COUNT);
    for w in bins.windows(2) {
        assert_eq!(w[0].1, w[1].0);
    }
    assert_eq!(bins[15].1, FEATURE_WINDOW_SAMPLES / 2);
    // Equal edges still give a bin each, and nothing passes the last bin.
    assert_eq!(compute_band_bins(16, &[3, 3, 9]), vec![(3, 4), (3, 8)]);
    assert_eq!(compute_band_bins(16, &[20, 30]), vec![(8, 8)]);
}

#[test]
fn window_shapes_are_read_off() {
    let s = window_shape(&singles(&[0.1, -0.4, 0.4, 0.2, -0.0, f32::NAN, 0.1]));
    assert_eq!(float(s.peak), 0.4);
    assert_eq!(s.peak_idx, 1);
    // Down, up, (minus zero is not below), NaN counts as below, up again.
    assert_eq!(s.zero_crossings, 4);
}

// --- classifier ---------------------------------------------------------------

fn fv_from(seed: f32, jitter: f32) -> FeatureVector {
    let mut temporal = [0.0f32; TEMPORAL_FEATURE_COUNT];
    for (i, t) in temporal.iter_mut().enumerate() {
        *t = seed + i as f32 * 0.1 + jitter;
    }
    let mut spectral_bands = [0.0f32; SPECTRAL_BAND_COUNT];
    for (i, s) in spectral_bands.iter_mut().enumerate() {
        *s = (seed * 0.5 + i as f32 * 0.05 + jitter).abs();
    }
    let mut cepstral = [0.0f32; CEPSTRAL_COEFF_COUNT];
    for (i, c) in cepstral.iter_mut().enumerate() {
        *c = seed - i as f32 * 0.07 + jitter;
    }
    FeatureVector {
        temporal: temporal.map(single),
        spectral_bands: spectral_bands.map(single),
        cepstral: cepstral.map(single),
    }
}

fn zone(n: u128) -> ZoneId {
    ZoneId::from_uuid(uuid::Uuid::from_u128(n).as_u128())
}

fn train(
    samples: &[(ZoneId, FeatureVector)],
    negatives: &[FeatureVector],
) -> Result<ClassifierParams, ClassifierError> {
    ClassifierParams::train(samples, negatives, fit(samples, negatives))
}

fn classify(clf: &ClassifierParams, fv: &FeatureVector) -> Classification {
    clf.classify(fv, &measure(clf, fv))
}

#[test]
fn empty_training_set_is_an_error() {
    assert!(matches!(train(&[], &[]), Err(ClassifierError::EmptyTrainingSet)));
}

#[test]
fn assigns_correct_zone_on_clean_clusters() {
    let (za, zb, zc) = (zone(1), zone(2), zone(3));
    let mut samples = Vec::new();
    for j in 0..10 {
        let jit = j as f32 * 1e-4;
        samples.push((za, fv_from(0.0, jit)));
        samples.push((zb, fv_from(5.0, jit)));
        samples.push((zc, fv_from(10.0, jit)));
    }
    let clf = train(&samples, &[]).unwrap();
    assert_eq!(clf.zone_count(), 3);

    for (seed, expected) in [(0.0, za), (5.0, zb), (10.0, zc)] {
        let out = classify(&clf, &fv_from(seed, 1e-3));
        assert!(out.accepted, "clean tap should be accepted");
        assert_eq!(out.zone_id, Some(expected));
        assert!(float(out.confidence) > 0.5);
    }
}

#[test]
fn novelty_gate_rejects_far_out_input() {
    let (za, zb) = (zone(1), zone(2));
    let mut samples = Vec::new();
    for j in 0..10 {
        let jit = j as f32 * 1e-4;
        samples.push((za, fv_from(0.0, jit)));
        samples.push((zb, fv_from(4.0, jit)));
    }
    let clf = train(&samples, &[]).unwrap();
    let out = classify(&clf, &fv_from(1000.0, 0.0));
    assert!(!out.accepted);
    assert_eq!(out.zone_id, None);
}

#[test]
fn negatives_tighten_the_novelty_threshold() {
    let (za, zb) = (zone(1), zone(2));
    let mut samples = Vec::new();
    for j in 0..10 {
        let jit = j as f32 * 1e-4;
        samples.push((za, fv_from(0.0, jit)));
        samples.push((zb, fv_from(4.0, jit)));
    }
    let without = train(&samples, &[]).unwrap();
    let negatives = vec![fv_from(20.0, 0.0), fv_from(25.0, 0.0)];
    let with = train(&samples, &negatives).unwrap();
    assert!(with.negative_examples_trained());
    assert!(!without.negative_examples_trained());
    assert!(float(with.novelty_threshold) <= float(without.novelty_threshold));
}

#[test]
fn negative_examples_are_turned_away() {
    let mut samples = Vec::new();
    for j in 0..10 {
        samples.push((zone(1), fv_from(0.0, j as f32 * 1e-2)));
        samples.push((zone(2), fv_from(4.0, j as f32 * 1e-2)));
    }
    // Without it as a negative example, a sound between the spread of the taps
    // and the threshold passes.
    let near = fv_from(4.0, 0.14);
    let without = train(&samples, &[]).unwrap();
    let with = train(&samples, &[near]).unwrap();
    assert!(classify(&without, &near).accepted);
    assert!(!classify(&with, &near).accepted);
    for (z, fv) in &samples {
        assert_eq!(classify(&with, fv).zone_id, Some(*z));
    }
}

#[test]
fn garbage_features_are_turned_away() {
    let samples = [(zone(1), fv_from(0.0, 0.0)), (zone(2), fv_from(4.0, 0.0))];
    let clf = train(&samples, &[]).unwrap();
    let mut fv = fv_from(0.0, 0.0);
    fv.temporal[0] = single(f32::INFINITY);
    let out = classify(&clf, &fv);
    assert_eq!((out.zone_id, out.accepted, float(out.confidence)), (None, false, 0.0));
    let space = clf.feature_space(&fv, &measure(&clf, &fv));
    assert!(!space.accepted);
    assert!(space.zones.iter().all(|z| float(z.centroid_distance).is_infinite()));
    assert!(!space.is_comparable());
}

#[test]
fn feature_space_names_the_nearest_zone_even_of_a_rejected_tap() {
    let samples = [
        (zone(1), fv_from(0.0, 0.0)),
        (zone(1), fv_from(0.0, 1e-3)),
        (zone(2), fv_from(4.0, 0.0)),
        (zone(2), fv_from(4.0, 1e-3)),
    ];
    let clf = train(&samples, &[]).unwrap();
    let fv = fv_from(100.0, 0.0);
    let space = clf.feature_space(&fv, &measure(&clf, &fv));
    assert!(!space.accepted);
    assert!(space.is_comparable());
    assert_eq!(space.nearest_zone(), Some(zone(2)));
    assert!(float(space.scale()) >= float(space.zones[0].centroid_distance));
}

#[test]
fn zones_are_planned_in_the_order_of_first_appearance() {
    let samples = [
        (zone(7), fv_from(0.0, 0.0)),
        (zone(3), fv_from(1.0, 0.0)),
        (zone(7), fv_from(0.1, 0.0)),
    ];
    let plan = plan_zones(&samples).unwrap();
    assert_eq!(plan.zone_ids, vec![zone(7), zone(3)]);
    assert_eq!(plan.zone_of, vec![0, 1, 0]);
    assert_eq!(plan.counts, vec![2, 1]);
}

#[test]
fn every_fault_of_parameters_is_named() {
    let samples = [(zone(1), fv_from(0.0, 0.0)), (zone(2), fv_from(4.0, 0.0))];
    let good = train(&samples, &[]).unwrap();
    assert!(good.validate().is_ok());
    let text = |p: &ClassifierParams| p.validate().unwrap_err().describe();

    let mut p = good.clone();
    p.feature_mean.pop();
    assert_eq!(
        text(&p),
        "classifier parameters are malformed: standardization vectors must be length 34"
    );
    let mut p = good.clone();
    p.centroids.pop();
    assert_eq!(
        text(&p),
        "classifier parameters are malformed: centroid count does not match zone count"
    );
    let mut p = good.clone();
    p.centroids[1].pop();
    assert_eq!(
        text(&p),
        "classifier parameters are malformed: each centroid must be length 34"
    );
    let mut p = good.clone();
    p.examples[1].zone = 2;
    assert_eq!(
        text(&p),
        "classifier parameters are malformed: an example has a bad dimension or zone index"
    );
    let mut p = good.clone();
    p.examples[0].v[3] = single(f32::NAN);
    assert_eq!(text(&p), "classifier training produced non-finite parameters");
    let mut p = good.clone();
    p.feature_std[0] = single(-0.0);
    assert_eq!(
        text(&p),
        "classifier parameters are malformed: feature_std must be strictly positive"
    );
    assert_eq!(
        ClassifierError::EmptyTrainingSet.describe(),
        "classifier training set was empty"
    );
}

// --- calibration ---------------------------------------------------------------

fn cluster(seed: f32, n: usize) -> Vec<FeatureVector> {
    (0..n).map(|j| fv_from(seed, j as f32 * 1e-4)).collect()
}

fn judge(window: &[f32], noise_floor: f32) -> TapFeedback {
    let w = singles(window);
    assess_tap(&w, single(noise_floor), mask_level(noise_floor), onset_loudness(&w))
}

#[test]
fn environment_thresholds_map_to_pass_warn_fail() {
    assert_eq!(assess_environment(single(0.005)), EnvironmentQuality::Quiet);
    assert_eq!(assess_environment(single(0.02)), EnvironmentQuality::Moderate);
    assert_eq!(assess_environment(single(0.2)), EnvironmentQuality::TooNoisy);
    assert!(!assess_environment(single(f32::NAN)).passes());
}

#[test]
fn environment_borders_belong_to_the_noisier_side() {
    assert_eq!(assess_environment(single(0.01)), EnvironmentQuality::Moderate);
    assert_eq!(assess_environment(single(0.05)), EnvironmentQuality::TooNoisy);
    assert_eq!(assess_environment(single(f32::INFINITY)), EnvironmentQuality::TooNoisy);
    assert_eq!(assess_environment(single(-0.0)), EnvironmentQuality::Quiet);
}

#[test]
fn tap_quality_distinguishes_the_four_cases() {
    let n = FEATURE_WINDOW_SAMPLES;
    let good: Vec<f32> = (0..n).map(|i| 0.3 * (i as f32 * 0.05).sin()).collect();
    assert_eq!(judge(&good, 0.001), TapFeedback::Accepted);
    let clipped = vec![1.0f32; n];
    assert_eq!(judge(&clipped, 0.001), TapFeedback::Clipped);
    let weak = vec![1e-7f32; n];
    assert_eq!(judge(&weak, 0.0), TapFeedback::TooWeak);
    assert_eq!(judge(&good, 0.2), TapFeedback::MaskedByNoise);
}

#[test]
fn low_gain_mic_tap_is_accepted_over_a_quiet_room() {
    let n = FEATURE_WINDOW_SAMPLES;
    let edge = 600.min(n);
    let mut w = vec![0.0f32; n];
    for s in w.iter_mut().take(edge) {
        *s = 4.5e-5;
    }
    assert_eq!(judge(&w, 1e-7), TapFeedback::Accepted);
    assert_eq!(judge(&vec![0.0f32; n], 0.0), TapFeedback::TooWeak);
    assert_eq!(judge(&w, 4.5e-5), TapFeedback::MaskedByNoise);
}

#[test]
fn brief_transient_tap_is_accepted_not_weak_or_masked() {
    let n = FEATURE_WINDOW_SAMPLES;
    let onset = 200.min(n);
    let mut w = vec![0.0f32; n];
    for s in w.iter_mut().take(onset) {
        *s = 0.1;
    }
    let whole_rms =
        (w.iter().map(|x| (*x as f64).powi(2)).sum::<f64>() / n as f64).sqrt() as f32;
    assert!(whole_rms < 0.01 * MASK_RATIO, "whole_rms {whole_rms}");
    assert_eq!(judge(&w, 0.0), TapFeedback::Accepted);
    assert_eq!(judge(&w, 0.01), TapFeedback::Accepted);
}

#[test]
fn empty_and_corrupt_windows_are_too_weak() {
    assert_eq!(judge(&[], 0.0), TapFeedback::TooWeak);
    let mut w = vec![0.5f32; 1000];
    w[999] = f32::NAN;
    assert_eq!(judge(&w, 0.0), TapFeedback::TooWeak);
    // The peak counts wherever it is, and just at the border.
    let mut w = vec![0.5f32; 1000];
    w[999] = -0.98;
    assert_eq!(judge(&w, 0.0), TapFeedback::Clipped);
    assert_eq!(TapFeedback::Accepted.reason(), "accepted");
    assert_eq!(TapFeedback::TooWeak.reason(), "too weak — tap a little harder");
    assert!(TapFeedback::Accepted.is_accepted() && !TapFeedback::Clipped.is_accepted());
}

#[test]
fn consistent_zones_pass_leave_one_out() {
    let ids = [zone(1), zone(2), zone(3)];
    let samples = [cluster(0.0, 8), cluster(6.0, 8), cluster(12.0, 8)];
    let report = leave_one_out_consistency(&ids, &samples, fit, measure).unwrap();
    assert!(report.all_consistent(), "tight clusters should be consistent");
    assert!(report
        .per_zone_accuracy
        .iter()
        .all(|a| a.correct as f32 / a.total as f32 >= 0.8));
}

#[test]
fn inconsistent_zone_is_flagged() {
    let ids = [zone(1), zone(2)];
    let mut split_zone = cluster(0.0, 5);
    split_zone.extend(cluster(12.0, 5));
    let zone2 = cluster(12.0, 10);
    let report = leave_one_out_consistency(&ids, &[split_zone, zone2], fit, measure).unwrap();
    assert!(
        report.inconsistent_zones.contains(&0),
        "the split zone must be flagged: {report:?}"
    );
}

#[test]
fn too_few_zones_or_samples_are_named_errors() {
    assert!(matches!(
        leave_one_out_consistency(&[zone(1)], &[cluster(0.0, 4)], fit, measure),
        Err(CalibrationError::NotEnoughZones { have: 1 })
    ));
    assert!(matches!(
        leave_one_out_consistency(
            &[zone(1), zone(2)],
            &[cluster(0.0, 1), cluster(5.0, 4)],
            fit,
            measure
        ),
        Err(CalibrationError::NotEnoughSamples { zone: 0, have: 1, .. })
    ));
}

#[test]
fn sample_group_count_mismatch_is_a_distinct_named_error() {
    let err = leave_one_out_consistency(&[zone(1), zone(2)], &[cluster(0.0, 4)], fit, measure)
        .unwrap_err();
    assert!(
        matches!(err, CalibrationError::SampleGroupCountMismatch { zones: 2, groups: 1 }),
        "expected a sample-group mismatch, got {err:?}"
    );
    assert!(err.describe().contains("sample groups"));
}

#[test]
fn calibration_errors_are_worded() {
    assert_eq!(
        CalibrationError::NotEnoughZones { have: 1 }.describe(),
        "need at least 2 zones to calibrate, got 1"
    );
    assert_eq!(
        CalibrationError::NotEnoughSamples { zone: 2, have: 1, need: 2 }.describe(),
        "zone 3 has 1 samples, needs at least 2"
    );
    assert_eq!(
        CalibrationError::ZoneMetaMismatch { zones: 2, meta: 10 }.describe(),
        "10 zone labels/layouts provided for 2 zones"
    );
    assert_eq!(
        CalibrationError::SampleGroupCountMismatch { zones: 2, groups: 1 }.describe(),
        "1 sample groups provided for 2 zones"
    );
    assert_eq!(
        CalibrationError::Training(ClassifierError::EmptyTrainingSet).describe(),
        "could not train classifier: classifier training set was empty"
    );
}

fn layout(x: f32) -> ZoneLayout {
    ZoneLayout { x: single(x), y: single(0.0), width: single(0.5), height: single(1.0) }
}

#[test]
fn build_profile_produces_a_classifying_profile() {
    let ids = [zone(1), zone(2)];
    let samples = [cluster(0.0, 10), cluster(8.0, 10)];
    let meta = [
        ZoneMeta { label: "Left".into(), layout: layout(0.0) },
        ZoneMeta { label: "Right".into(), layout: layout(0.5) },
    ];
    let now = Timestamp { secs: 1_784_635_200, nanos: 0 };
    let build = |meta: &[ZoneMeta], negatives: &[FeatureVector]| {
        build_profile(
            ProfileId::from_uuid(99),
            "Test desk".into(),
            DeviceFingerprint {
                device_name: "Built-in Microphone".into(),
                capability_hash: "hash".into(),
            },
            SensingMode::Passive,
            &ids,
            meta,
            &samples,
            negatives,
            now,
            fit,
        )
    };
    let profile = build(&meta, &[]).unwrap();
    assert_eq!(profile.zones.len(), 2);
    assert_eq!(profile.zones[0].calibration_sample_count, 10);
    assert_eq!(profile.zones[1].label, "Right");
    assert_eq!((profile.created_at, profile.updated_at), (now, now));
    assert!(!profile.negative_examples_trained);
    // The trained classifier assigns a fresh sample near zone 0 to zone 0.
    let out = classify(&profile.classifier, &fv_from(0.0, 1e-3));
    assert_eq!(out.zone_id, Some(zone(1)));
    assert!(profile.validate().is_ok());

    assert!(build(&meta, &[fv_from(50.0, 0.0)]).unwrap().negative_examples_trained);
    assert!(matches!(
        build(&meta[..1], &[]),
        Err(CalibrationError::ZoneMetaMismatch { zones: 2, meta: 1 })
    ));
}

#[test]
fn session_captures_and_advances() {
    let n = FEATURE_WINDOW_SAMPLES;
    let good = singles(&(0..n).map(|i| 0.3 * (i as f32 * 0.05).sin()).collect::<Vec<f32>>());
    let ex = FeatureExtractor::new();
    let mut s = CalibrationSession::new(vec![zone(1), zone(2)], 3, single(0.0), mask_level(0.0));
    let tap = |s: &mut CalibrationSession| {
        s.record_tap(&good, onset_loudness(&good), |w: &[Single]| ex.extract(w))
    };

    assert_eq!(tap(&mut s), TapFeedback::Accepted);
    assert_eq!(tap(&mut s), TapFeedback::Accepted);
    assert_eq!(s.zone_sample_count(0), 2);
    assert!(s.undo_last());
    assert_eq!(s.zone_sample_count(0), 1);

    // Fill to target; further accepted taps are ignored (not stored).
    tap(&mut s);
    tap(&mut s);
    assert!(s.current_zone_complete());
    tap(&mut s);
    assert_eq!(s.zone_sample_count(0), 3);

    assert!(s.advance_zone());
    assert_eq!(s.current_zone(), 1);
    assert!(!s.advance_zone()); // last zone
}

#[test]
fn sessions_restart_one_zone_and_keep_negatives() {
    let good = singles(&sine(300.0, FEATURE_WINDOW_SAMPLES).iter().map(|s| s * 0.3).collect::<Vec<f32>>());
    let ex = FeatureExtractor::new();
    let mut s = CalibrationSession::new(vec![zone(1), zone(2)], 2, single(0.0), mask_level(0.0));
    let extract = |w: &[Single]| ex.extract(w);
    assert!(!s.undo_last());
    s.record_tap(&good, onset_loudness(&good), extract);
    assert!(s.advance_zone());
    s.record_tap(&good, onset_loudness(&good), extract);
    assert!(s.record_negative(&good, extract));
    assert!(!s.record_negative(&good[..100], extract));
    s.restart_zone(7);
    assert_eq!(s.current_zone(), 1);
    s.restart_zone(0);
    assert_eq!((s.current_zone(), s.zone_sample_count(0), s.zone_sample_count(1)), (0, 0, 1));
    s.redo_current_zone();
    assert_eq!(s.zone_sample_count(1), 1);
    assert_eq!(s.negatives().len(), 1);
    assert_eq!((s.zone_ids().len(), s.taps_per_zone(), s.zone_sample_count(9)), (2, 2, 0));
    // A window of another length is judged, but never becomes a sample.
    assert_eq!(
        s.record_tap(&good[..2000], onset_loudness(&good[..2000]), extract),
        TapFeedback::Accepted
    );
    assert_eq!(s.zone_sample_count(0), 0);
    assert!(matches!(
        s.consistency(fit, measure),
        Err(CalibrationError::NotEnoughSamples { zone: 0, have: 0, need: 2 })
    ));
}

// --- endurance ---------------------------------------------------------------

const LEAD_SILENCE: usize = 256 * 8;

fn next_unit(g: &mut Lcg) -> f32 {
    g.next_unit() as f32 / (1u64 << 24) as f32
}

fn next_bipolar(g: &mut Lcg) -> f32 {
    next_unit(g) * 2.0 - 1.0
}

fn tap_clip(z: usize, rng: &mut Lcg) -> Vec<f32> {
    let base = 700.0 + z as f32 * 430.0;
    let partials = [base, base * 1.9, base * 2.7];
    let mut clip = vec![0.0f32; LEAD_SILENCE];
    for i in 0..FEATURE_WINDOW_SAMPLES {
        let t = i as f32 / SAMPLE_RATE_HZ as f32;
        let env = (-t * 130.0).exp();
        let mut s = 0.0f32;
        for (k, &f) in partials.iter().enumerate() {
            let fj = f * (1.0 + next_bipolar(rng) * 0.02);
            s += (2.0 * PI * fj * t).sin() / (k as f32 + 1.0);
        }
        clip.push(0.6 * env * s);
    }
    clip.extend(vec![0.0; FEATURE_WINDOW_SAMPLES]);
    clip
}

fn sustained_clip(rng: &mut Lcg) -> Vec<f32> {
    let mut clip = vec![0.0f32; LEAD_SILENCE];
    let speechlike = next_unit(rng) > 0.5;
    let f = 300.0 + next_unit(rng) * 500.0;
    for i in 0..FEATURE_WINDOW_SAMPLES * 2 {
        let t = i as f32 / SAMPLE_RATE_HZ as f32;
        let s = if speechlike {
            let am = 0.6 + 0.4 * (2.0 * PI * 5.0 * t).sin();
            am * ((2.0 * PI * f * t).sin() + 0.5 * (2.0 * PI * f * 2.5 * t).sin())
        } else {
            (2.0 * PI * f * t).sin()
        };
        clip.push(0.5 * s);
    }
    clip.extend(vec![0.0; FEATURE_WINDOW_SAMPLES]);
    clip
}

fn foreign_clip(rng: &mut Lcg) -> Vec<f32> {
    let mut clip = vec![0.0f32; LEAD_SILENCE];
    for i in 0..FEATURE_WINDOW_SAMPLES {
        let t = i as f32 / SAMPLE_RATE_HZ as f32;
        clip.push(0.6 * (-t * 130.0).exp() * next_bipolar(rng));
    }
    clip.extend(vec![0.0; FEATURE_WINDOW_SAMPLES]);
    clip
}

struct Soak {
    classifier: ClassifierParams,
    extractor: FeatureExtractor,
    zone_ids: Vec<ZoneId>,
    rng: Lcg,
    foreign_rng: Lcg,
    config: SoakConfig,
}

impl Soak {
    fn new(config: SoakConfig) -> Self {
        let zone_ids: Vec<ZoneId> = (0..config.zone_count).map(|z| zone(1000 + z as u128)).collect();
        let extractor = FeatureExtractor::new();
        let mut rng = Lcg::new(1);
        let mut samples = Vec::new();
        for (z, &zid) in zone_ids.iter().enumerate() {
            for _ in 0..config.calib_taps_per_zone {
                let events = process(&mut OnsetDetector::new(), &tap_clip(z, &mut rng));
                if let Some(i) = pipeline_first(&events) {
                    samples.push((zid, extractor.extract(&events[i].window)));
                }
            }
        }
        let classifier = train(&samples, &[]).unwrap();
        Self { classifier, extractor, zone_ids, rng, foreign_rng: Lcg::new(0xF0), config }
    }

    fn outcomes(&self, clip: &[f32]) -> Vec<Classification> {
        process(&mut OnsetDetector::new(), clip)
            .iter()
            .filter(|ev| ev.is_transient)
            .map(|ev| classify(&self.classifier, &self.extractor.extract(&ev.window)))
            .collect()
    }

    fn run_batch(&mut self) -> BatchTally {
        let mut taps = Vec::new();
        for z in 0..self.zone_ids.len() {
            let clip = tap_clip(z, &mut self.rng);
            let events = process(&mut OnsetDetector::new(), &clip);
            taps.push(pipeline_first(&events).map(|i| {
                classify(&self.classifier, &self.extractor.extract(&events[i].window))
            }));
        }
        let mut sustained = Vec::new();
        let mut foreign = Vec::new();
        for _ in 0..self.config.sustained_per_batch {
            let clip = sustained_clip(&mut self.rng);
            sustained.push(self.outcomes(&clip));
        }
        for _ in 0..self.config.sustained_per_batch {
            let clip = foreign_clip(&mut self.foreign_rng);
            foreign.push(self.outcomes(&clip));
        }
        BatchTally::of_batch(&self.zone_ids, &taps, &sustained, &foreign)
    }
}

fn batches(config: SoakConfig, n: usize) -> BatchTally {
    let mut soak = Soak::new(config);
    let mut tally = BatchTally::default();
    for _ in 0..n {
        let b = soak.run_batch();
        tally.add(&b);
    }
    tally
}

#[test]
fn clean_synthetic_accuracy_is_at_least_99_percent() {
    let tally = batches(SoakConfig::default(), 50);
    assert!(tally.taps >= 200);
    assert!(!tally.accuracy_is_poor(), "clean synthetic accuracy below 0.99: {tally:?}");
}

#[test]
fn zero_false_accepts_on_sustained_sounds() {
    let tally = batches(SoakConfig::default(), 50);
    assert!(tally.sustained >= 100);
    assert_eq!(tally.sustained_false_accepts, 0, "sustained sounds produced false accepts");
}

#[test]
fn novelty_gate_rejects_foreign_transients() {
    let tally = batches(SoakConfig::default(), 50);
    assert!(
        tally.foreign_transients >= 100,
        "novelty gate was not exercised: only {} foreign transients reached it",
        tally.foreign_transients
    );
    assert_eq!(
        tally.foreign_false_accepts, 0,
        "novelty gate accepted a foreign (non-zone) transient as a tap"
    );
}

#[test]
fn novelty_gate_holds_across_all_supported_zone_counts() {
    for zone_count in [2usize, 4, 6, 8] {
        let tally = batches(SoakConfig { zone_count, ..SoakConfig::default() }, 20);
        assert!(tally.foreign_transients > 0, "{zone_count} zones: novelty gate not exercised");
        assert_eq!(
            tally.foreign_false_accepts, 0,
            "{zone_count} zones: a foreign transient was accepted as a tap"
        );
    }
}

#[test]
fn tally_accounts_for_every_presented_tap() {
    let tally = batches(SoakConfig::default(), 30);
    assert_eq!(
        tally.taps,
        tally.correct + tally.rejected_taps + tally.misclassified,
        "a presented tap fell through all three outcome buckets"
    );
}

#[test]
fn loop_runs_cleanly_many_times() {
    let mut soak = Soak::new(SoakConfig::default());
    for _ in 0..200 {
        let _ = soak.run_batch();
    }
}

#[test]
fn the_random_source_is_reproducible() {
    let mut a = Lcg::new(1);
    assert_eq!(a.state, 0x9e37_79b9_7f4a_7c14);
    let next = 0x9e37_79b9_7f4a_7c14u64
        .wrapping_mul(6364136223846793005)
        .wrapping_add(1442695040888963407);
    assert_eq!(a.next_unit(), (next >> 40) as u32);
    assert_eq!(a.state, next);
    let mut b = Lcg::new(1);
    let mut c = Lcg::new(0xF0);
    assert_eq!(b.next_unit(), (next >> 40) as u32);
    assert!(c.next_unit() != b.next_unit());
}

#[test]
fn outcomes_of_a_batch_are_told_apart() {
    let c = |zone_id: Option<ZoneId>, accepted: bool| Classification {
        zone_id,
        confidence: single(0.5),
        accepted,
    };
    let zones = [zone(1), zone(2), zone(3), zone(4)];
    let taps = [
        Some(c(Some(zone(1)), true)),
        Some(c(Some(zone(1)), true)),
        Some(c(None, false)),
        None,
    ];
    let sustained = [vec![c(None, false)], vec![], vec![c(Some(zone(1)), true)]];
    let foreign = [vec![c(None, false), c(Some(zone(2)), true)]];
    let t = BatchTally::of_batch(&zones, &taps, &sustained, &foreign);
    assert_eq!((t.taps, t.correct, t.misclassified, t.rejected_taps), (4, 1, 1, 2));
    assert_eq!((t.sustained, t.sustained_false_accepts), (3, 1));
    assert_eq!((t.foreign_transients, t.foreign_false_accepts), (2, 1));
    assert_eq!(
        failures(&t, 100, 105),
        vec![
            SoakFailure::Accuracy,
            SoakFailure::SustainedAccepted(1),
            SoakFailure::HeapGrowth,
            SoakFailure::ForeignAccepted(1)
        ]
    );
    assert_eq!(
        failures(&BatchTally::default(), 100, 96),
        vec![SoakFailure::Accuracy, SoakFailure::ForeignNotExercised]
    );
}
