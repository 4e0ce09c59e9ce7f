//! The microphone: which device, in which format, and what is made of what it
//! hears.

use vstd::prelude::*;

use crate::classifier::ClassifierError;
use crate::features::{FEATURE_WINDOW_SAMPLES, SAMPLE_RATE_HZ};
use crate::ids::ZoneId;
use crate::onset::OnsetEvent;
use crate::profile::classifier_error_text;
use crate::single::Single;
use crate::text::{chars_of, join, join3, number, parse_number};

verus! {

/// Encoding of the gain from which on the microphone is too faint, `32.0`.
pub const LOW_SIGNAL_GAIN: u32 = 0x4200_0000;

/// Why nothing can be heard. Texts come from the audio system.
#[derive(Clone, Debug)]
pub enum CaptureError {
    NoInputDevice,
    DeviceNotFound(String),
    Enumerate(String),
    DeviceName(String),
    DefaultConfig(String),
    UnsupportedFormat(String),
    BuildStream(String),
    Play(String),
    StreamFailed,
}

impl CaptureError {
    /// The error in words.
    pub open spec fn text(&self) -> Seq<char> {
        match self {
            CaptureError::NoInputDevice => "no audio input device is available"@,
            CaptureError::DeviceNotFound(s) => "no input device matched \""@ + s@ + "\""@,
            CaptureError::Enumerate(e) => "could not enumerate input devices: "@ + e@,
            CaptureError::DeviceName(e) => "could not read a device name: "@ + e@,
            CaptureError::DefaultConfig(e) => "no default input config: "@ + e@,
            CaptureError::UnsupportedFormat(f) => "unsupported sample format: "@ + f@,
            CaptureError::BuildStream(e) => "could not build the input stream: "@ + e@,
            CaptureError::Play(e) => "could not start the input stream: "@ + e@,
            CaptureError::StreamFailed =>
                "the audio input stream failed (see stderr for the device error)"@,
        }
    }

    pub fn describe(&self) -> (s: String)
        ensures
            s@ == self.text(),
    {
        match self {
            CaptureError::NoInputDevice => "no audio input device is available".to_owned(),
            CaptureError::DeviceNotFound(s) => join3("no input device matched \"", s, "\""),
            CaptureError::Enumerate(e) => join("could not enumerate input devices: ", e),
            CaptureError::DeviceName(e) => join("could not read a device name: ", e),
            CaptureError::DefaultConfig(e) => join("no default input config: ", e),
            CaptureError::UnsupportedFormat(f) => join("unsupported sample format: ", f),
            CaptureError::BuildStream(e) => join("could not build the input stream: ", e),
            CaptureError::Play(e) => join("could not start the input stream: ", e),
            CaptureError::StreamFailed =>
                "the audio input stream failed (see stderr for the device error)".to_owned(),
        }
    }
}

/// Why a live session ended.
#[derive(Clone, Debug)]
pub enum LiveError {
    Capture(CaptureError),
    Training(ClassifierError),
}

impl LiveError {
    /// The error in words.
    pub open spec fn text(&self) -> Seq<char> {
        match self {
            LiveError::Capture(e) => e.text(),
            LiveError::Training(e) => "calibration failed: "@ + classifier_error_text(*e),
        }
    }

    pub fn describe(&self) -> (s: String)
        ensures
            s@ == self.text(),
    {
        match self {
            LiveError::Capture(e) => e.describe(),
            LiveError::Training(e) => join("calibration failed: ", &e.describe()),
        }
    }
}

/// A text in lower case, as std has it.
pub uninterp spec fn lower_case(s: Seq<char>) -> Seq<char>;

/// `str::to_lowercase` of std: see [`lower_case`].
#[verifier::external_body]
fn to_lower_case(s: &str) -> (r: String)
    ensures
        r@ == lower_case(s@),
{
    s.to_lowercase()
}

/// One text stands inside the other.
pub open spec fn holds(s: Seq<char>, part: Seq<char>) -> bool {
    exists|i: int|
        0 <= i <= s.len() - part.len() && #[trigger] s.subrange(i, i + part.len()) == part
}

fn stands_at(v: &Vec<char>, part: &Vec<char>, at: usize) -> (r: bool)
    requires
        at + part@.len() <= v@.len(),
    ensures
        r == (v@.subrange(at as int, at + part@.len()) == part@),
{
    let mut k: usize = 0;
    let total: usize = v.len();
    while k < part.len()
        invariant
            k <= part@.len(),
            total == v@.len(),
            at + part@.len() <= v@.len(),
            forall|j: int| 0 <= j < k ==> v@[at + j] == #[trigger] part@[j],
        decreases part@.len() - k,
    {
        if v[at + k] != part[k] {
            proof {
                assert(v@.subrange(at as int, at + part@.len())[k as int] != part@[k as int]);
            }
            return false;
        }
        k += 1;
    }
    proof {
        assert(v@.subrange(at as int, at + part@.len()) =~= part@);
    }
    true
}

/// Whether one text stands inside another.
pub fn text_holds(s: &str, part: &str) -> (r: bool)
    ensures
        r == holds(s@, part@),
{
    let v = chars_of(s);
    let p = chars_of(part);
    if p.len() > v.len() {
        return false;
    }
    let last: usize = v.len() - p.len();
    let mut i: usize = 0;
    loop
        invariant
            v@ == s@,
            p@ == part@,
            last == v@.len() - p@.len(),
            i <= last,
            forall|j: int| 0 <= j < i ==> #[trigger] s@.subrange(j, j + part@.len()) != part@,
        decreases last - i,
    {
        if stands_at(&v, &p, i) {
            proof {
                assert(s@.subrange(i as int, i + part@.len()) == part@);
            }
            return true;
        }
        if i == last {
            return false;
        }
        i += 1;
    }
}

/// The device that is meant.
#[derive(Clone, Copy, Debug, PartialEq, Eq, Structural)]
pub enum DeviceChoice {
    /// The one that the system prefers.
    Default,
    /// One of the listed ones.
    Listed(usize),
}

/// `i` is the first device whose name, in lower case, holds the text.
pub open spec fn first_match(names: Seq<Option<String>>, needle: Seq<char>, i: int) -> bool {
    &&& 0 <= i < names.len()
    &&& name_holds(names[i], needle)
    &&& forall|j: int| 0 <= j < i ==> !name_holds(#[trigger] names[j], needle)
}

/// The name is known and, in lower case, holds the text.
pub open spec fn name_holds(name: Option<String>, needle: Seq<char>) -> bool {
    name matches Some(n) && holds(lower_case(n@), needle)
}

/// The device that a selector means: a position in the list, or else the first
/// device whose name holds the text, upper or lower case.
pub open spec fn selected(
    selector: Option<Seq<char>>,
    names: Seq<Option<String>>,
    r: Result<DeviceChoice, CaptureError>,
) -> bool {
    match selector {
        None => r == Ok::<DeviceChoice, CaptureError>(DeviceChoice::Default),
        Some(sel) => match number(sel) {
            Some(i) => if i < names.len() {
                r == Ok::<DeviceChoice, CaptureError>(DeviceChoice::Listed(i as usize))
            } else {
                r matches Err(CaptureError::DeviceNotFound(s)) && s@ == sel
            },
            None => match r {
                Ok(DeviceChoice::Listed(i)) => first_match(names, lower_case(sel), i as int),
                Ok(DeviceChoice::Default) => false,
                Err(CaptureError::DeviceNotFound(s)) => s@ == sel && forall|i: int|
                    0 <= i < names.len() ==> !name_holds(#[trigger] names[i], lower_case(sel)),
                Err(_) => false,
            },
        },
    }
}

/// Find the device that a selector means among the names of the listed ones; a
/// name that cannot be read is `None`.
pub fn resolve_device(selector: Option<&str>, names: &[Option<String>]) -> (r: Result<
    DeviceChoice,
    CaptureError,
>)
    ensures
        selected(
            match selector {
                Some(s) => Some(s@),
                None => None,
            },
            names@,
            r,
        ),
{
    let sel: &str = match selector {
        Some(s) => s,
        None => return Ok(DeviceChoice::Default),
    };
    match parse_number(sel) {
        Some(i) => {
            if (i as u128) < names.len() as u128 {
                return Ok(DeviceChoice::Listed(i as usize));
            }
            return Err(CaptureError::DeviceNotFound(sel.to_owned()));
        },
        None => {},
    }
    let needle = to_lower_case(sel);
    let mut i: usize = 0;
    while i < names.len()
        invariant
            i <= names@.len(),
            selector == Some(sel),
            number(sel@) is None,
            needle@ == lower_case(sel@),
            forall|j: int| 0 <= j < i ==> !name_holds(#[trigger] names@[j], lower_case(sel@)),
        decreases names@.len() - i,
    {
        match &names[i] {
            Some(n) => {
                if text_holds(&to_lower_case(n), &needle) {
                    proof {
                        assert(name_holds(names@[i as int], lower_case(sel@)));
                    }
                    return Ok(DeviceChoice::Listed(i));
                }
            },
            None => {},
        }
        i += 1;
    }
    Err(CaptureError::DeviceNotFound(sel.to_owned()))
}

/// A range of formats that a device offers.
#[derive(Clone, Copy, Debug, PartialEq, Eq, Structural)]
pub struct ConfigRange {
    pub min_rate: u32,
    pub max_rate: u32,
    /// Samples are single-precision numbers and need no conversion.
    pub is_f32: bool,
}

impl ConfigRange {
    /// The rate that features are made for is in the range.
    pub open spec fn covers(self) -> bool {
        self.min_rate <= SAMPLE_RATE_HZ <= self.max_rate
    }
}

/// `i` is the first range that covers the rate.
pub open spec fn first_covering(ranges: Seq<ConfigRange>, i: int) -> bool {
    &&& 0 <= i < ranges.len()
    &&& ranges[i].covers()
    &&& forall|j: int| 0 <= j < i ==> !(#[trigger] ranges[j]).covers()
}

/// `i` is the first range that covers the rate without conversion.
pub open spec fn first_direct(ranges: Seq<ConfigRange>, i: int) -> bool {
    &&& 0 <= i < ranges.len()
    &&& ranges[i].covers()
    &&& ranges[i].is_f32
    &&& forall|j: int| 0 <= j < i ==> !((#[trigger] ranges[j]).covers() && ranges[j].is_f32)
}

/// The range to use: the first that covers the rate without conversion, or else
/// the first that covers it. `None` where none does: then the device's own
/// default is used.
pub fn choose_input_config(ranges: &[ConfigRange]) -> (r: Option<usize>)
    ensures
        match r {
            Some(i) => if exists|k: int|
                0 <= k < ranges@.len() && (#[trigger] ranges@[k]).covers() && ranges@[k].is_f32 {
                first_direct(ranges@, i as int)
            } else {
                first_covering(ranges@, i as int)
            },
            None => forall|k: int| 0 <= k < ranges@.len() ==> !(#[trigger] ranges@[k]).covers(),
        },
{
    let mut best: Option<usize> = None;
    let mut i: usize = 0;
    while i < ranges.len()
        invariant
            i <= ranges@.len(),
            match best {
                None => forall|j: int| 0 <= j < i ==> !(#[trigger] ranges@[j]).covers(),
                Some(b) => b < i && ranges@[b as int].covers() && if ranges@[b as int].is_f32 {
                    first_direct(ranges@, b as int)
                } else {
                    first_covering(ranges@, b as int) && forall|j: int|
                        0 <= j < i ==> !((#[trigger] ranges@[j]).covers() && ranges@[j].is_f32)
                },
            },
        decreases ranges@.len() - i,
    {
        let r: ConfigRange = ranges[i];
        if r.min_rate <= SAMPLE_RATE_HZ && SAMPLE_RATE_HZ <= r.max_rate {
            let better: bool = match best {
                None => true,
                Some(b) => r.is_f32 && !ranges[b].is_f32,
            };
            if better {
                best = Some(i);
            }
        }
        i += 1;
    }
    best
}

/// Samples that the buffer between device and listener holds: one second, and
/// at least four windows.
pub fn buffer_capacity(sample_rate: u32) -> (n: usize)
    ensures
        n == if sample_rate as int > 4 * FEATURE_WINDOW_SAMPLES {
            sample_rate as int
        } else {
            4 * FEATURE_WINDOW_SAMPLES
        },
{
    let least: usize = 4 * FEATURE_WINDOW_SAMPLES;
    if sample_rate as usize > least {
        sample_rate as usize
    } else {
        least
    }
}

/// Whether a gain says that the microphone is too faint.
pub fn gain_indicates_low_signal(gain: Single) -> (r: bool)
    ensures
        r == (Single { bits: LOW_SIGNAL_GAIN }).at_most(gain),
{
    (Single { bits: LOW_SIGNAL_GAIN }).le(gain)
}

/// The warnings that belong to the state of the input: a microphone that is too
/// faint, and samples that were dropped.
pub open spec fn input_health(gain: Single, dropped: usize) -> Seq<Seq<char>> {
    let low = (Single { bits: LOW_SIGNAL_GAIN }).at_most(gain);
    let faint = if low {
        seq!["Low mic signal."@]
    } else {
        Seq::empty()
    };
    if dropped > 0 {
        faint.push("Audio samples dropped."@)
    } else {
        faint
    }
}

/// What the home screen warns of, given the gain and how many samples were
/// dropped.
pub fn input_warnings(gain: Single, dropped: usize) -> (v: Vec<&'static str>)
    ensures
        v@.len() == input_health(gain, dropped).len(),
        forall|i: int| 0 <= i < v@.len() ==> (#[trigger] v@[i])@ == input_health(gain, dropped)[i],
{
    let mut v: Vec<&'static str> = Vec::new();
    if gain_indicates_low_signal(gain) {
        v.push("Low mic signal.");
    }
    if dropped > 0 {
        v.push("Audio samples dropped.");
    }
    v
}

/// Samples at either end of a window that its decay is shown from; at least one.
pub fn monitor_edge(n: usize) -> (edge: usize)
    ensures
        edge == if n / 4 < 1 {
            1
        } else if n / 4 < SAMPLE_RATE_HZ * 15 / 1000 {
            n as int / 4
        } else {
            SAMPLE_RATE_HZ * 15 / 1000
        },
        n >= 1 ==> edge <= n,
{
    let span: usize = SAMPLE_RATE_HZ as usize * 15 / 1000;
    let quarter: usize = n / 4;
    if quarter < 1 {
        1
    } else if quarter < span {
        quarter
    } else {
        span
    }
}

/// The positions of the taps among the first onsets, up to as many as are still
/// wanted.
pub open spec fn wanted_taps(events: Seq<OnsetEvent>, wanted: int) -> Seq<int>
    decreases events.len(),
{
    if events.len() == 0 {
        Seq::empty()
    } else {
        let before = wanted_taps(events.drop_last(), wanted);
        if events.last().is_transient && before.len() < wanted {
            before.push(events.len() - 1)
        } else {
            before
        }
    }
}

/// Which onsets to keep while `have` of `taps_per_zone` taps are there: the
/// taps, in order, until there are enough.
pub fn capture_taps(events: &[OnsetEvent], have: usize, taps_per_zone: usize) -> (keep: Vec<usize>)
    ensures
        keep@.len() == wanted_taps(events@, taps_per_zone - have).len(),
        forall|i: int|
            0 <= i < keep@.len() ==> #[trigger] keep@[i] == wanted_taps(
                events@,
                taps_per_zone - have,
            )[i],
        have <= taps_per_zone ==> have + keep@.len() <= taps_per_zone,
{
    let mut keep: Vec<usize> = Vec::new();
    let mut i: usize = 0;
    while i < events.len()
        invariant
            i <= events@.len(),
            keep@.len() == wanted_taps(events@.take(i as int), taps_per_zone - have).len(),
            forall|k: int|
                0 <= k < keep@.len() ==> #[trigger] keep@[k] == wanted_taps(
                    events@.take(i as int),
                    taps_per_zone - have,
                )[k],
            keep@.len() <= i,
            have <= taps_per_zone ==> have + keep@.len() <= taps_per_zone,
        decreases events@.len() - i,
    {
        proof {
            assert(events@.take(i + 1).drop_last() =~= events@.take(i as int));
        }
        if events[i].is_transient && have < taps_per_zone && keep.len() < taps_per_zone - have {
            keep.push(i);
        }
        i += 1;
    }
    proof {
        assert(events@.take(i as int) =~= events@);
    }
    keep
}

/// The number of a zone among the zones, counting from one.
pub fn zone_number(zone_ids: &[ZoneId], zone: ZoneId) -> (r: Option<usize>)
    ensures
        match r {
            Some(n) => 1 <= n <= zone_ids@.len() && zone_ids@[n - 1] == zone && forall|j: int|
                0 <= j < n - 1 ==> #[trigger] zone_ids@[j] != zone,
            None => !zone_ids@.contains(zone),
        },
{
    let mut i: usize = 0;
    while i < zone_ids.len()
        invariant
            i <= zone_ids@.len(),
            forall|j: int| 0 <= j < i ==> #[trigger] zone_ids@[j] != zone,
        decreases zone_ids@.len() - i,
    {
        if zone_ids[i] == zone {
            return Some(i + 1);
        }
        i += 1;
    }
    None
}

/// A text stands inside another exactly where that one is made of something before
/// it, the text, and something after it. The empty text stands in every one.
pub proof fn parts_stand_between_two_texts(
    s: &str,
    part: &str,
    r: bool,
    front: Seq<char>,
    back: Seq<char>,
)
    requires
        call_ensures(text_holds, (s, part), r),
    ensures
        s@ == front + part@ + back ==> r,
        r ==> exists|i: int|
            0 <= i <= s@.len() && s@ == #[trigger] s@.take(i) + part@ + s@.skip(i + part@.len()),
        part@.len() == 0 ==> r,
        part@.len() > s@.len() ==> !r,
{
    if s@ == front + part@ + back {
        let i = front.len() as int;
        assert(s@.subrange(i, i + part@.len()) =~= part@);
    }
    if r {
        let i = choose|i: int|
            0 <= i <= s@.len() - part@.len() && #[trigger] s@.subrange(i, i + part@.len()) == part@;
        assert(s@.take(i) + s@.subrange(i, i + part@.len()) + s@.skip(i + part@.len()) =~= s@);
    }
    if part@.len() == 0 {
        let at: int = 0;
        assert(s@.subrange(at, at + part@.len()) =~= part@);
    }
}

/// Without a selector the system's own device is meant. A number means the device
/// at that position and nothing else; any other text the first device whose name,
/// in lower case, holds it. Where there is none, the error names the selector.
pub proof fn selectors_mean_one_device(
    selector: Option<&str>,
    names: &[Option<String>],
    r: Result<DeviceChoice, CaptureError>,
    j: int,
)
    requires
        call_ensures(resolve_device, (selector, names), r),
        0 <= j < names@.len(),
    ensures
        selector is None <==> r == Ok::<DeviceChoice, CaptureError>(DeviceChoice::Default),
        r matches Ok(DeviceChoice::Listed(i)) ==> i < names@.len(),
        r matches Err(e) ==> (e matches CaptureError::DeviceNotFound(s) && selector matches Some(
            sel,
        ) && s@ == sel@),
        selector matches Some(sel) ==> (number(sel@) matches Some(n) ==> if n < names@.len() {
            r == Ok::<DeviceChoice, CaptureError>(DeviceChoice::Listed(n as usize))
        } else {
            r is Err
        }),
        selector matches Some(sel) ==> (number(sel@) is None ==> {
            &&& r matches Ok(DeviceChoice::Listed(i)) ==> (names@[i as int] matches Some(n)
                && holds(lower_case(n@), lower_case(sel@)))
            &&& r matches Ok(DeviceChoice::Listed(i)) ==> j < i ==> !(names@[j] matches Some(n)
                && holds(lower_case(n@), lower_case(sel@)))
            &&& r is Err ==> !(names@[j] matches Some(n) && holds(
                lower_case(n@),
                lower_case(sel@),
            ))
        }),
{
    match selector {
        Some(sel) => {
            if number(sel@) is None {
                match r {
                    Ok(DeviceChoice::Listed(i)) => {
                        if j < i {
                            assert(!name_holds(names@[j], lower_case(sel@)));
                        }
                    },
                    _ => {
                        assert(!name_holds(names@[j], lower_case(sel@)));
                    },
                }
            }
        },
        None => {},
    }
}

/// The range that is used holds the rate that features are made for. Where some
/// range holds it without conversion, the one used does too, and of those that
/// serve as well none comes earlier. Only where no range holds the rate is none
/// used.
pub proof fn formats_need_no_conversion_if_possible(
    ranges: &[ConfigRange],
    r: Option<usize>,
    j: int,
)
    requires
        call_ensures(choose_input_config, (ranges,), r),
        0 <= j < ranges@.len(),
        ranges@[j].min_rate <= 44_100 <= ranges@[j].max_rate,
    ensures
        r matches Some(i) && i < ranges@.len() && ranges@[i as int].min_rate <= 44_100
            <= ranges@[i as int].max_rate && (ranges@[j].is_f32 ==> ranges@[i as int].is_f32) && (
        j < i ==> !ranges@[j].is_f32 && ranges@[i as int].is_f32),
{
    assert(ranges@[j].covers());
    match r {
        Some(i) => {
            if exists|k: int|
                0 <= k < ranges@.len() && (#[trigger] ranges@[k]).covers() && ranges@[k].is_f32 {
                assert(first_direct(ranges@, i as int));
            } else {
                assert(first_covering(ranges@, i as int));
            }
        },
        None => {},
    }
}

/// The home screen warns of a faint microphone from a gain of 32 on, of dropped
/// samples where there are any, and of nothing else.
pub proof fn warnings_follow_the_input(gain: Single, dropped: usize, v: Vec<&'static str>)
    requires
        call_ensures(input_warnings, (gain, dropped), v),
    ensures
        v@.len() == (if (Single { bits: 0x4200_0000 }).at_most(gain) {
            1int
        } else {
            0
        }) + (if dropped >= 1 {
            1int
        } else {
            0
        }),
        (Single { bits: 0x4200_0000 }).at_most(gain) ==> v@[0]@ == "Low mic signal."@,
        dropped >= 1 ==> v@.last()@ == "Audio samples dropped."@,
{
    if v@.len() > 0 {
        assert(v@[0]@ == input_health(gain, dropped)[0]);
        assert(v@[v@.len() - 1]@ == input_health(gain, dropped)[v@.len() - 1]);
    }
}

proof fn wanted_taps_are_taps(events: Seq<OnsetEvent>, wanted: int)
    requires
        wanted >= 0,
    ensures
        wanted_taps(events, wanted).len() <= wanted,
        forall|i: int|
            0 <= i < wanted_taps(events, wanted).len() ==> 0 <= (#[trigger] wanted_taps(
                events,
                wanted,
            )[i]) < events.len() && events[wanted_taps(events, wanted)[i]].is_transient,
        forall|i: int, j: int|
            0 <= i < j < wanted_taps(events, wanted).len() ==> (#[trigger] wanted_taps(
                events,
                wanted,
            )[i]) < #[trigger] wanted_taps(events, wanted)[j],
        forall|k: int|
            0 <= k < events.len() && (#[trigger] events[k]).is_transient ==> wanted_taps(
                events,
                wanted,
            ).contains(k) || (wanted_taps(events, wanted).len() == wanted && forall|i: int|
                0 <= i < wanted_taps(events, wanted).len() ==> (#[trigger] wanted_taps(
                    events,
                    wanted,
                )[i]) < k),
    decreases events.len(),
{
    if events.len() > 0 {
        let init = events.drop_last();
        wanted_taps_are_taps(init, wanted);
        let before = wanted_taps(init, wanted);
        let now = wanted_taps(events, wanted);
        assert forall|i: int| 0 <= i < now.len() implies 0 <= (#[trigger] now[i]) < events.len()
            && events[now[i]].is_transient by {
            if i < before.len() {
                assert(now[i] == before[i]);
                assert(init[before[i]].is_transient);
            }
        }
        assert forall|i: int, j: int| 0 <= i < j < now.len() implies (#[trigger] now[i])
            < #[trigger] now[j] by {
            assert(now[i] == before[i]);
            if j < before.len() {
                assert(now[j] == before[j]);
            }
        }
        assert forall|k: int| 0 <= k < events.len() && (
        #[trigger] events[k]).is_transient implies now.contains(k) || (now.len() == wanted
            && forall|i: int| 0 <= i < now.len() ==> (#[trigger] now[i]) < k) by {
            if k < init.len() {
                assert(init[k].is_transient);
                if before.contains(k) {
                    let i = before.index_of(k);
                    assert(now[i] == k);
                } else {
                    assert(now == before);
                }
            } else if before.len() < wanted {
                assert(now[before.len() as int] == k);
            } else {
                assert forall|i: int| 0 <= i < now.len() implies (#[trigger] now[i]) < k by {
                    assert(before[i] < init.len());
                }
            }
        }
    }
}

/// Kept are taps alone, each once and in order, up to the number that is wanted.
/// No tap is passed over: one that is not kept comes after enough of them.
pub proof fn the_first_taps_are_kept(
    events: &[OnsetEvent],
    have: usize,
    taps_per_zone: usize,
    keep: Vec<usize>,
    k: usize,
)
    requires
        call_ensures(capture_taps, (events, have, taps_per_zone), keep),
        have <= taps_per_zone,
        k < events@.len(),
    ensures
        have + keep@.len() <= taps_per_zone,
        forall|i: int|
            0 <= i < keep@.len() ==> (#[trigger] keep@[i]) < events@.len()
                && events@[keep@[i] as int].is_transient,
        forall|i: int, j: int|
            0 <= i < j < keep@.len() ==> (#[trigger] keep@[i]) < (#[trigger] keep@[j]),
        events@[k as int].is_transient ==> keep@.contains(k) || (have + keep@.len()
            == taps_per_zone && forall|i: int|
            0 <= i < keep@.len() ==> (#[trigger] keep@[i]) < k),
{
    let wanted = taps_per_zone - have;
    let taps = wanted_taps(events@, wanted);
    wanted_taps_are_taps(events@, wanted);
    assert forall|i: int| 0 <= i < keep@.len() implies (#[trigger] keep@[i]) < events@.len()
        && events@[keep@[i] as int].is_transient by {
        assert(keep@[i] == taps[i]);
    }
    assert forall|i: int, j: int| 0 <= i < j < keep@.len() implies (#[trigger] keep@[i]) < (
    #[trigger] keep@[j]) by {
        assert(keep@[i] == taps[i] && keep@[j] == taps[j]);
    }
    if events@[k as int].is_transient {
        if taps.contains(k as int) {
            let i = taps.index_of(k as int);
            assert(keep@[i] == taps[i]);
        } else {
            assert forall|i: int| 0 <= i < keep@.len() implies (#[trigger] keep@[i]) < k by {
                assert(keep@[i] == taps[i]);
            }
        }
    }
}

} // verus!
