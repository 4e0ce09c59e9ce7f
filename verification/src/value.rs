//! Copies and comparisons by value, for what profiles are made of.

use vstd::prelude::*;

use crate::classifier::{example_views, rows, ClassifierParams, Parameters, StdExample};
use crate::ids::{ProfileId, ZoneId};
use crate::profile::{
    ActionSpec, DeviceFingerprint, KeyCombo, Modifier, Profile, ScreenshotMode, SensingMode,
    SystemSound, Timestamp, Zone, ZoneLayout,
};
use crate::single::{encodings_compare_as_numbers, finite_seq, value_of, Single};

verus! {

/// Something that can be copied and compared.
pub trait Value: View + Sized {
    /// Equal in all its parts, numbers as numbers: a NaN equals nothing, and the
    /// two zeros are equal.
    spec fn equals(&self, other: &Self) -> bool;

    fn copy(&self) -> (r: Self)
        ensures
            r@ == self@,
    ;

    fn same(&self, other: &Self) -> (r: bool)
        ensures
            r == self.equals(other),
    ;
}

/// The views of the entries.
pub open spec fn views<T: Value>(s: Seq<T>) -> Seq<T::V> {
    Seq::new(s.len(), |i: int| s[i]@)
}

/// The lists are equal entry by entry.
pub open spec fn all_equal<T: Value>(a: Seq<T>, b: Seq<T>) -> bool {
    a.len() == b.len() && forall|i: int| 0 <= i < a.len() ==> (#[trigger] a[i]).equals(&b[i])
}

/// A copy of a list.
pub fn copy_all<T: Value>(v: &Vec<T>) -> (out: Vec<T>)
    ensures
        views(out@) == views(v@),
        out@.len() == v@.len(),
{
    let mut out: Vec<T> = Vec::new();
    let mut i: usize = 0;
    while i < v.len()
        invariant
            i <= v@.len(),
            out@.len() == i,
            forall|j: int| 0 <= j < i ==> (#[trigger] out@[j])@ == v@[j]@,
        decreases v@.len() - i,
    {
        out.push(v[i].copy());
        i += 1;
    }
    proof {
        assert(views(out@) =~= views(v@));
    }
    out
}

/// Whether two lists are equal entry by entry.
pub fn same_all<T: Value>(a: &Vec<T>, b: &Vec<T>) -> (r: bool)
    ensures
        r == all_equal(a@, b@),
{
    if a.len() != b.len() {
        return false;
    }
    let mut i: usize = 0;
    while i < a.len()
        invariant
            i <= a@.len(),
            a@.len() == b@.len(),
            forall|j: int| 0 <= j < i ==> (#[trigger] a@[j]).equals(&b@[j]),
        decreases a@.len() - i,
    {
        if !a[i].same(&b[i]) {
            return false;
        }
        i += 1;
    }
    true
}

/// Lists of something that is equal where its view is are equal where their
/// entries' views are.
proof fn equal_by_view<T: Value>(a: Seq<T>, b: Seq<T>)
    requires
        forall|x: T, y: T| #[trigger] x.equals(&y) <==> x@ == y@,
    ensures
        all_equal(a, b) <==> views(a) == views(b),
{
    if all_equal(a, b) {
        assert(views(a) =~= views(b));
    }
    if views(a) == views(b) {
        assert(views(a).len() == views(b).len());
        assert forall|i: int| 0 <= i < a.len() implies (#[trigger] a[i]).equals(&b[i]) by {
            assert(views(a)[i] == a[i]@);
            assert(views(b)[i] == b[i]@);
        }
    }
}

impl Value for String {
    open spec fn equals(&self, other: &String) -> bool {
        self@ == other@
    }

    fn copy(&self) -> (r: String) {
        self.clone()
    }

    fn same(&self, other: &String) -> (r: bool) {
        *self == *other
    }
}

impl View for Single {
    type V = Single;

    open spec fn view(&self) -> Single {
        *self
    }
}

impl Value for Single {
    open spec fn equals(&self, other: &Single) -> bool {
        self.at_most(*other) && other.at_most(*self)
    }

    fn copy(&self) -> (r: Single) {
        *self
    }

    fn same(&self, other: &Single) -> (r: bool) {
        self.le(*other) && other.le(*self)
    }
}

impl View for Modifier {
    type V = Modifier;

    open spec fn view(&self) -> Modifier {
        *self
    }
}

impl Value for Modifier {
    open spec fn equals(&self, other: &Modifier) -> bool {
        *self == *other
    }

    fn copy(&self) -> (r: Modifier) {
        *self
    }

    fn same(&self, other: &Modifier) -> (r: bool) {
        *self == *other
    }
}

impl View for ZoneId {
    type V = ZoneId;

    open spec fn view(&self) -> ZoneId {
        *self
    }
}

impl Value for ZoneId {
    open spec fn equals(&self, other: &ZoneId) -> bool {
        *self == *other
    }

    fn copy(&self) -> (r: ZoneId) {
        *self
    }

    fn same(&self, other: &ZoneId) -> (r: bool) {
        *self == *other
    }
}

impl Value for Vec<Single> {
    open spec fn equals(&self, other: &Vec<Single>) -> bool {
        all_equal(self@, other@)
    }

    fn copy(&self) -> (r: Vec<Single>) {
        let r = copy_all(self);
        proof {
            assert(views(r@) =~= r@);
            assert(views(self@) =~= self@);
        }
        r
    }

    fn same(&self, other: &Vec<Single>) -> (r: bool) {
        same_all(self, other)
    }
}

impl Value for StdExample {
    open spec fn equals(&self, other: &StdExample) -> bool {
        self.zone == other.zone && self.v.equals(&other.v)
    }

    fn copy(&self) -> (r: StdExample) {
        StdExample { zone: self.zone, v: self.v.copy() }
    }

    fn same(&self, other: &StdExample) -> (r: bool) {
        self.zone == other.zone && self.v.same(&other.v)
    }
}

impl Value for ClassifierParams {
    open spec fn equals(&self, other: &ClassifierParams) -> bool {
        &&& self.schema_version == other.schema_version
        &&& self.feature_mean.equals(&other.feature_mean)
        &&& self.feature_std.equals(&other.feature_std)
        &&& self.zone_ids@ == other.zone_ids@
        &&& all_equal(self.centroids@, other.centroids@)
        &&& all_equal(self.examples@, other.examples@)
        &&& self.novelty_threshold.equals(&other.novelty_threshold)
        &&& self.negative_examples_trained == other.negative_examples_trained
    }

    fn copy(&self) -> (r: ClassifierParams) {
        let r = ClassifierParams {
            schema_version: self.schema_version,
            feature_mean: self.feature_mean.copy(),
            feature_std: self.feature_std.copy(),
            zone_ids: copy_all(&self.zone_ids),
            centroids: copy_all(&self.centroids),
            examples: copy_all(&self.examples),
            novelty_threshold: self.novelty_threshold,
            negative_examples_trained: self.negative_examples_trained,
        };
        proof {
            assert(views(r.zone_ids@) =~= r.zone_ids@);
            assert(views(self.zone_ids@) =~= self.zone_ids@);
            assert(views(r.centroids@) =~= rows(r.centroids@));
            assert(views(self.centroids@) =~= rows(self.centroids@));
            assert(views(r.examples@) =~= example_views(r.examples@));
            assert(views(self.examples@) =~= example_views(self.examples@));
        }
        r
    }

    fn same(&self, other: &ClassifierParams) -> (r: bool) {
        proof {
            equal_by_view(self.zone_ids@, other.zone_ids@);
            assert(views(other.zone_ids@) =~= other.zone_ids@);
            assert(views(self.zone_ids@) =~= self.zone_ids@);
        }
        self.schema_version == other.schema_version && self.feature_mean.same(&other.feature_mean)
            && self.feature_std.same(&other.feature_std) && same_all(
            &self.zone_ids,
            &other.zone_ids,
        ) && same_all(&self.centroids, &other.centroids) && same_all(
            &self.examples,
            &other.examples,
        ) && self.novelty_threshold.same(&other.novelty_threshold) && self.negative_examples_trained
            == other.negative_examples_trained
    }
}

/// What a key combination says.
pub struct ComboView {
    pub modifiers: Seq<Modifier>,
    pub key: Seq<char>,
}

impl View for KeyCombo {
    type V = ComboView;

    open spec fn view(&self) -> ComboView {
        ComboView { modifiers: self.modifiers@, key: self.key@ }
    }
}

impl Value for KeyCombo {
    open spec fn equals(&self, other: &KeyCombo) -> bool {
        self@ == other@
    }

    fn copy(&self) -> (r: KeyCombo) {
        let r = KeyCombo { modifiers: copy_all(&self.modifiers), key: self.key.clone() };
        proof {
            assert(views(r.modifiers@) =~= r.modifiers@);
            assert(views(self.modifiers@) =~= self.modifiers@);
        }
        r
    }

    fn same(&self, other: &KeyCombo) -> (r: bool) {
        proof {
            equal_by_view(self.modifiers@, other.modifiers@);
            assert(views(other.modifiers@) =~= other.modifiers@);
            assert(views(self.modifiers@) =~= self.modifiers@);
        }
        same_all(&self.modifiers, &other.modifiers) && self.key == other.key
    }
}

/// What an action says.
pub enum ActionView {
    OpenApp { path: Seq<char> },
    OpenPath { path: Seq<char> },
    OpenUrl { url: Seq<char> },
    RunCommand { command: Seq<char>, args: Seq<Seq<char>> },
    CopyToClipboard { text: Seq<char> },
    Speak { text: Seq<char> },
    PlaySound { sound: SystemSound },
    ShowToast { title: Seq<char>, body: Seq<char> },
    SendKeystroke { combo: ComboView },
    Screenshot { mode: ScreenshotMode },
    VisualOnly,
}

impl View for ActionSpec {
    type V = ActionView;

    open spec fn view(&self) -> ActionView {
        match self {
            ActionSpec::OpenApp { path } => ActionView::OpenApp { path: path@ },
            ActionSpec::OpenPath { path } => ActionView::OpenPath { path: path@ },
            ActionSpec::OpenUrl { url } => ActionView::OpenUrl { url: url@ },
            ActionSpec::RunCommand { command, args } => ActionView::RunCommand {
                command: command@,
                args: views(args@),
            },
            ActionSpec::CopyToClipboard { text } => ActionView::CopyToClipboard { text: text@ },
            ActionSpec::Speak { text } => ActionView::Speak { text: text@ },
            ActionSpec::PlaySound { sound } => ActionView::PlaySound { sound: *sound },
            ActionSpec::ShowToast { title, body } => ActionView::ShowToast {
                title: title@,
                body: body@,
            },
            ActionSpec::SendKeystroke { combo } => ActionView::SendKeystroke { combo: combo@ },
            ActionSpec::Screenshot { mode } => ActionView::Screenshot { mode: *mode },
            ActionSpec::VisualOnly => ActionView::VisualOnly,
        }
    }
}

impl Value for ActionSpec {
    open spec fn equals(&self, other: &ActionSpec) -> bool {
        self@ == other@
    }

    fn copy(&self) -> (r: ActionSpec) {
        match self {
            ActionSpec::OpenApp { path } => ActionSpec::OpenApp { path: path.clone() },
            ActionSpec::OpenPath { path } => ActionSpec::OpenPath { path: path.clone() },
            ActionSpec::OpenUrl { url } => ActionSpec::OpenUrl { url: url.clone() },
            ActionSpec::RunCommand { command, args } => ActionSpec::RunCommand {
                command: command.clone(),
                args: copy_all(args),
            },
            ActionSpec::CopyToClipboard { text } => ActionSpec::CopyToClipboard {
                text: text.clone(),
            },
            ActionSpec::Speak { text } => ActionSpec::Speak { text: text.clone() },
            ActionSpec::PlaySound { sound } => ActionSpec::PlaySound { sound: *sound },
            ActionSpec::ShowToast { title, body } => ActionSpec::ShowToast {
                title: title.clone(),
                body: body.clone(),
            },
            ActionSpec::SendKeystroke { combo } => ActionSpec::SendKeystroke {
                combo: combo.copy(),
            },
            ActionSpec::Screenshot { mode } => ActionSpec::Screenshot { mode: *mode },
            ActionSpec::VisualOnly => ActionSpec::VisualOnly,
        }
    }

    fn same(&self, other: &ActionSpec) -> (r: bool) {
        proof {
            match (self, other) {
                (
                    ActionSpec::RunCommand { args: x, .. },
                    ActionSpec::RunCommand { args: y, .. },
                ) => equal_by_view(x@, y@),
                _ => {},
            }
        }
        match (self, other) {
            (ActionSpec::OpenApp { path: a }, ActionSpec::OpenApp { path: b }) => *a == *b,
            (ActionSpec::OpenPath { path: a }, ActionSpec::OpenPath { path: b }) => *a == *b,
            (ActionSpec::OpenUrl { url: a }, ActionSpec::OpenUrl { url: b }) => *a == *b,
            (
                ActionSpec::RunCommand { command: a, args: x },
                ActionSpec::RunCommand { command: b, args: y },
            ) => *a == *b && same_all(x, y),
            (ActionSpec::CopyToClipboard { text: a }, ActionSpec::CopyToClipboard { text: b }) => *a
                == *b,
            (ActionSpec::Speak { text: a }, ActionSpec::Speak { text: b }) => *a == *b,
            (ActionSpec::PlaySound { sound: a }, ActionSpec::PlaySound { sound: b }) => *a == *b,
            (
                ActionSpec::ShowToast { title: a, body: x },
                ActionSpec::ShowToast { title: b, body: y },
            ) => *a == *b && *x == *y,
            (ActionSpec::SendKeystroke { combo: a }, ActionSpec::SendKeystroke { combo: b }) =>
                a.same(b),
            (ActionSpec::Screenshot { mode: a }, ActionSpec::Screenshot { mode: b }) => *a == *b,
            (ActionSpec::VisualOnly, ActionSpec::VisualOnly) => true,
            _ => false,
        }
    }
}

/// What a zone says.
pub struct ZoneView {
    pub id: ZoneId,
    pub label: Seq<char>,
    pub layout: ZoneLayout,
    pub actions: Seq<ActionView>,
    pub calibration_sample_count: u32,
}

impl View for Zone {
    type V = ZoneView;

    open spec fn view(&self) -> ZoneView {
        ZoneView {
            id: self.id,
            label: self.label@,
            layout: self.layout,
            actions: views(self.actions@),
            calibration_sample_count: self.calibration_sample_count,
        }
    }
}

impl Value for Zone {
    open spec fn equals(&self, other: &Zone) -> bool {
        &&& self.id == other.id
        &&& self.label@ == other.label@
        &&& self.layout.x.equals(&other.layout.x)
        &&& self.layout.y.equals(&other.layout.y)
        &&& self.layout.width.equals(&other.layout.width)
        &&& self.layout.height.equals(&other.layout.height)
        &&& views(self.actions@) == views(other.actions@)
        &&& self.calibration_sample_count == other.calibration_sample_count
    }

    fn copy(&self) -> (r: Zone) {
        Zone {
            id: self.id,
            label: self.label.clone(),
            layout: self.layout,
            actions: copy_all(&self.actions),
            calibration_sample_count: self.calibration_sample_count,
        }
    }

    fn same(&self, other: &Zone) -> (r: bool) {
        proof {
            equal_by_view(self.actions@, other.actions@);
        }
        self.id == other.id && self.label == other.label && self.layout.x.same(&other.layout.x)
            && self.layout.y.same(&other.layout.y) && self.layout.width.same(&other.layout.width)
            && self.layout.height.same(&other.layout.height) && same_all(
            &self.actions,
            &other.actions,
        ) && self.calibration_sample_count == other.calibration_sample_count
    }
}

/// What a profile says.
pub struct ProfileView {
    pub schema_version: u32,
    pub id: ProfileId,
    pub name: Seq<char>,
    pub created_at: Timestamp,
    pub updated_at: Timestamp,
    pub device_name: Seq<char>,
    pub capability_hash: Seq<char>,
    pub sensing_mode: SensingMode,
    pub zones: Seq<ZoneView>,
    pub classifier: Parameters,
    pub negative_examples_trained: bool,
}

impl View for Profile {
    type V = ProfileView;

    open spec fn view(&self) -> ProfileView {
        ProfileView {
            schema_version: self.schema_version,
            id: self.id,
            name: self.name@,
            created_at: self.created_at,
            updated_at: self.updated_at,
            device_name: self.device_fingerprint.device_name@,
            capability_hash: self.device_fingerprint.capability_hash@,
            sensing_mode: self.sensing_mode,
            zones: views(self.zones@),
            classifier: self.classifier@,
            negative_examples_trained: self.negative_examples_trained,
        }
    }
}

impl Value for Profile {
    open spec fn equals(&self, other: &Profile) -> bool {
        &&& self.schema_version == other.schema_version
        &&& self.id == other.id
        &&& self.name@ == other.name@
        &&& self.created_at == other.created_at
        &&& self.updated_at == other.updated_at
        &&& self.device_fingerprint.device_name@ == other.device_fingerprint.device_name@
        &&& self.device_fingerprint.capability_hash@ == other.device_fingerprint.capability_hash@
        &&& self.sensing_mode == other.sensing_mode
        &&& all_equal(self.zones@, other.zones@)
        &&& self.classifier.equals(&other.classifier)
        &&& self.negative_examples_trained == other.negative_examples_trained
    }

    fn copy(&self) -> (r: Profile) {
        Profile {
            schema_version: self.schema_version,
            id: self.id,
            name: self.name.clone(),
            created_at: self.created_at,
            updated_at: self.updated_at,
            device_fingerprint: DeviceFingerprint {
                device_name: self.device_fingerprint.device_name.clone(),
                capability_hash: self.device_fingerprint.capability_hash.clone(),
            },
            sensing_mode: self.sensing_mode,
            zones: copy_all(&self.zones),
            classifier: self.classifier.copy(),
            negative_examples_trained: self.negative_examples_trained,
        }
    }

    fn same(&self, other: &Profile) -> (r: bool) {
        self.schema_version == other.schema_version && self.id == other.id && self.name
            == other.name && self.created_at == other.created_at && self.updated_at
            == other.updated_at && self.device_fingerprint.device_name
            == other.device_fingerprint.device_name && self.device_fingerprint.capability_hash
            == other.device_fingerprint.capability_hash && self.sensing_mode == other.sensing_mode
            && same_all(&self.zones, &other.zones) && self.classifier.same(&other.classifier)
            && self.negative_examples_trained == other.negative_examples_trained
    }
}

proof fn finite_numbers_equal_themselves(a: Vec<Single>, b: Vec<Single>)
    requires
        a@ == b@,
        finite_seq(a@),
    ensures
        a.equals(&b),
{
    assert forall|i: int| 0 <= i < a@.len() implies (#[trigger] a@[i]).equals(&b@[i]) by {
        assert(a@[i].finite());
    }
}

/// A valid profile equals everything that says the same: one that was stored and
/// read back unchanged needs no saving.
pub proof fn valid_profiles_equal_their_copies(a: Profile, b: Profile)
    requires
        a.valid(),
        a@ == b@,
    ensures
        a.equals(&b),
        b.valid(),
{
    validity_shows_in_the_view(a, b);
    assert(views(a.zones@).len() == views(b.zones@).len());
    assert forall|i: int| 0 <= i < a.zones@.len() implies (#[trigger] a.zones@[i]).equals(
        &b.zones@[i],
    ) by {
        assert(views(a.zones@)[i] == a.zones@[i]@);
        assert(views(b.zones@)[i] == b.zones@[i]@);
    }
    let (p, q) = (a.classifier, b.classifier);
    finite_numbers_equal_themselves(p.feature_mean, q.feature_mean);
    finite_numbers_equal_themselves(p.feature_std, q.feature_std);
    assert(p@.centroids.len() == q@.centroids.len());
    assert forall|i: int| 0 <= i < p.centroids@.len() implies (#[trigger] p.centroids@[i]).equals(
        &q.centroids@[i],
    ) by {
        assert(p@.centroids[i] == q@.centroids[i]);
        finite_numbers_equal_themselves(p.centroids@[i], q.centroids@[i]);
    }
    assert(p@.examples.len() == q@.examples.len());
    assert forall|i: int| 0 <= i < p.examples@.len() implies (#[trigger] p.examples@[i]).equals(
        &q.examples@[i],
    ) by {
        assert(p@.examples[i] == q@.examples[i]);
        finite_numbers_equal_themselves(p.examples@[i].v, q.examples@[i].v);
    }
}

/// Whether a profile is valid shows in its view: a copy of a valid profile is
/// valid.
pub proof fn validity_shows_in_the_view(a: Profile, b: Profile)
    requires
        a@.zones == b@.zones,
        a@.classifier == b@.classifier,
    ensures
        a.valid() == b.valid(),
{
    assert(views(a.zones@).len() == views(b.zones@).len());
    assert forall|i: int| 0 <= i < a.zones@.len() implies (#[trigger] a.zones@[i]).layout
        == b.zones@[i].layout by {
        assert(views(a.zones@)[i] == a.zones@[i]@);
        assert(views(b.zones@)[i] == b.zones@[i]@);
    }
    assert forall|i: int| 0 <= i < b.zones@.len() implies (#[trigger] b.zones@[i]).layout
        == a.zones@[i].layout by {
        assert(a.zones@[i].layout == b.zones@[i].layout);
    }
}

/// A view holds everything that the value holds: profiles with the same view agree
/// in every part, zone for zone and action for action.
pub proof fn views_tell_everything(a: Profile, b: Profile, z: int, i: int)
    requires
        a@ == b@,
        0 <= z < a.zones@.len(),
        0 <= i < a.zones@[z].actions@.len(),
    ensures
        a.schema_version == b.schema_version && a.id == b.id && a.name@ == b.name@,
        a.created_at == b.created_at && a.updated_at == b.updated_at,
        a.device_fingerprint.device_name@ == b.device_fingerprint.device_name@,
        a.device_fingerprint.capability_hash@ == b.device_fingerprint.capability_hash@,
        a.sensing_mode == b.sensing_mode,
        a.negative_examples_trained == b.negative_examples_trained,
        a.zones@.len() == b.zones@.len(),
        a.zones@[z].id == b.zones@[z].id && a.zones@[z].label@ == b.zones@[z].label@,
        a.zones@[z].layout == b.zones@[z].layout,
        a.zones@[z].calibration_sample_count == b.zones@[z].calibration_sample_count,
        a.zones@[z].actions@.len() == b.zones@[z].actions@.len(),
        a.zones@[z].actions@[i]@ == b.zones@[z].actions@[i]@,
        a.classifier.zone_ids@ == b.classifier.zone_ids@,
        a.classifier.feature_mean@ == b.classifier.feature_mean@,
        a.classifier.feature_std@ == b.classifier.feature_std@,
        a.classifier.novelty_threshold == b.classifier.novelty_threshold,
        a.classifier.schema_version == b.classifier.schema_version,
        a.classifier.negative_examples_trained == b.classifier.negative_examples_trained,
        a.classifier.centroids@.len() == b.classifier.centroids@.len(),
        forall|k: int|
            0 <= k < a.classifier.centroids@.len() ==> (#[trigger] a.classifier.centroids@[k])@
                == b.classifier.centroids@[k]@,
        a.classifier.examples@.len() == b.classifier.examples@.len(),
        forall|k: int|
            0 <= k < a.classifier.examples@.len() ==> (#[trigger] a.classifier.examples@[k]).zone
                == b.classifier.examples@[k].zone && a.classifier.examples@[k].v@
                == b.classifier.examples@[k].v@,
{
    assert(a@.zones.len() == a.zones@.len() && b@.zones.len() == b.zones@.len());
    assert(a.zones@[z]@ == a@.zones[z]);
    assert(b.zones@[z]@ == b@.zones[z]);
    assert(a.zones@[z]@.actions.len() == a.zones@[z].actions@.len());
    assert(b.zones@[z]@.actions.len() == b.zones@[z].actions@.len());
    assert(a.zones@[z].actions@[i]@ == a.zones@[z]@.actions[i]);
    assert(b.zones@[z].actions@[i]@ == b.zones@[z]@.actions[i]);
    let (p, q) = (a.classifier, b.classifier);
    assert(p@ == q@);
    assert(p@.centroids.len() == p.centroids@.len() && q@.centroids.len() == q.centroids@.len());
    assert(p@.examples.len() == p.examples@.len() && q@.examples.len() == q.examples@.len());
    assert forall|k: int| 0 <= k < p.centroids@.len() implies (#[trigger] p.centroids@[k])@
        == q.centroids@[k]@ by {
        assert(p@.centroids[k] == q@.centroids[k]);
    }
    assert forall|k: int| 0 <= k < p.examples@.len() implies (#[trigger] p.examples@[k]).zone
        == q.examples@[k].zone && p.examples@[k].v@ == q.examples@[k].v@ by {
        assert(p@.examples[k] == q@.examples[k]);
    }
}

/// Numbers are equal as numbers: the two zeros are, a NaN is equal to nothing, and
/// finite numbers are where they stand for the same value.
pub proof fn numbers_are_equal_as_numbers(a: Single, b: Single)
    ensures
        a.nan() || b.nan() ==> !a.equals(&b),
        a.finite() && b.finite() ==> (a.equals(&b) <==> value_of(a) == value_of(b)),
        a.equals(&b) <==> b.equals(&a),
{
    encodings_compare_as_numbers(a, b);
    encodings_compare_as_numbers(b, a);
}

/// Profiles that count as equal agree in every part: a change to any of them is
/// noticed, so that it is saved.
pub proof fn every_change_is_noticed(a: Profile, b: Profile, z: int, k: int, i: int)
    requires
        a.equals(&b),
        0 <= z < a.zones@.len(),
        0 <= k < a.classifier.centroids@.len(),
        0 <= i < a.classifier.examples@.len(),
    ensures
        a.schema_version == b.schema_version && a.id == b.id && a.name@ == b.name@,
        a.created_at == b.created_at && a.updated_at == b.updated_at,
        a.device_fingerprint.same(b.device_fingerprint),
        a.sensing_mode == b.sensing_mode,
        a.negative_examples_trained == b.negative_examples_trained,
        a.zones@.len() == b.zones@.len(),
        a.zones@[z].id == b.zones@[z].id && a.zones@[z].label@ == b.zones@[z].label@,
        a.zones@[z].calibration_sample_count == b.zones@[z].calibration_sample_count,
        a.zones@[z]@.actions == b.zones@[z]@.actions,
        a.zones@[z].layout.x.rank() == b.zones@[z].layout.x.rank(),
        a.zones@[z].layout.y.rank() == b.zones@[z].layout.y.rank(),
        a.zones@[z].layout.width.rank() == b.zones@[z].layout.width.rank(),
        a.zones@[z].layout.height.rank() == b.zones@[z].layout.height.rank(),
        a.classifier.schema_version == b.classifier.schema_version,
        a.classifier.zone_ids@ == b.classifier.zone_ids@,
        a.classifier.negative_examples_trained == b.classifier.negative_examples_trained,
        a.classifier.novelty_threshold.rank() == b.classifier.novelty_threshold.rank(),
        a.classifier.feature_mean@.len() == b.classifier.feature_mean@.len(),
        forall|j: int|
            0 <= j < a.classifier.feature_mean@.len() ==> (
            #[trigger] a.classifier.feature_mean@[j]).rank() == b.classifier.feature_mean@[j].rank(),
        a.classifier.feature_std@.len() == b.classifier.feature_std@.len(),
        forall|j: int|
            0 <= j < a.classifier.feature_std@.len() ==> (
            #[trigger] a.classifier.feature_std@[j]).rank() == b.classifier.feature_std@[j].rank(),
        a.classifier.centroids@.len() == b.classifier.centroids@.len(),
        a.classifier.centroids@[k]@.len() == b.classifier.centroids@[k]@.len(),
        forall|j: int|
            0 <= j < a.classifier.centroids@[k]@.len() ==> (
            #[trigger] a.classifier.centroids@[k]@[j]).rank()
                == b.classifier.centroids@[k]@[j].rank(),
        a.classifier.examples@.len() == b.classifier.examples@.len(),
        a.classifier.examples@[i].zone == b.classifier.examples@[i].zone,
        a.classifier.examples@[i].v@.len() == b.classifier.examples@[i].v@.len(),
        forall|j: int|
            0 <= j < a.classifier.examples@[i].v@.len() ==> (
            #[trigger] a.classifier.examples@[i].v@[j]).rank()
                == b.classifier.examples@[i].v@[j].rank(),
{
    assert(a.zones@[z].equals(&b.zones@[z]));
    let (p, q) = (a.classifier, b.classifier);
    assert(p.centroids@[k].equals(&q.centroids@[k]));
    assert(p.examples@[i].equals(&q.examples@[i]));
    numbers_agree(p.feature_mean, q.feature_mean);
    numbers_agree(p.feature_std, q.feature_std);
    numbers_agree(p.centroids@[k], q.centroids@[k]);
    numbers_agree(p.examples@[i].v, q.examples@[i].v);
}

proof fn numbers_agree(a: Vec<Single>, b: Vec<Single>)
    requires
        a.equals(&b),
    ensures
        a@.len() == b@.len(),
        forall|j: int| 0 <= j < a@.len() ==> (#[trigger] a@[j]).rank() == b@[j].rank(),
{
    assert forall|j: int| 0 <= j < a@.len() implies (#[trigger] a@[j]).rank() == b@[j].rank() by {
        assert(a@[j].equals(&b@[j]));
    }
}

/// Texts, keys and actions are equal exactly where they say the same, character by
/// character and part by part.
pub proof fn equal_values_say_the_same(
    s: String,
    t: String,
    a: KeyCombo,
    b: KeyCombo,
    x: ActionSpec,
    y: ActionSpec,
    m: Modifier,
    n: Modifier,
    z: ZoneId,
    w: ZoneId,
)
    ensures
        s.equals(&t) <==> s@ == t@,
        a.equals(&b) <==> a.modifiers@ == b.modifiers@ && a.key@ == b.key@,
        x.equals(&y) <==> x@ == y@,
        m.equals(&n) <==> m == n,
        z.equals(&w) <==> z.value == w.value,
{
}

} // verus!
