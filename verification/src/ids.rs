//! Identities of profiles and zones: random version 4 UUIDs.

use vstd::arithmetic::div_mod::{lemma_div_denominator, lemma_fundamental_div_mod};
use vstd::arithmetic::power::{lemma_pow0, lemma_pow1, lemma_pow_adds, lemma_pow_positive, pow};
use vstd::prelude::*;

verus! {

/// The hexadecimal digit of weight 16 to the `k`.
pub open spec fn nibble(x: nat, k: nat) -> int {
    (x as int / pow(16, k)) % 16
}

/// A hexadecimal digit, lower case.
pub open spec fn hex_digit(d: int) -> char {
    seq!['0', '1', '2', '3', '4', '5', '6', '7', '8', '9', 'a', 'b', 'c', 'd', 'e', 'f'][d]
}

/// Whether a hyphen stands at this place of a written identity.
pub open spec fn hyphen_at(i: int) -> bool {
    i == 8 || i == 13 || i == 18 || i == 23
}

/// How many digits come before this place.
pub open spec fn digits_before(i: int) -> int {
    i - if i > 23 {
        4int
    } else if i > 18 {
        3int
    } else if i > 13 {
        2int
    } else if i > 8 {
        1int
    } else {
        0int
    }
}

/// An identity as text: 32 hexadecimal digits, most significant first, in groups
/// of 8, 4, 4, 4 and 12.
pub open spec fn hyphenated(x: u128) -> Seq<char> {
    Seq::new(
        36,
        |i: int|
            if hyphen_at(i) {
                '-'
            } else {
                hex_digit(nibble(x as nat, (31 - digits_before(i)) as nat))
            },
    )
}

/// A random identity has version 4 and the variant of the standard.
pub open spec fn random_shape(x: u128) -> bool {
    nibble(x as nat, 19) == 4 && 8 <= nibble(x as nat, 15) <= 11
}

/// `Uuid::new_v4` of the `uuid` crate: 122 random bits, the version digit 4 and
/// the variant bits of the standard. Which identity comes is left to chance.
#[verifier::external_body]
fn random_uuid() -> (x: u128)
    ensures
        random_shape(x),
{
    uuid::Uuid::new_v4().as_u128()
}

/// `Uuid`'s `Display` of the `uuid` crate: the identity in lower-case
/// hexadecimal with hyphens between its groups.
#[verifier::external_body]
fn uuid_text(x: u128) -> (s: String)
    ensures
        s@ == hyphenated(x),
{
    uuid::Uuid::from_u128(x).to_string()
}

/// Identity of a profile.
#[derive(Clone, Copy, Debug, PartialEq, Eq, Hash, Structural)]
pub struct ProfileId {
    pub value: u128,
}

/// Identity of a zone, which stays when other zones are calibrated anew.
#[derive(Clone, Copy, Debug, PartialEq, Eq, Hash, Structural)]
pub struct ZoneId {
    pub value: u128,
}

impl ProfileId {
    /// A fresh random identity.
    pub fn new() -> (id: ProfileId)
        ensures
            random_shape(id.value),
    {
        ProfileId { value: random_uuid() }
    }

    /// The identity with this value.
    pub fn from_uuid(value: u128) -> (id: ProfileId)
        ensures
            id.value == value,
    {
        ProfileId { value }
    }

    pub fn as_uuid(&self) -> (value: u128)
        ensures
            value == self.value,
    {
        self.value
    }

    /// The identity as text.
    pub fn text(&self) -> (s: String)
        ensures
            s@ == hyphenated(self.value),
    {
        uuid_text(self.value)
    }
}

impl ZoneId {
    /// A fresh random identity.
    pub fn new() -> (id: ZoneId)
        ensures
            random_shape(id.value),
    {
        ZoneId { value: random_uuid() }
    }

    /// The identity with this value.
    pub fn from_uuid(value: u128) -> (id: ZoneId)
        ensures
            id.value == value,
    {
        ZoneId { value }
    }

    pub fn as_uuid(&self) -> (value: u128)
        ensures
            value == self.value,
    {
        self.value
    }

    /// The identity as text.
    pub fn text(&self) -> (s: String)
        ensures
            s@ == hyphenated(self.value),
    {
        uuid_text(self.value)
    }
}

impl Default for ProfileId {
    fn default() -> (id: ProfileId)
        ensures
            random_shape(id.value),
    {
        ProfileId::new()
    }
}

impl Default for ZoneId {
    fn default() -> (id: ZoneId)
        ensures
            random_shape(id.value),
    {
        ZoneId::new()
    }
}

proof fn nibble_of_sixteenth(x: nat, k: nat)
    ensures
        nibble(x / 16, k) == nibble(x, k + 1),
{
    lemma_pow_positive(16, k);
    lemma_div_denominator(x as int, 16, pow(16, k));
    assert(pow(16, k + 1) == 16 * pow(16, k)) by {
        lemma_pow_adds(16, 1, k);
        lemma_pow1(16);
    }
}

proof fn digits_determine(x: nat, y: nat, count: nat)
    requires
        x < pow(16, count),
        y < pow(16, count),
        forall|k: nat| k < count ==> #[trigger] nibble(x, k) == nibble(y, k),
    ensures
        x == y,
    decreases count,
{
    lemma_pow0(16);
    if count > 0 {
        let rest = (count - 1) as nat;
        assert(pow(16, count) == 16 * pow(16, rest)) by {
            lemma_pow_adds(16, 1, rest);
            lemma_pow1(16);
        }
        assert forall|k: nat| k < rest implies #[trigger] nibble(x / 16, k) == nibble(
            y / 16,
            k,
        ) by {
            nibble_of_sixteenth(x, k);
            nibble_of_sixteenth(y, k);
            assert(nibble(x, k + 1) == nibble(y, k + 1));
        }
        assert(x / 16 < pow(16, rest) && y / 16 < pow(16, rest));
        digits_determine(x / 16, y / 16, rest);
        assert(nibble(x, 0) == nibble(y, 0));
        assert(x % 16 == y % 16);
        lemma_fundamental_div_mod(x as int, 16);
        lemma_fundamental_div_mod(y as int, 16);
    }
}

proof fn hex_digits_differ(a: int, b: int)
    requires
        0 <= a < 16,
        0 <= b < 16,
        hex_digit(a) == hex_digit(b),
    ensures
        a == b,
{
}

/// Two identities with the same text are the same identity: files that are named
/// by identity never collide.
pub proof fn text_names_one_identity(x: u128, y: u128)
    requires
        hyphenated(x) == hyphenated(y),
    ensures
        x == y,
{
    assert forall|k: nat| k < 32 implies #[trigger] nibble(x as nat, k) == nibble(
        y as nat,
        k,
    ) by {
        let d = 31 - k;
        let i = d + if d >= 20 {
            4int
        } else if d >= 16 {
            3int
        } else if d >= 12 {
            2int
        } else if d >= 8 {
            1int
        } else {
            0int
        };
        assert(!hyphen_at(i) && digits_before(i) == d);
        assert(hyphenated(x)[i] == hex_digit(nibble(x as nat, k)));
        assert(hyphenated(y)[i] == hex_digit(nibble(y as nat, k)));
        hex_digits_differ(nibble(x as nat, k), nibble(y as nat, k));
    }
    assert(pow(16, 32) == 0x1_0000_0000_0000_0000_0000_0000_0000_0000) by {
        lemma_pow_adds(16, 1, 1);
        lemma_pow1(16);
        assert(pow(16, 2) == 0x100);
        lemma_pow_adds(16, 2, 2);
        assert(pow(16, 4) == 0x1_0000);
        lemma_pow_adds(16, 4, 4);
        assert(pow(16, 8) == 0x1_0000_0000);
        lemma_pow_adds(16, 8, 8);
        assert(pow(16, 16) == 0x1_0000_0000_0000_0000);
        lemma_pow_adds(16, 16, 16);
    }
    digits_determine(x as nat, y as nat, 32);
}

/// A written identity has 36 characters: hyphens after 8, 12, 16 and 20 digits, and
/// lower-case hexadecimal digits everywhere else.
pub proof fn identities_are_written_in_groups(x: u128, i: int)
    requires
        0 <= i < 36,
    ensures
        hyphenated(x).len() == 36,
        hyphenated(x)[i] == '-' <==> i == 8 || i == 13 || i == 18 || i == 23,
        hyphenated(x)[i] == '-' || '0' <= hyphenated(x)[i] <= '9' || 'a' <= hyphenated(x)[i]
            <= 'f',
{
    if !hyphen_at(i) {
        let k = (31 - digits_before(i)) as nat;
        lemma_pow_positive(16, k);
        let d = nibble(x as nat, k);
        assert(0 <= d < 16);
    }
}

} // verus!
