//! Single-precision numbers, held by their IEEE-754 encoding.
//!
//! A [`Single`] carries the 32 bits of a number and nothing else. Everything that
//! needs no rounding is here: whether a number is finite, its absolute value,
//! and the two orders on numbers (the numeric one, in which a NaN is below and
//! above nothing, and the total one, which ranks every encoding).

use vstd::arithmetic::power2::{
    lemma_pow2_pos, lemma_pow2_strictly_increases, lemma_pow2_unfold, pow2,
};
use vstd::prelude::*;
use vstd::relations::{
    antisymmetric, reflexive, sorted_by, strongly_connected, total_ordering, transitive,
};
use vstd::seq_lib::{
    lemma_sorted_unique, to_multiset_build, to_multiset_insert, to_multiset_len,
};

verus! {

/// Encoding of `0.0`.
pub const ZERO: u32 = 0;

/// Encoding of `1.0`.
pub const ONE: u32 = 0x3f80_0000;

/// Encoding of positive infinity; larger magnitudes are NaNs.
pub const INFINITY: u32 = 0x7f80_0000;

/// Weight of the sign bit.
pub const SIGN: u32 = 0x8000_0000;

/// A single-precision number. `==` compares encodings, so `0.0` and `-0.0` are
/// different values and a NaN equals itself; [`Single::lt`] and [`Single::le`]
/// compare numbers.
#[derive(Clone, Copy, Debug, PartialEq, Eq, Structural)]
pub struct Single {
    pub bits: u32,
}

impl Single {
    /// Whether the sign bit is set.
    pub open spec fn negative(self) -> bool {
        self.bits >= SIGN
    }

    /// The encoding without its sign bit: grows with the absolute value.
    pub open spec fn magnitude(self) -> int {
        if self.negative() {
            self.bits - SIGN
        } else {
            self.bits as int
        }
    }

    pub open spec fn nan(self) -> bool {
        self.magnitude() > INFINITY
    }

    pub open spec fn finite(self) -> bool {
        self.magnitude() < INFINITY
    }

    /// Rank of a number that is no NaN; both zeros have rank 0.
    pub open spec fn rank(self) -> int {
        if self.negative() {
            -self.magnitude()
        } else {
            self.magnitude()
        }
    }

    /// Rank of an encoding in the total order; `-0.0` comes just before `0.0`,
    /// NaNs come at both ends.
    pub open spec fn total_rank(self) -> int {
        if self.negative() {
            -self.magnitude() - 1
        } else {
            self.magnitude()
        }
    }

    /// The numeric `<`.
    pub open spec fn below(self, other: Single) -> bool {
        !self.nan() && !other.nan() && self.rank() < other.rank()
    }

    /// The numeric `<=`.
    pub open spec fn at_most(self, other: Single) -> bool {
        !self.nan() && !other.nan() && self.rank() <= other.rank()
    }

    /// The number without its sign.
    pub open spec fn unsigned(self) -> Single {
        Single { bits: self.magnitude() as u32 }
    }

    /// The larger of two numbers; a NaN gives way to the other.
    pub open spec fn larger(self, other: Single) -> Single {
        if self.nan() || self.below(other) {
            other
        } else {
            self
        }
    }

    /// The smaller of two numbers; a NaN gives way to the other.
    pub open spec fn smaller(self, other: Single) -> Single {
        if self.nan() || other.below(self) {
            other
        } else {
            self
        }
    }

    pub fn from_bits(bits: u32) -> (r: Single)
        ensures
            r.bits == bits,
    {
        Single { bits }
    }

    pub fn to_bits(self) -> (bits: u32)
        ensures
            bits == self.bits,
    {
        self.bits
    }

    fn magnitude_bits(self) -> (m: u32)
        ensures
            m == self.magnitude(),
    {
        if self.bits >= SIGN {
            self.bits - SIGN
        } else {
            self.bits
        }
    }

    pub fn is_nan(self) -> (r: bool)
        ensures
            r == self.nan(),
    {
        self.magnitude_bits() > INFINITY
    }

    pub fn is_finite(self) -> (r: bool)
        ensures
            r == self.finite(),
    {
        self.magnitude_bits() < INFINITY
    }

    pub fn abs(self) -> (r: Single)
        ensures
            r == self.unsigned(),
    {
        Single { bits: self.magnitude_bits() }
    }

    fn rank_value(self) -> (r: i64)
        ensures
            r == self.rank(),
    {
        let m: i64 = self.magnitude_bits() as i64;
        if self.bits >= SIGN {
            -m
        } else {
            m
        }
    }

    fn total_rank_value(self) -> (r: i64)
        ensures
            r == self.total_rank(),
    {
        let m: i64 = self.magnitude_bits() as i64;
        if self.bits >= SIGN {
            -m - 1
        } else {
            m
        }
    }

    /// The numeric `<`: false where either is a NaN.
    pub fn lt(self, other: Single) -> (r: bool)
        ensures
            r == self.below(other),
    {
        !self.is_nan() && !other.is_nan() && self.rank_value() < other.rank_value()
    }

    /// The numeric `<=`: false where either is a NaN.
    pub fn le(self, other: Single) -> (r: bool)
        ensures
            r == self.at_most(other),
    {
        !self.is_nan() && !other.is_nan() && self.rank_value() <= other.rank_value()
    }

    /// Strictly before in the total order.
    pub fn total_lt(self, other: Single) -> (r: bool)
        ensures
            r == (self.total_rank() < other.total_rank()),
    {
        self.total_rank_value() < other.total_rank_value()
    }

    pub fn max(self, other: Single) -> (r: Single)
        ensures
            r == self.larger(other),
    {
        if self.is_nan() || self.lt(other) {
            other
        } else {
            self
        }
    }

    pub fn min(self, other: Single) -> (r: Single)
        ensures
            r == self.smaller(other),
    {
        if self.is_nan() || other.lt(self) {
            other
        } else {
            self
        }
    }
}

/// Every number of the sequence is finite.
pub open spec fn finite_seq(s: Seq<Single>) -> bool {
    forall|i: int| 0 <= i < s.len() ==> (#[trigger] s[i]).finite()
}

/// The smallest number of the sequence: infinity where it holds no number.
pub open spec fn smallest(s: Seq<Single>) -> Single
    decreases s.len(),
{
    if s.len() == 0 {
        Single { bits: INFINITY }
    } else {
        smallest(s.drop_last()).smaller(s.last())
    }
}

/// The last of the sequence in the total order: `0.0` where it is empty.
pub open spec fn total_largest(s: Seq<Single>) -> Single
    decreases s.len(),
{
    if s.len() == 0 {
        Single { bits: ZERO }
    } else if s.len() == 1 {
        s[0]
    } else {
        let before = total_largest(s.drop_last());
        if before.total_rank() < s.last().total_rank() {
            s.last()
        } else {
            before
        }
    }
}

/// `i` is the first position whose number comes first in the total order.
pub open spec fn first_least(s: Seq<Single>, i: int) -> bool {
    &&& 0 <= i < s.len()
    &&& forall|j: int| 0 <= j < i ==> s[i].total_rank() < (#[trigger] s[j]).total_rank()
    &&& forall|j: int| i <= j < s.len() ==> s[i].total_rank() <= (#[trigger] s[j]).total_rank()
}

/// Whether every number is finite.
pub fn all_finite(v: &[Single]) -> (r: bool)
    ensures
        r == finite_seq(v@),
{
    let mut i: usize = 0;
    while i < v.len()
        invariant
            i <= v@.len(),
            forall|j: int| 0 <= j < i ==> (#[trigger] v@[j]).finite(),
        decreases v@.len() - i,
    {
        if !v[i].is_finite() {
            return false;
        }
        i += 1;
    }
    true
}

/// The smallest number, ignoring NaNs; infinity where there is none.
pub fn min_of(v: &[Single]) -> (r: Single)
    ensures
        r == smallest(v@),
{
    let mut best: Single = Single { bits: INFINITY };
    let mut i: usize = 0;
    while i < v.len()
        invariant
            i <= v@.len(),
            best == smallest(v@.take(i as int)),
        decreases v@.len() - i,
    {
        proof {
            assert(v@.take(i + 1).drop_last() =~= v@.take(i as int));
        }
        best = best.min(v[i]);
        i += 1;
    }
    proof {
        assert(v@.take(i as int) =~= v@);
    }
    best
}

/// The last number in the total order; `0.0` where there is none.
pub fn total_max_of(v: &[Single]) -> (r: Single)
    ensures
        r == total_largest(v@),
{
    if v.len() == 0 {
        return Single { bits: ZERO };
    }
    let mut best: Single = v[0];
    let mut i: usize = 1;
    while i < v.len()
        invariant
            1 <= i <= v@.len(),
            best == total_largest(v@.take(i as int)),
        decreases v@.len() - i,
    {
        proof {
            assert(v@.take(i + 1).drop_last() =~= v@.take(i as int));
        }
        if best.total_lt(v[i]) {
            best = v[i];
        }
        i += 1;
    }
    proof {
        assert(v@.take(i as int) =~= v@);
    }
    best
}

/// Position of the number that comes first in the total order; of several
/// equal ones the earliest.
pub fn first_least_of(v: &[Single]) -> (r: Option<usize>)
    ensures
        v@.len() == 0 <==> r is None,
        r matches Some(i) ==> first_least(v@, i as int),
{
    if v.len() == 0 {
        return None;
    }
    let mut best: usize = 0;
    let mut i: usize = 1;
    while i < v.len()
        invariant
            1 <= i <= v@.len(),
            best < i,
            first_least(v@.take(i as int), best as int),
        decreases v@.len() - i,
    {
        proof {
            let t = v@.take(i as int);
            assert forall|j: int| 0 <= j < i implies t[j] == #[trigger] v@[j] by {}
        }
        let ghost t = v@.take(i as int);
        if v[i].total_lt(v[best]) {
            best = i;
        }
        i += 1;
        proof {
            let u = v@.take(i as int);
            assert forall|j: int| 0 <= j < i - 1 implies u[j] == #[trigger] t[j] by {}
            assert forall|j: int| 0 <= j < best implies u[best as int].total_rank() < (
            #[trigger] u[j]).total_rank() by {
                assert(u[j] == t[j]);
            }
            assert forall|j: int| best <= j < u.len() implies u[best as int].total_rank() <= (
            #[trigger] u[j]).total_rank() by {
                if j < i - 1 {
                    assert(u[j] == t[j]);
                }
            }
        }
    }
    proof {
        assert(v@.take(i as int) =~= v@);
    }
    Some(best)
}

/// Two positions that are both first and least are the same position.
pub proof fn first_least_is_unique(s: Seq<Single>, i: int, j: int)
    requires
        first_least(s, i),
        first_least(s, j),
    ensures
        i == j,
{
    if i < j {
        assert(s[j].total_rank() < s[i].total_rank());
    } else if j < i {
        assert(s[i].total_rank() < s[j].total_rank());
    }
}

/// The total order is total: encodings of equal rank are the same encoding.
pub proof fn total_order_is_strict(a: Single, b: Single)
    ensures
        a.total_rank() == b.total_rank() <==> a == b,
{
}

/// The smallest number is no NaN, is at most every number of the sequence, and
/// is one of them (or infinity).
pub proof fn smallest_bounds(s: Seq<Single>)
    ensures
        !smallest(s).nan(),
        forall|i: int|
            0 <= i < s.len() && !(#[trigger] s[i]).nan() ==> smallest(s).at_most(s[i]),
        smallest(s) == (Single { bits: INFINITY }) || s.contains(smallest(s)),
    decreases s.len(),
{
    if s.len() > 0 {
        let t = s.drop_last();
        smallest_bounds(t);
        assert forall|i: int| 0 <= i < s.len() && !(#[trigger] s[i]).nan() implies smallest(
            s,
        ).at_most(s[i]) by {
            if i < t.len() {
                assert(t[i] == s[i]);
            }
        }
        if smallest(s) == smallest(t) {
            if t.contains(smallest(t)) {
                let k = choose|k: int| 0 <= k < t.len() && t[k] == smallest(t);
                assert(s[k] == smallest(s));
            }
        } else {
            assert(s[s.len() - 1] == smallest(s));
        }
    }
}

/// The last in the total order is one of a non-empty sequence and no other of
/// them ranks higher.
pub proof fn total_largest_bounds(s: Seq<Single>)
    requires
        s.len() > 0,
    ensures
        s.contains(total_largest(s)),
        forall|i: int|
            0 <= i < s.len() ==> (#[trigger] s[i]).total_rank() <= total_largest(s).total_rank(),
    decreases s.len(),
{
    if s.len() == 1 {
        assert(s[0] == total_largest(s));
    } else {
        let t = s.drop_last();
        total_largest_bounds(t);
        assert forall|i: int| 0 <= i < s.len() implies (#[trigger] s[i]).total_rank()
            <= total_largest(s).total_rank() by {
            if i < t.len() {
                assert(t[i] == s[i]);
            }
        }
        if total_largest(s) == total_largest(t) {
            let k = choose|k: int| 0 <= k < t.len() && t[k] == total_largest(t);
            assert(s[k] == total_largest(s));
        } else {
            assert(s[s.len() - 1] == total_largest(s));
        }
    }
}

/// The total order, as a relation.
pub open spec fn total_order() -> spec_fn(Single, Single) -> bool {
    |a: Single, b: Single| a.total_rank() <= b.total_rank()
}

/// The numbers in ascending total order.
pub open spec fn ranked(s: Seq<Single>) -> Seq<Single> {
    s.sort_by(total_order())
}

/// The finite numbers, in their order.
pub open spec fn finite_only(s: Seq<Single>) -> Seq<Single>
    decreases s.len(),
{
    if s.len() == 0 {
        Seq::empty()
    } else if s.last().finite() {
        finite_only(s.drop_last()).push(s.last())
    } else {
        finite_only(s.drop_last())
    }
}

proof fn total_order_orders()
    ensures
        total_ordering(total_order()),
{
    let leq = total_order();
    assert(reflexive(leq));
    assert(antisymmetric(leq)) by {
        assert forall|a: Single, b: Single| #[trigger] leq(a, b) && #[trigger] leq(b, a) implies a
            == b by {
            total_order_is_strict(a, b);
        }
    }
    assert(transitive(leq));
    assert(strongly_connected(leq));
}

/// Sort in ascending total order.
pub fn sort_total(v: &[Single]) -> (out: Vec<Single>)
    ensures
        out@ == ranked(v@),
        out@.len() == v@.len(),
{
    let mut out: Vec<Single> = Vec::new();
    let mut i: usize = 0;
    proof {
        assert(out@ =~= v@.take(0));
    }
    while i < v.len()
        invariant
            i <= v@.len(),
            out@.len() == i,
            out@.to_multiset() == v@.take(i as int).to_multiset(),
            sorted_by(out@, total_order()),
        decreases v@.len() - i,
    {
        let x: Single = v[i];
        let mut p: usize = out.len();
        while p > 0 && x.total_lt(out[p - 1])
            invariant
                p <= out@.len(),
                forall|j: int| p <= j < out@.len() ==> x.total_rank() < (#[trigger] out@[j]).total_rank(),
            decreases p,
        {
            p -= 1;
        }
        let ghost before = out@;
        out.insert(p, x);
        proof {
            assert(v@.take(i + 1) =~= v@.take(i as int).push(x));
            to_multiset_build(v@.take(i as int), x);
            to_multiset_insert(before, p as int, x);
            assert forall|a: int, b: int| 0 <= a < b < out@.len() implies #[trigger] total_order()(
                out@[a],
                out@[b],
            ) by {
                let lower = |k: int| -> int {
                    if k < p {
                        k
                    } else {
                        k - 1
                    }
                };
                if a != p && b != p {
                    assert(total_order()(before[lower(a)], before[lower(b)]));
                } else if b == p {
                    if p > 0 && a < p - 1 {
                        assert(total_order()(before[a], before[p - 1]));
                    }
                }
            }
        }
        i += 1;
    }
    proof {
        assert(v@.take(i as int) =~= v@);
        total_order_orders();
        v@.lemma_sort_by_ensures(total_order());
        lemma_sorted_unique(out@, ranked(v@), total_order());
    }
    out
}

/// The finite numbers.
pub fn keep_finite(v: &[Single]) -> (out: Vec<Single>)
    ensures
        out@ == finite_only(v@),
{
    let mut out: Vec<Single> = Vec::new();
    let mut i: usize = 0;
    while i < v.len()
        invariant
            i <= v@.len(),
            out@ == finite_only(v@.take(i as int)),
        decreases v@.len() - i,
    {
        proof {
            assert(v@.take(i + 1).drop_last() =~= v@.take(i as int));
        }
        if v[i].is_finite() {
            out.push(v[i]);
        }
        i += 1;
    }
    proof {
        assert(v@.take(i as int) =~= v@);
    }
    out
}

/// Sorting keeps the numbers: how many there are and which.
pub proof fn ranked_keeps_the_numbers(s: Seq<Single>)
    ensures
        ranked(s).len() == s.len(),
        ranked(s).to_multiset() == s.to_multiset(),
        forall|i: int, j: int|
            0 <= i <= j < s.len() ==> (#[trigger] ranked(s)[i]).total_rank() <= (
            #[trigger] ranked(s)[j]).total_rank(),
{
    total_order_orders();
    s.lemma_sort_by_ensures(total_order());
    to_multiset_len(s);
    to_multiset_len(ranked(s));
    assert forall|i: int, j: int| 0 <= i <= j < s.len() implies (
    #[trigger] ranked(s)[i]).total_rank() <= (#[trigger] ranked(s)[j]).total_rank() by {
        if i < j {
            assert(total_order()(ranked(s)[i], ranked(s)[j]));
        }
    }
}

/// The absolute value of a finite number, counted in units of the smallest
/// positive one: eight bits of exponent over twenty-three bits of fraction, with
/// a hidden bit where the exponent is not zero.
pub open spec fn units(magnitude: int) -> int {
    let exponent = magnitude / 0x80_0000;
    let fraction = magnitude % 0x80_0000;
    if exponent == 0 {
        fraction
    } else {
        (0x80_0000 + fraction) * pow2((exponent - 1) as nat)
    }
}

/// The value of a finite number in the same units.
pub open spec fn value_of(a: Single) -> int {
    if a.bits / 0x8000_0000 == 1 {
        -units(a.bits as int % 0x8000_0000)
    } else {
        units(a.bits as int)
    }
}

proof fn units_grow(a: int, b: int)
    requires
        0 <= a < b,
    ensures
        0 <= units(a) < units(b),
{
    let (e, f) = (a / 0x80_0000, a % 0x80_0000);
    let (g, h) = (b / 0x80_0000, b % 0x80_0000);
    assert(e <= g);
    if e > 0 {
        lemma_pow2_pos((e - 1) as nat);
        let p = pow2((e - 1) as nat) as int;
        assert(0 <= (0x80_0000 + f) * p) by (nonlinear_arith)
            requires
                f >= 0,
                p > 0,
        ;
    }
    if g > 0 {
        lemma_pow2_pos((g - 1) as nat);
        let q = pow2((g - 1) as nat) as int;
        if e == 0 {
            assert(f < (0x80_0000 + h) * q) by (nonlinear_arith)
                requires
                    f < 0x80_0000,
                    h >= 0,
                    q >= 1,
            ;
        } else if e == g {
            assert((0x80_0000 + f) * q < (0x80_0000 + h) * q) by (nonlinear_arith)
                requires
                    f < h,
                    q >= 1,
            ;
        } else {
            let p = pow2((e - 1) as nat) as int;
            if e < g - 1 {
                lemma_pow2_strictly_increases(e as nat, (g - 1) as nat);
            }
            lemma_pow2_unfold(e as nat);
            assert(q >= 2 * p);
            assert((0x80_0000 + f) * p < (0x80_0000 + h) * q) by (nonlinear_arith)
                requires
                    0 <= f < 0x80_0000,
                    h >= 0,
                    p >= 1,
                    q >= 2 * p,
            ;
        }
    }
}

/// Encodings compare as the numbers that they stand for do; the two zeros are
/// equal. No NaN compares with anything, and an infinity lies beyond every
/// finite number.
pub proof fn encodings_compare_as_numbers(a: Single, b: Single)
    ensures
        a.finite() <==> a.bits / 0x80_0000 % 0x100 != 0xff,
        a.nan() <==> a.bits / 0x80_0000 % 0x100 == 0xff && a.bits % 0x80_0000 != 0,
        a.finite() && b.finite() ==> (a.below(b) <==> value_of(a) < value_of(b)),
        a.finite() && b.finite() ==> (a.at_most(b) <==> value_of(a) <= value_of(b)),
        a.nan() || b.nan() ==> !a.below(b) && !a.at_most(b),
        a.finite() ==> a.below(Single { bits: 0x7f80_0000 }) && (Single { bits: 0xff80_0000 }).below(
            a,
        ),
        a.finite() ==> a.unsigned().finite() && value_of(a.unsigned()) == if value_of(a) < 0 {
            -value_of(a)
        } else {
            value_of(a)
        },
{
    let x = a.magnitude();
    let y = b.magnitude();
    if x < y {
        units_grow(x, y);
    }
    if y < x {
        units_grow(y, x);
    }
    if x > 0 {
        units_grow(0, x);
    }
    if y > 0 {
        units_grow(0, y);
    }
}

/// The larger and the smaller of two numbers are those two numbers, one each
/// way, and bound both. A NaN gives way to a number.
pub proof fn larger_and_smaller_bound_both(a: Single, b: Single)
    requires
        !a.nan() || !b.nan(),
    ensures
        a.larger(b) == a || a.larger(b) == b,
        a.smaller(b) == a || a.smaller(b) == b,
        !a.larger(b).nan() && !a.smaller(b).nan(),
        !a.nan() ==> a.at_most(a.larger(b)) && a.smaller(b).at_most(a),
        !b.nan() ==> b.at_most(a.larger(b)) && a.smaller(b).at_most(b),
{
}

/// The total order agrees with the order of the numbers, and puts `-0.0` before
/// `0.0`, NaNs with a sign before all numbers and other NaNs after them.
pub proof fn total_order_extends_the_order(a: Single, b: Single)
    ensures
        a.below(b) ==> a.total_rank() < b.total_rank(),
        a.total_rank() < b.total_rank() && !a.nan() && !b.nan() ==> a.at_most(b),
        (Single { bits: 0x8000_0000 }).total_rank() < (Single { bits: 0 }).total_rank(),
        a.nan() && a.bits >= 0x8000_0000 && !b.nan() ==> a.total_rank() < b.total_rank(),
        a.nan() && a.bits < 0x8000_0000 && !b.nan() ==> b.total_rank() < a.total_rank(),
{
}

/// Leaving out what is not finite keeps every finite number, in order, and no
/// other.
pub proof fn finite_numbers_stay(s: Seq<Single>)
    ensures
        finite_only(s) == s.filter(|x: Single| x.finite()),
        finite_seq(finite_only(s)),
        finite_seq(s) ==> finite_only(s) == s,
    decreases s.len(),
{
    reveal(Seq::filter);
    if s.len() > 0 {
        let t = s.drop_last();
        finite_numbers_stay(t);
        assert(s =~= t.push(s.last()));
        if finite_seq(s) {
            assert(s[s.len() - 1].finite());
            assert forall|i: int| 0 <= i < t.len() implies (#[trigger] t[i]).finite() by {
                assert(s[i].finite());
            }
        }
        assert forall|i: int| 0 <= i < finite_only(s).len() implies (
        #[trigger] finite_only(s)[i]).finite() by {
            if i < finite_only(t).len() {
                assert(finite_only(t)[i].finite());
            }
        }
    } else {
        assert(s.filter(|x: Single| x.finite()) =~= Seq::<Single>::empty());
        assert(finite_only(s) =~= s);
    }
}

} // verus!
