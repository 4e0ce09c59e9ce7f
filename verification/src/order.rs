//! Ordering lists by a key, keeping equal entries in their order.

use vstd::prelude::*;
use vstd::seq_lib::{to_multiset_build, to_multiset_insert};

use crate::text::chars_of;

verus! {

/// `a` comes before `b` in dictionary order.
pub open spec fn precedes(a: Seq<int>, b: Seq<int>) -> bool
    decreases a.len(),
{
    if b.len() == 0 {
        false
    } else if a.len() == 0 {
        true
    } else if a[0] != b[0] {
        a[0] < b[0]
    } else {
        precedes(a.skip(1), b.skip(1))
    }
}

/// The characters of a text, as numbers.
pub open spec fn codes(s: Seq<char>) -> Seq<int> {
    Seq::new(s.len(), |i: int| s[i] as int)
}

/// Something that has a place in a list.
pub trait Keyed: Sized {
    spec fn key(&self) -> Seq<int>;

    /// Whether this entry's key comes before the other's.
    fn before(&self, other: &Self) -> (r: bool)
        ensures
            r == precedes(self.key(), other.key()),
    ;
}

/// Whether one text comes before another, character by character.
pub fn text_before(a: &str, b: &str) -> (r: bool)
    ensures
        r == precedes(codes(a@), codes(b@)),
{
    let x = chars_of(a);
    let y = chars_of(b);
    let mut i: usize = 0;
    proof {
        assert(codes(a@).skip(0) =~= codes(a@));
        assert(codes(b@).skip(0) =~= codes(b@));
    }
    loop
        invariant
            x@ == a@,
            y@ == b@,
            i <= x@.len(),
            i <= y@.len(),
            precedes(codes(a@), codes(b@)) == precedes(
                codes(a@).skip(i as int),
                codes(b@).skip(i as int),
            ),
        decreases x@.len() - i,
    {
        if i == y.len() {
            return false;
        }
        if i == x.len() {
            return true;
        }
        proof {
            assert(codes(a@).skip(i as int).skip(1) =~= codes(a@).skip(i + 1));
            assert(codes(b@).skip(i as int).skip(1) =~= codes(b@).skip(i + 1));
        }
        if x[i] != y[i] {
            return x[i] < y[i];
        }
        i += 1;
    }
}

/// How many leading entries of `s` an entry goes behind: those that it does not
/// come before.
pub open spec fn slot<T: Keyed>(s: Seq<T>, x: T) -> int
    decreases s.len(),
{
    if s.len() == 0 || !precedes(x.key(), s.last().key()) {
        s.len() as int
    } else {
        slot(s.drop_last(), x)
    }
}

/// The entries by ascending key; equal ones in the order in which they came.
pub open spec fn arranged<T: Keyed>(s: Seq<T>) -> Seq<T>
    decreases s.len(),
{
    if s.len() == 0 {
        Seq::empty()
    } else {
        let t = arranged(s.drop_last());
        t.insert(slot(t, s.last()), s.last())
    }
}

/// Put a list in order.
pub fn arrange<T: Keyed>(v: Vec<T>) -> (out: Vec<T>)
    ensures
        out@ == arranged(v@),
{
    let ghost all = v@;
    let mut rest: Vec<T> = v;
    let mut backwards: Vec<T> = Vec::new();
    let n: usize = rest.len();
    proof {
        assert(all.take(n as int) =~= all);
    }
    while rest.len() > 0
        invariant
            n == all.len(),
            rest@ == all.take(rest@.len() as int),
            rest@.len() + backwards@.len() == n,
            forall|i: int| 0 <= i < backwards@.len() ==> #[trigger] backwards@[i] == all[n - 1 - i],
        decreases rest@.len(),
    {
        let ghost before = rest@;
        match rest.pop() {
            Some(x) => {
                backwards.push(x);
                proof {
                    assert(rest@ =~= all.take(before.len() - 1));
                }
            },
            None => {},
        }
    }
    let mut out: Vec<T> = Vec::new();
    while backwards.len() > 0
        invariant
            n == all.len(),
            backwards@.len() <= n,
            forall|i: int| 0 <= i < backwards@.len() ==> #[trigger] backwards@[i] == all[n - 1 - i],
            out@ == arranged(all.take(n - backwards@.len())),
        decreases backwards@.len(),
    {
        let ghost k = n - backwards@.len();
        match backwards.pop() {
            Some(x) => {
                proof {
                    assert(all.take(k + 1).drop_last() =~= all.take(k));
                    assert(all.take(k + 1).last() == x);
                    assert(out@.take(out@.len() as int) =~= out@);
                }
                let mut p: usize = out.len();
                while p > 0 && x.before(&out[p - 1])
                    invariant
                        p <= out@.len(),
                        slot(out@, x) == slot(out@.take(p as int), x),
                    decreases p,
                {
                    proof {
                        assert(out@.take(p as int).drop_last() =~= out@.take(p - 1));
                    }
                    p -= 1;
                }
                proof {
                    assert(slot(out@.take(p as int), x) == p);
                }
                out.insert(p, x);
            },
            None => {},
        }
    }
    proof {
        assert(all.take(n as int) =~= all);
    }
    out
}

/// Dictionary order does not run both ways.
pub proof fn precedes_is_one_way(a: Seq<int>, b: Seq<int>)
    requires
        precedes(a, b),
    ensures
        !precedes(b, a),
    decreases a.len(),
{
    if a.len() > 0 && b.len() > 0 && a[0] == b[0] {
        precedes_is_one_way(a.skip(1), b.skip(1));
    }
}

/// What does not come before the second, and the second not before the third,
/// does not come before the third (read backwards).
pub proof fn precedes_carries_over(a: Seq<int>, b: Seq<int>, c: Seq<int>)
    requires
        !precedes(b, a),
        !precedes(c, b),
    ensures
        !precedes(c, a),
    decreases a.len(),
{
    if a.len() > 0 && b.len() > 0 && c.len() > 0 && a[0] == b[0] && b[0] == c[0] {
        precedes_carries_over(a.skip(1), b.skip(1), c.skip(1));
    }
}

proof fn slot_is_inside<T: Keyed>(s: Seq<T>, x: T)
    ensures
        0 <= slot(s, x) <= s.len(),
        forall|i: int| slot(s, x) <= i < s.len() ==> precedes(x.key(), (#[trigger] s[i]).key()),
        slot(s, x) > 0 ==> !precedes(x.key(), s[slot(s, x) - 1].key()),
    decreases s.len(),
{
    if s.len() > 0 && precedes(x.key(), s.last().key()) {
        let t = s.drop_last();
        slot_is_inside(t, x);
        assert forall|i: int| slot(s, x) <= i < s.len() implies precedes(
            x.key(),
            (#[trigger] s[i]).key(),
        ) by {
            if i < t.len() {
                assert(t[i] == s[i]);
            }
        }
    }
}

/// Putting a list in order keeps exactly its entries and leaves no entry before
/// one with a smaller key.
pub proof fn arranged_is_ordered<T: Keyed>(s: Seq<T>)
    ensures
        arranged(s).len() == s.len(),
        arranged(s).to_multiset() == s.to_multiset(),
        forall|i: int, j: int|
            0 <= i <= j < s.len() ==> !precedes(
                (#[trigger] arranged(s)[j]).key(),
                (#[trigger] arranged(s)[i]).key(),
            ),
    decreases s.len(),
{
    if s.len() == 0 {
        assert(s =~= Seq::<T>::empty());
    } else {
        let r = s.drop_last();
        let x = s.last();
        arranged_is_ordered(r);
        let t = arranged(r);
        let p = slot(t, x);
        slot_is_inside(t, x);
        assert(s =~= r.push(x));
        to_multiset_build(r, x);
        to_multiset_insert(t, p, x);
        let out = arranged(s);
        assert forall|i: int, j: int| 0 <= i <= j < s.len() implies !precedes(
            (#[trigger] out[j]).key(),
            (#[trigger] out[i]).key(),
        ) by {
            let a = if i < p {
                i
            } else {
                i - 1
            };
            let b = if j < p {
                j
            } else {
                j - 1
            };
            if i == j {
                if precedes(out[j].key(), out[i].key()) {
                    precedes_is_one_way(out[j].key(), out[i].key());
                }
            } else if i != p && j != p {
                assert(out[i] == t[a] && out[j] == t[b]);
                assert(!precedes(t[b].key(), t[a].key()));
            } else if j == p {
                assert(out[i] == t[i]);
                assert(!precedes(t[p - 1].key(), t[i].key()));
                precedes_carries_over(t[i].key(), t[p - 1].key(), x.key());
            } else {
                assert(out[j] == t[b]);
                precedes_is_one_way(x.key(), t[b].key());
            }
        }
    }
}

/// Dictionary order is decided where two keys first differ: by the smaller number
/// there, or by the key that ends there.
pub proof fn keys_are_compared_where_they_differ(a: Seq<int>, b: Seq<int>, k: int)
    requires
        0 <= k <= a.len(),
        k <= b.len(),
        a.take(k) == b.take(k),
        k < a.len() && k < b.len() ==> a[k] != b[k],
    ensures
        k < a.len() && k < b.len() ==> (precedes(a, b) <==> a[k] < b[k]),
        k == a.len() ==> (precedes(a, b) <==> k < b.len()),
        k == b.len() ==> !precedes(a, b),
    decreases k,
{
    if k > 0 {
        assert(a[0] == a.take(k)[0]);
        assert(b[0] == b.take(k)[0]);
        assert(a.skip(1).take(k - 1) =~= a.take(k).skip(1));
        assert(b.skip(1).take(k - 1) =~= b.take(k).skip(1));
        keys_are_compared_where_they_differ(a.skip(1), b.skip(1), k - 1);
    }
}

proof fn nothing_precedes_itself(a: Seq<int>)
    ensures
        !precedes(a, a),
    decreases a.len(),
{
    if a.len() > 0 {
        nothing_precedes_itself(a.skip(1));
    }
}

proof fn filter_of_none<T>(s: Seq<T>, f: spec_fn(T) -> bool)
    requires
        forall|i: int| 0 <= i < s.len() ==> !f(#[trigger] s[i]),
    ensures
        s.filter(f) == Seq::<T>::empty(),
    decreases s.len(),
{
    reveal(Seq::filter);
    if s.len() > 0 {
        filter_of_none(s.drop_last(), f);
        assert(!f(s[s.len() - 1]));
    }
}

proof fn filter_of_one<T>(x: T, f: spec_fn(T) -> bool)
    ensures
        seq![x].filter(f) == if f(x) {
            seq![x]
        } else {
            Seq::empty()
        },
{
    let one = seq![x];
    assert(one.drop_last() =~= Seq::<T>::empty());
    filter_of_none(one.drop_last(), f);
    assert(one.filter(f) =~= if f(x) {
        seq![x]
    } else {
        Seq::empty()
    }) by {
        reveal(Seq::filter);
    }
}

/// Putting a list in order keeps entries with the same key in the order in which
/// they came.
pub proof fn equal_keys_keep_their_order<T: Keyed>(s: Seq<T>, key: Seq<int>)
    ensures
        arranged(s).filter(|x: T| x.key() == key) == s.filter(|x: T| x.key() == key),
    decreases s.len(),
{
    let f = |x: T| x.key() == key;
    if s.len() == 0 {
        assert(arranged(s) =~= s);
    } else {
        let x = s.last();
        let t = arranged(s.drop_last());
        let p = slot(t, x);
        equal_keys_keep_their_order(s.drop_last(), key);
        slot_is_inside(t, x);
        let (front, back) = (t.take(p), t.skip(p));
        assert(t =~= front + back);
        assert(arranged(s) =~= front + (seq![x] + back));
        Seq::filter_distributes_over_add(front, back, f);
        Seq::filter_distributes_over_add(front, seq![x] + back, f);
        Seq::filter_distributes_over_add(seq![x], back, f);
        filter_of_one(x, f);
        assert(s =~= s.drop_last() + seq![x]);
        Seq::filter_distributes_over_add(s.drop_last(), seq![x], f);
        if f(x) {
            assert forall|i: int| 0 <= i < back.len() implies !f(#[trigger] back[i]) by {
                assert(precedes(x.key(), t[p + i].key()));
                nothing_precedes_itself(key);
            }
            filter_of_none(back, f);
            assert(arranged(s).filter(f) =~= s.filter(f));
        } else {
            assert(arranged(s).filter(f) =~= s.filter(f));
        }
    }
}

/// Texts are ordered by their first different character, and a text comes after
/// its beginnings.
pub proof fn texts_are_compared_where_they_differ(a: &str, b: &str, r: bool, k: int)
    requires
        call_ensures(text_before, (a, b), r),
        0 <= k <= a@.len(),
        k <= b@.len(),
        a@.take(k) == b@.take(k),
        k < a@.len() && k < b@.len() ==> a@[k] != b@[k],
    ensures
        k < a@.len() && k < b@.len() ==> (r <==> a@[k] < b@[k]),
        k == a@.len() ==> (r <==> k < b@.len()),
        k == b@.len() ==> !r,
{
    assert(codes(a@).take(k) =~= codes(a@.take(k)));
    assert(codes(b@).take(k) =~= codes(b@.take(k)));
    keys_are_compared_where_they_differ(codes(a@), codes(b@), k);
}

} // verus!
