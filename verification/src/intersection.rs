//! Intersections of one ray with the scene: the record, the list, its order
//! and the choice of the hit.

use vstd::prelude::*;
use crate::scalar::Scalar;

verus! {

/// Draws an identifier with `uuid::Uuid::new_v4` and hands it back as the
/// 128-bit integer that `Uuid::as_u128` gives. The draw is random, so the
/// contract promises nothing about the value: two calls may return anything,
/// equal values not excluded. (The bits that mark the version of the
/// identifier are fixed; nothing here reads them.)
#[verifier::external_body]
pub(crate) fn random_identity() -> u128 {
    uuid::Uuid::new_v4().as_u128()
}

/// One crossing of a ray and a surface.
///
/// `t` is the signed distance along the ray, `object` the identity of the
/// shape that was crossed, and `id` tells this record from every other one,
/// also from one with the same distance on the same shape.
#[derive(Clone, Copy, Debug)]
pub struct Intersection {
    pub id: u128,
    pub t: Scalar,
    pub object: u128,
}

impl Intersection {
    /// A record with a freshly drawn identity.
    pub fn new(t: Scalar, object: u128) -> (r: Intersection)
        ensures
            r.t == t,
            r.object == object,
    {
        Intersection::with_id(random_identity(), t, object)
    }

    /// A record with the identity the caller chose.
    pub fn with_id(id: u128, t: Scalar, object: u128) -> (r: Intersection)
        ensures
            r == (Intersection { id, t, object }),
    {
        Intersection { id, t, object }
    }

    /// Whether two records are the same crossing: they are when their
    /// identities agree, whatever else they hold.
    pub fn is(&self, other: &Intersection) -> (r: bool)
        ensures
            r == (self.id == other.id),
    {
        self.id == other.id
    }
}

/// What a list holds apart from the identities of its items: the distance
/// and the shape of each crossing, in order.
pub open spec fn crossings(s: Seq<Intersection>) -> Seq<(Scalar, u128)> {
    s.map_values(|x: Intersection| (x.t, x.object))
}

/// Whether the distances of `s` never decrease from one item to the next,
/// in the order of [`Scalar::sort_key`].
pub open spec fn ascending(s: Seq<Intersection>) -> bool {
    forall|i: int, j: int|
        0 <= i < j < s.len() ==> (#[trigger] s[i]).t.sort_key() <= (#[trigger] s[j]).t.sort_key()
}

/// The items of `s` whose distance has sort key `k`, in the order in which
/// `s` holds them.
pub open spec fn with_key(s: Seq<Intersection>, k: int) -> Seq<Intersection> {
    s.filter(|x: Intersection| x.t.sort_key() == k)
}

/// Whether `r` is `s` sorted by distance without reordering equals: `r` is
/// ascending, and for every key it holds the same items as `s` in the same
/// order.
pub open spec fn is_stable_sort_of(r: Seq<Intersection>, s: Seq<Intersection>) -> bool {
    &&& ascending(r)
    &&& forall|k: int| #[trigger] with_key(r, k) == with_key(s, k)
}

/// Whether `s[k]` is the hit of `s`: its distance is a number that is not
/// negative, no such distance in `s` is smaller, and every such distance
/// before it is larger.
pub open spec fn is_hit_at(s: Seq<Intersection>, k: int) -> bool {
    &&& 0 <= k < s.len()
    &&& s[k].t.non_negative()
    &&& forall|j: int|
        0 <= j < s.len() && (#[trigger] s[j]).t.non_negative() ==> s[k].t.rank() <= s[j].t.rank()
    &&& forall|j: int|
        0 <= j < k && (#[trigger] s[j]).t.non_negative() ==> s[k].t.rank() < s[j].t.rank()
}

/// Whether some distance in `s` is a number that is not negative.
pub open spec fn has_hit(s: Seq<Intersection>) -> bool {
    exists|j: int| 0 <= j < s.len() && (#[trigger] s[j]).t.non_negative()
}

/// The hit of `s`: the first of its items with the smallest distance that is
/// not negative, if there is one.
pub open spec fn hit_of(s: Seq<Intersection>) -> Option<Intersection> {
    if exists|k: int| is_hit_at(s, k) {
        Some(s[choose|k: int| is_hit_at(s, k)])
    } else {
        None
    }
}

/// A list has at most one hit position.
pub proof fn lemma_hit_unique(s: Seq<Intersection>, k1: int, k2: int)
    requires
        is_hit_at(s, k1),
        is_hit_at(s, k2),
    ensures
        k1 == k2,
{
}

/// Putting `x` into a stable sort of `s`, behind every item that does not
/// come after it, gives a stable sort of `s` with `x` added at its end.
proof fn lemma_insert_keeps_stable_sort(
    r: Seq<Intersection>,
    s: Seq<Intersection>,
    p: int,
    x: Intersection,
)
    requires
        is_stable_sort_of(r, s),
        0 <= p <= r.len(),
        forall|j: int| p <= j < r.len() ==> x.t.sort_key() < (#[trigger] r[j]).t.sort_key(),
        p > 0 ==> r[p - 1].t.sort_key() <= x.t.sort_key(),
    ensures
        is_stable_sort_of(r.insert(p, x), s.push(x)),
{
    let out = r.insert(p, x);
    let head = r.subrange(0, p);
    let tail = r.subrange(p, r.len() as int);
    assert(r == head + tail);
    assert(out == head + seq![x] + tail);
    assert forall|i: int, j: int| 0 <= i < j < out.len() implies (#[trigger] out[i]).t.sort_key()
        <= (#[trigger] out[j]).t.sort_key() by {
        if p > 0 {
            assert(r[p - 1].t.sort_key() <= x.t.sort_key());
        }
        if i < p && j > p {
            assert(out[i] == r[i]);
            assert(out[j] == r[j - 1]);
        } else if i < p && j == p {
            assert(out[i] == r[i]);
            if i < p - 1 {
                assert(r[i].t.sort_key() <= r[p - 1].t.sort_key());
            }
        } else if i < p {
            assert(out[i] == r[i]);
            assert(out[j] == r[j]);
        } else if i == p {
            assert(out[j] == r[j - 1]);
        } else {
            assert(out[i] == r[i - 1]);
            assert(out[j] == r[j - 1]);
        }
    }
    assert forall|k: int| #[trigger] with_key(out, k) == with_key(s.push(x), k) by {
        let pred = |y: Intersection| y.t.sort_key() == k;
        assert(with_key(r, k) == with_key(s, k));
        Seq::filter_distributes_over_add(head, tail, pred);
        Seq::filter_distributes_over_add(head, seq![x], pred);
        Seq::filter_distributes_over_add(head + seq![x], tail, pred);
        Seq::filter_distributes_over_add(s, seq![x], pred);
        assert(s.push(x) == s + seq![x]);
        reveal_with_fuel(Seq::filter, 2);
        assert(seq![x].drop_last() == Seq::<Intersection>::empty());
        if x.t.sort_key() == k {
            tail.lemma_all_neg_filter_empty(pred);
            assert(tail.filter(pred) == Seq::<Intersection>::empty());
            assert(seq![x].filter(pred) == seq![x]);
            assert(head.filter(pred) + tail.filter(pred) == head.filter(pred));
            assert(with_key(out, k) == head.filter(pred) + seq![x] + tail.filter(pred));
            assert(with_key(out, k) == with_key(r, k) + seq![x]);
        } else {
            assert(seq![x].filter(pred) == Seq::<Intersection>::empty());
            assert(head.filter(pred) + seq![x].filter(pred) == head.filter(pred));
            assert(s.filter(pred) + seq![x].filter(pred) == s.filter(pred));
        }
    }
}

/// The items with the key of the last item end with that item.
proof fn lemma_with_key_of_last(s: Seq<Intersection>)
    requires
        s.len() > 0,
    ensures
        with_key(s, s.last().t.sort_key()).len() > 0,
        with_key(s, s.last().t.sort_key()).last() == s.last(),
        with_key(s, s.last().t.sort_key()).drop_last() == with_key(
            s.drop_last(),
            s.last().t.sort_key(),
        ),
        forall|k: int|
            k != s.last().t.sort_key() ==> #[trigger] with_key(s, k) == with_key(s.drop_last(), k),
{
    reveal(Seq::filter);
    let m = s.last().t.sort_key();
    assert(with_key(s, m) == with_key(s.drop_last(), m).push(s.last()));
    assert(with_key(s, m).drop_last() =~= with_key(s.drop_last(), m));
}

/// An item with a given key is among the items with that key.
proof fn lemma_with_key_holds(s: Seq<Intersection>, i: int)
    requires
        0 <= i < s.len(),
    ensures
        with_key(s, s[i].t.sort_key()).contains(s[i]),
{
    let pred = |x: Intersection| x.t.sort_key() == s[i].t.sort_key();
    s.lemma_filter_contains(pred, i);
}

/// Every item among the items with a given key has that key and is an item
/// of the list.
proof fn lemma_with_key_from(s: Seq<Intersection>, k: int, x: Intersection)
    requires
        with_key(s, k).contains(x),
    ensures
        x.t.sort_key() == k,
        s.contains(x),
{
    let pred = |y: Intersection| y.t.sort_key() == k;
    s.lemma_filter_contains_rev(pred, x);
    let i = choose|i: int| 0 <= i < with_key(s, k).len() && with_key(s, k)[i] == x;
    s.lemma_filter_pred(pred, i);
}

/// Two ascending lists that hold, for every key, the same items in the
/// same order are the same list.
pub proof fn lemma_ascending_by_keys(a: Seq<Intersection>, b: Seq<Intersection>)
    requires
        ascending(a),
        ascending(b),
        forall|k: int| #[trigger] with_key(a, k) == with_key(b, k),
    ensures
        a == b,
    decreases a.len(),
{
    if a.len() == 0 {
        if b.len() > 0 {
            lemma_with_key_of_last(b);
            let k = b.last().t.sort_key();
            assert(with_key(a, k) == with_key(b, k));
            assert(with_key(a, k) =~= Seq::<Intersection>::empty()) by {
                reveal(Seq::filter);
            }
        }
        assert(a =~= b);
    } else {
        lemma_with_key_of_last(a);
        let ka = a.last().t.sort_key();
        assert(with_key(a, ka) == with_key(b, ka));
        if b.len() == 0 {
            assert(with_key(b, ka) =~= Seq::<Intersection>::empty()) by {
                reveal(Seq::filter);
            }
        }
        lemma_with_key_of_last(b);
        let kb = b.last().t.sort_key();
        assert(with_key(a, kb) == with_key(b, kb));
        // the largest key of either list occurs in the other one
        assert(ka == kb) by {
            let xa = with_key(b, ka).last();
            assert(with_key(b, ka).contains(xa)) by {
                assert(with_key(b, ka)[with_key(b, ka).len() - 1] == xa);
            }
            lemma_with_key_from(b, ka, xa);
            let ia = choose|i: int| 0 <= i < b.len() && b[i] == xa;
            assert(b[ia].t.sort_key() <= b[b.len() - 1].t.sort_key());
            let xb = with_key(a, kb).last();
            assert(with_key(a, kb).contains(xb)) by {
                assert(with_key(a, kb)[with_key(a, kb).len() - 1] == xb);
            }
            lemma_with_key_from(a, kb, xb);
            let ib = choose|i: int| 0 <= i < a.len() && a[i] == xb;
            assert(a[ib].t.sort_key() <= a[a.len() - 1].t.sort_key());
        }
        assert(a.last() == b.last());
        let a0 = a.drop_last();
        let b0 = b.drop_last();
        assert forall|k: int| #[trigger] with_key(a0, k) == with_key(b0, k) by {
            assert(with_key(a, k) == with_key(b, k));
        }
        assert(ascending(a0)) by {
            assert forall|i: int, j: int| 0 <= i < j < a0.len()
                implies (#[trigger] a0[i]).t.sort_key()
                <= (#[trigger] a0[j]).t.sort_key() by {
                assert(a0[i] == a[i] && a0[j] == a[j]);
            }
        }
        assert(ascending(b0)) by {
            assert forall|i: int, j: int| 0 <= i < j < b0.len()
                implies (#[trigger] b0[i]).t.sort_key()
                <= (#[trigger] b0[j]).t.sort_key() by {
                assert(b0[i] == b[i] && b0[j] == b[j]);
            }
        }
        lemma_ascending_by_keys(a0, b0);
        assert(a =~= a0.push(a.last()));
        assert(b =~= b0.push(b.last()));
    }
}

/// A list has one stable sort only: sorting the same list again gives the
/// same list, however the sorting is done.
pub proof fn lemma_stable_sort_unique(
    a: Seq<Intersection>,
    b: Seq<Intersection>,
    s: Seq<Intersection>,
)
    requires
        is_stable_sort_of(a, s),
        is_stable_sort_of(b, s),
    ensures
        a == b,
{
    assert forall|k: int| #[trigger] with_key(a, k) == with_key(b, k) by {
        assert(with_key(a, k) == with_key(s, k));
        assert(with_key(b, k) == with_key(s, k));
    }
    lemma_ascending_by_keys(a, b);
}

/// Whether `j` is the place of the first item of `s` with sort key `m`.
pub open spec fn first_with_key(s: Seq<Intersection>, m: int, j: int) -> bool {
    &&& 0 <= j < s.len()
    &&& s[j].t.sort_key() == m
    &&& forall|i: int| 0 <= i < j ==> (#[trigger] s[i]).t.sort_key() != m
}

/// Where some item has a given key, some item is the first to have it.
proof fn lemma_first_with_key_exists(s: Seq<Intersection>, m: int, at: int)
    requires
        0 <= at < s.len(),
        s[at].t.sort_key() == m,
    ensures
        exists|j: int| first_with_key(s, m, j),
    decreases at,
{
    if exists|i: int| 0 <= i < at && (#[trigger] s[i]).t.sort_key() == m {
        let i = choose|i: int| 0 <= i < at && (#[trigger] s[i]).t.sort_key() == m;
        lemma_first_with_key_exists(s, m, i);
    } else {
        assert(first_with_key(s, m, at));
    }
}

/// The items with a given key start with the first item of the list that
/// has the key.
proof fn lemma_with_key_starts(s: Seq<Intersection>, m: int, j: int)
    requires
        first_with_key(s, m, j),
    ensures
        with_key(s, m).len() > 0,
        with_key(s, m)[0] == s[j],
    decreases s.len(),
{
    reveal(Seq::filter);
    let pred = |x: Intersection| x.t.sort_key() == m;
    let rest = s.drop_last();
    if j == s.len() - 1 {
        assert forall|i: int| 0 <= i < rest.len() implies !pred(#[trigger] rest[i]) by {
            assert(rest[i] == s[i]);
        }
        rest.lemma_all_neg_filter_empty(pred);
        assert(with_key(s, m) == rest.filter(pred).push(s.last()));
    } else {
        assert(first_with_key(rest, m, j)) by {
            assert(rest[j] == s[j]);
            assert forall|i: int| 0 <= i < j implies (#[trigger] rest[i]).t.sort_key() != m by {
                assert(rest[i] == s[i]);
            }
        }
        lemma_with_key_starts(rest, m, j);
        assert(rest[j] == s[j]);
    }
}

/// Sorting does not change the hit: a list and its stable sort have the
/// same hit.
pub proof fn lemma_sort_keeps_hit(r: Seq<Intersection>, s: Seq<Intersection>)
    requires
        is_stable_sort_of(r, s),
    ensures
        hit_of(r) == hit_of(s),
{
    if exists|k: int| is_hit_at(s, k) {
        let k = choose|k: int| is_hit_at(s, k);
        let h = s[k];
        let m = h.t.sort_key();
        assert(m == h.t.rank());
        assert(first_with_key(s, m, k)) by {
            assert forall|i: int| 0 <= i < k implies (#[trigger] s[i]).t.sort_key() != m by {
                if s[i].t.sort_key() == m {
                    assert(s[i].t.non_negative());
                }
            }
        }
        lemma_with_key_starts(s, m, k);
        assert(with_key(r, m) == with_key(s, m));
        let w = with_key(r, m);
        assert(w.contains(h)) by {
            assert(w[0] == h);
        }
        lemma_with_key_from(r, m, h);
        let at = choose|i: int| 0 <= i < r.len() && r[i] == h;
        lemma_first_with_key_exists(r, m, at);
        let j = choose|j: int| first_with_key(r, m, j);
        lemma_with_key_starts(r, m, j);
        assert(r[j] == h);
        assert(is_hit_at(r, j)) by {
            assert forall|i: int| 0 <= i < r.len() && (#[trigger] r[i]).t.non_negative()
                implies h.t.rank()
                <= r[i].t.rank() by {
                lemma_with_key_holds(r, i);
                assert(with_key(r, r[i].t.sort_key()) == with_key(s, r[i].t.sort_key()));
                lemma_with_key_from(s, r[i].t.sort_key(), r[i]);
                let i0 = choose|i0: int| 0 <= i0 < s.len() && s[i0] == r[i];
                assert(s[i0].t.non_negative());
            }
            assert forall|i: int| 0 <= i < j && (#[trigger] r[i]).t.non_negative()
                implies h.t.rank()
                < r[i].t.rank() by {
                assert(r[i].t.sort_key() != m);
            }
        }
        let c = choose|c: int| is_hit_at(r, c);
        lemma_hit_unique(r, c, j);
    } else {
        assert forall|j: int| !is_hit_at(r, j) by {
            if is_hit_at(r, j) {
                lemma_with_key_holds(r, j);
                assert(with_key(r, r[j].t.sort_key()) == with_key(s, r[j].t.sort_key()));
                lemma_with_key_from(s, r[j].t.sort_key(), r[j]);
                let j0 = choose|j0: int| 0 <= j0 < s.len() && s[j0] == r[j];
                lemma_hit_exists(s, j0);
            }
        }
    }
}

/// A list with a distance that is not negative has a hit.
pub proof fn lemma_hit_exists(s: Seq<Intersection>, at: int)
    requires
        0 <= at < s.len(),
        s[at].t.non_negative(),
    ensures
        exists|k: int| is_hit_at(s, k),
    decreases s.len(),
{
    let rest = s.drop_last();
    let n = s.len() - 1;
    if exists|i: int| 0 <= i < n && (#[trigger] rest[i]).t.non_negative() {
        let i = choose|i: int| 0 <= i < n && (#[trigger] rest[i]).t.non_negative();
        lemma_hit_exists(rest, i);
        let k = choose|k: int| is_hit_at(rest, k);
        assert(rest[k] == s[k]);
        if s[n].t.non_negative() && s[n].t.rank() < s[k].t.rank() {
            assert(is_hit_at(s, n)) by {
                assert forall|j: int|
                    0 <= j < s.len() && (#[trigger] s[j]).t.non_negative() implies s[n].t.rank()
                    <= s[j].t.rank() by {
                    if j < n {
                        assert(rest[j] == s[j]);
                    }
                }
                assert forall|j: int| 0 <= j < n && (#[trigger] s[j]).t.non_negative()
                    implies s[n].t.rank()
                    < s[j].t.rank() by {
                    assert(rest[j] == s[j]);
                }
            }
        } else {
            assert(is_hit_at(s, k)) by {
                assert forall|j: int|
                    0 <= j < s.len() && (#[trigger] s[j]).t.non_negative() implies s[k].t.rank()
                    <= s[j].t.rank() by {
                    if j < n {
                        assert(rest[j] == s[j]);
                    }
                }
                assert forall|j: int| 0 <= j < k && (#[trigger] s[j]).t.non_negative()
                    implies s[k].t.rank()
                    < s[j].t.rank() by {
                    assert(rest[j] == s[j]);
                }
            }
        }
    } else {
        assert(at == n) by {
            if at < n {
                assert(rest[at] == s[at]);
            }
        }
        assert(is_hit_at(s, n)) by {
            assert forall|j: int| 0 <= j < n implies !(#[trigger] s[j]).t.non_negative() by {
                assert(rest[j] == s[j]);
            }
        }
    }
}

/// The place at which an item with sort key `key` goes into the ascending
/// list `r`: behind the last item that does not come after it.
pub open spec fn insertion_place(r: Seq<Intersection>, key: int) -> int
    decreases r.len(),
{
    if r.len() == 0 {
        0
    } else if r.last().t.sort_key() <= key {
        r.len() as int
    } else {
        insertion_place(r.drop_last(), key)
    }
}

/// The list sorted by distance without reordering equals: each item in
/// turn goes behind the items before it that do not come after it.
pub open spec fn stably_sorted(s: Seq<Intersection>) -> Seq<Intersection>
    decreases s.len(),
{
    if s.len() == 0 {
        s
    } else {
        let r = stably_sorted(s.drop_last());
        r.insert(insertion_place(r, s.last().t.sort_key()), s.last())
    }
}

/// The insertion place lies within the list, everything from it on comes
/// after the key, and what is just before it does not.
proof fn lemma_insertion_place(r: Seq<Intersection>, key: int)
    requires
        ascending(r),
    ensures
        0 <= insertion_place(r, key) <= r.len(),
        forall|j: int|
            insertion_place(r, key) <= j < r.len() ==> key < (#[trigger] r[j]).t.sort_key(),
        insertion_place(r, key) > 0 ==> r[insertion_place(r, key) - 1].t.sort_key() <= key,
    decreases r.len(),
{
    if r.len() > 0 && !(r.last().t.sort_key() <= key) {
        let rest = r.drop_last();
        assert(ascending(rest)) by {
            assert forall|i: int, j: int| 0 <= i < j < rest.len()
                implies (#[trigger] rest[i]).t.sort_key()
                <= (#[trigger] rest[j]).t.sort_key() by {
                assert(rest[i] == r[i] && rest[j] == r[j]);
            }
        }
        lemma_insertion_place(rest, key);
        let p = insertion_place(rest, key);
        assert forall|j: int| p <= j < r.len() implies key < (#[trigger] r[j]).t.sort_key() by {
            if j < rest.len() {
                assert(rest[j] == r[j]);
            }
        }
        if p > 0 {
            assert(rest[p - 1] == r[p - 1]);
        }
    }
}

/// What [`stably_sorted`] gives is the stable sort of the list.
pub proof fn lemma_stably_sorted(s: Seq<Intersection>)
    ensures
        is_stable_sort_of(stably_sorted(s), s),
        stably_sorted(s).len() == s.len(),
    decreases s.len(),
{
    if s.len() > 0 {
        let rest = s.drop_last();
        lemma_stably_sorted(rest);
        let r = stably_sorted(rest);
        let key = s.last().t.sort_key();
        lemma_insertion_place(r, key);
        lemma_insert_keeps_stable_sort(r, rest, insertion_place(r, key), s.last());
        assert(rest.push(s.last()) =~= s);
    }
}

/// Lists with the same distances at the same places have the same
/// insertion places.
proof fn lemma_insertion_place_by_distances(a: Seq<Intersection>, b: Seq<Intersection>, key: int)
    requires
        crossings(a) == crossings(b),
    ensures
        insertion_place(a, key) == insertion_place(b, key),
    decreases a.len(),
{
    assert(a.len() == b.len()) by {
        assert(crossings(a).len() == a.len());
        assert(crossings(b).len() == b.len());
    }
    if a.len() > 0 {
        let n = a.len() - 1;
        assert(crossings(a)[n] == (a[n].t, a[n].object));
        assert(crossings(b)[n] == (b[n].t, b[n].object));
        assert(crossings(a.drop_last()) =~= crossings(a).drop_last());
        assert(crossings(b.drop_last()) =~= crossings(b).drop_last());
        lemma_insertion_place_by_distances(a.drop_last(), b.drop_last(), key);
    }
}

/// Sorting looks at distances alone: two lists that hold the same
/// crossings, whatever the identities of their items, hold the same
/// crossings after they are sorted.
pub proof fn lemma_sort_ignores_identities(a: Seq<Intersection>, b: Seq<Intersection>)
    requires
        crossings(a) == crossings(b),
    ensures
        crossings(stably_sorted(a)) == crossings(stably_sorted(b)),
    decreases a.len(),
{
    assert(a.len() == b.len()) by {
        assert(crossings(a).len() == a.len());
        assert(crossings(b).len() == b.len());
    }
    if a.len() == 0 {
        assert(crossings(stably_sorted(a)) =~= crossings(stably_sorted(b)));
    } else {
        let n = a.len() - 1;
        assert(crossings(a)[n] == (a[n].t, a[n].object));
        assert(crossings(b)[n] == (b[n].t, b[n].object));
        assert(crossings(a.drop_last()) =~= crossings(a).drop_last());
        assert(crossings(b.drop_last()) =~= crossings(b).drop_last());
        lemma_sort_ignores_identities(a.drop_last(), b.drop_last());
        let ra = stably_sorted(a.drop_last());
        let rb = stably_sorted(b.drop_last());
        let key = a.last().t.sort_key();
        lemma_insertion_place_by_distances(ra, rb, key);
        lemma_stably_sorted(a.drop_last());
        lemma_insertion_place(ra, key);
        let p = insertion_place(ra, key);
        assert(crossings(ra.insert(p, a.last())) =~= crossings(ra).insert(
            p,
            (a.last().t, a.last().object),
        ));
        assert(crossings(rb.insert(p, b.last())) =~= crossings(rb).insert(
            p,
            (b.last().t, b.last().object),
        ));
    }
}

/// The hit is chosen by distances alone: two lists that hold the same
/// crossings have their hits at the same place.
pub proof fn lemma_hit_ignores_identities(a: Seq<Intersection>, b: Seq<Intersection>, k: int)
    requires
        crossings(a) == crossings(b),
    ensures
        is_hit_at(a, k) <==> is_hit_at(b, k),
{
    assert(a.len() == b.len()) by {
        assert(crossings(a).len() == a.len());
        assert(crossings(b).len() == b.len());
    }
    assert forall|j: int| 0 <= j < a.len() implies (#[trigger] a[j]).t == b[j].t by {
        assert(crossings(a)[j] == (a[j].t, a[j].object));
        assert(crossings(b)[j] == (b[j].t, b[j].object));
    }
    assert forall|j: int| 0 <= j < b.len() implies (#[trigger] b[j]).t == a[j].t by {
        assert(a[j].t == b[j].t);
    }
}

/// The intersections of one ray, in the order in which they were added or,
/// after [`Intersections::sort`], by ascending distance.
#[derive(Debug)]
pub struct Intersections {
    items: Vec<Intersection>,
}

impl View for Intersections {
    type V = Seq<Intersection>;

    closed spec fn view(&self) -> Seq<Intersection> {
        self.items@
    }
}

impl Intersections {
    /// The empty list.
    pub fn new() -> (r: Intersections)
        ensures
            r@ == Seq::<Intersection>::empty(),
    {
        Intersections { items: Vec::new() }
    }

    /// Adds one intersection at the end.
    pub fn push(&mut self, intersection: Intersection)
        ensures
            final(self)@ == old(self)@.push(intersection),
    {
        self.items.push(intersection)
    }

    /// The first item of the list.
    pub fn first(&self) -> (r: Option<&Intersection>)
        ensures
            self@.len() == 0 ==> r is None,
            self@.len() > 0 ==> r == Some(&self@[0]),
    {
        if self.items.len() > 0 {
            Some(&self.items[0])
        } else {
            None
        }
    }

    /// The last item of the list.
    pub fn last(&self) -> (r: Option<&Intersection>)
        ensures
            self@.len() == 0 ==> r is None,
            self@.len() > 0 ==> r == Some(&self@[self@.len() - 1]),
    {
        let n: usize = self.items.len();
        if n > 0 {
            Some(&self.items[n - 1])
        } else {
            None
        }
    }

    /// The number of items.
    pub fn len(&self) -> (r: usize)
        ensures
            r == self@.len(),
    {
        self.items.len()
    }

    /// The item at `index`, if the list is that long.
    pub fn get(&self, index: usize) -> (r: Option<&Intersection>)
        ensures
            index >= self@.len() ==> r is None,
            index < self@.len() ==> r == Some(&self@[index as int]),
    {
        if index < self.items.len() {
            Some(&self.items[index])
        } else {
            None
        }
    }

    /// Appends the items of `other`, in their order.
    pub fn merge(&mut self, other: Intersections)
        ensures
            final(self)@ == old(self)@ + other@,
    {
        let mut other = other;
        self.items.append(&mut other.items);
    }

    /// Sorts the list by ascending distance. Items with equal distances keep
    /// the order they had; distances that are not numbers go last.
    pub fn sort(&mut self)
        ensures
            final(self)@ == stably_sorted(old(self)@),
            is_stable_sort_of(final(self)@, old(self)@),
            final(self)@.len() == old(self)@.len(),
            final(self)@.to_multiset() == old(self)@.to_multiset(),
    {
        let n: usize = self.items.len();
        let mut sorted: Vec<Intersection> = Vec::new();
        let mut i: usize = 0;
        proof {
            let none = self.items@.subrange(0, 0);
            assert(none == Seq::<Intersection>::empty());
            assert(sorted@ == none);
        }
        while i < n
            invariant
                self.items@ == old(self).items@,
                n == self.items@.len(),
                0 <= i <= n,
                sorted@.len() == i,
                is_stable_sort_of(sorted@, self.items@.subrange(0, i as int)),
                sorted@.to_multiset() == self.items@.subrange(0, i as int).to_multiset(),
            decreases n - i,
        {
            let x: Intersection = self.items[i];
            let key: i128 = x.t.key();
            let mut p: usize = sorted.len();
            while p > 0 && key < sorted[p - 1].t.key()
                invariant
                    0 <= p <= sorted@.len(),
                    key == x.t.sort_key(),
                    forall|j: int| p <= j < sorted@.len()
                        ==> key < (#[trigger] sorted@[j]).t.sort_key(),
                decreases p,
            {
                p = p - 1;
            }
            proof {
                lemma_insert_keeps_stable_sort(
                    sorted@,
                    self.items@.subrange(0, i as int),
                    p as int,
                    x,
                );
                assert(self.items@.subrange(0, i as int).push(x) == self.items@.subrange(
                    0,
                    i + 1,
                ));
                vstd::seq_lib::to_multiset_insert(sorted@, p as int, x);
                self.items@.subrange(0, i as int).to_multiset_ensures();
            }
            sorted.insert(p, x);
            i = i + 1;
        }
        assert(self.items@.subrange(0, n as int) == self.items@);
        proof {
            lemma_stably_sorted(self.items@);
            lemma_stable_sort_unique(sorted@, stably_sorted(self.items@), self.items@);
        }
        self.items = sorted;
    }

    /// The position of the hit: see [`is_hit_at`].
    pub fn hit_index(&self) -> (r: Option<usize>)
        ensures
            r is None <==> !has_hit(self@),
            r matches Some(k) ==> is_hit_at(self@, k as int),
    {
        let n: usize = self.items.len();
        let mut best: Option<usize> = None;
        let mut i: usize = 0;
        while i < n
            invariant
                n == self.items@.len(),
                0 <= i <= n,
                best is None <==> !has_hit(self@.subrange(0, i as int)),
                best matches Some(k) ==> k < i && is_hit_at(self@.subrange(0, i as int), k as int),
            decreases n - i,
        {
            let ghost before = self@.subrange(0, i as int);
            let ghost after = self@.subrange(0, i + 1);
            proof {
                assert(forall|j: int| 0 <= j < i ==> before[j] == after[j]);
                assert(after[i as int] == self@[i as int]);
                if has_hit(before) {
                    let j = choose|j: int|
                        0 <= j < before.len() && (#[trigger] before[j]).t.non_negative();
                    assert(after[j].t.non_negative());
                }
                if has_hit(after) && !after[i as int].t.non_negative() {
                    let j = choose|j: int|
                        0 <= j < after.len() && (#[trigger] after[j]).t.non_negative();
                    assert(before[j].t.non_negative());
                }
            }
            let candidate = &self.items[i];
            if candidate.t.is_non_negative() {
                match best {
                    Some(k) => {
                        if candidate.t.less_than(&self.items[k].t) {
                            best = Some(i);
                        }
                    },
                    None => {
                        assert forall|j: int| 0 <= j < i
                            implies !(#[trigger] after[j]).t.non_negative() by {
                            assert(before[j] == after[j]);
                        }
                        best = Some(i);
                    },
                }
            }
            i = i + 1;
        }
        assert(self@.subrange(0, n as int) == self@);
        best
    }

    /// The hit: the first of the intersections with the smallest distance
    /// that is not negative, or nothing when every distance is negative or
    /// not a number.
    pub fn hit(&self) -> (r: Option<&Intersection>)
        ensures
            r is None <==> !has_hit(self@),
            r matches Some(h) ==> exists|k: int| is_hit_at(self@, k) && *h == self@[k],
            r == match hit_of(self@) {
                Some(h) => Some(&h),
                None => None,
            },
    {
        match self.hit_index() {
            Some(k) => {
                proof {
                    let c = choose|c: int| is_hit_at(self@, c);
                    lemma_hit_unique(self@, k as int, c);
                }
                Some(&self.items[k])
            },
            None => {
                assert forall|k: int| !is_hit_at(self@, k) by {
                    if is_hit_at(self@, k) {
                        assert(self@[k].t.non_negative());
                    }
                }
                None
            },
        }
    }
}

} // verus!
