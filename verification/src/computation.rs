//! What is worked out for one intersection before it is shaded: on which
//! side of the surface the ray runs, and which media it leaves and enters.

use vstd::prelude::*;
use crate::intersection::{
    Intersection, Intersections, crossings, hit_of, is_hit_at, lemma_hit_ignores_identities,
    lemma_hit_unique,
};
use crate::scalar::{Scalar, ONE_BITS};

verus! {

/// The medium on one side of a surface.
#[derive(Clone, Copy, Debug, PartialEq, Eq, Structural)]
pub enum Medium {
    /// Nothing was worked out, because the intersection is not in the list
    /// that was searched.
    Unset,
    /// Empty space: no shape contains the ray there.
    Vacuum,
    /// The inside of the shape with this identity.
    Shape(u128),
}

impl Medium {
    /// The refractive index of the medium: that of its shape, which
    /// `index_of` looks up by the identity of the shape, and one for empty
    /// space. A medium that was not worked out has the index zero.
    pub fn refractive_index<F: Fn(u128) -> Scalar>(self, index_of: F) -> (r: Scalar)
        requires
            self matches Medium::Shape(id) ==> call_requires(index_of, (id,)),
        ensures
            match self {
                Medium::Unset => r == (Scalar { bits: 0 }),
                Medium::Vacuum => r == (Scalar { bits: ONE_BITS }),
                Medium::Shape(id) => call_ensures(index_of, (id,), r),
            },
    {
        match self {
            Medium::Unset => Scalar::zero(),
            Medium::Vacuum => Scalar::one(),
            Medium::Shape(id) => index_of(id),
        }
    }
}

/// The state of one intersection, as far as it can be told without
/// arithmetic: the distance and the shape of the intersection itself, whether
/// the ray runs inside the shape, the medium it leaves (`n1`) and the medium
/// it enters (`n2`).
#[derive(Clone, Copy, Debug)]
pub struct Computation {
    pub t: Scalar,
    pub object: u128,
    pub inside: bool,
    pub n1: Medium,
    pub n2: Medium,
}

/// Whether `i` is the place of the first occurrence of `object` in `c`.
pub open spec fn first_occurrence(c: Seq<u128>, object: u128, i: int) -> bool {
    &&& 0 <= i < c.len()
    &&& c[i] == object
    &&& forall|j: int| 0 <= j < i ==> c[j] != object
}

/// The list of containing shapes after a crossing of `object`: a shape that
/// is in the list is left and taken out, one that is not is entered and put
/// at the end.
pub open spec fn toggle(c: Seq<u128>, object: u128) -> Seq<u128> {
    if exists|i: int| first_occurrence(c, object, i) {
        c.remove(choose|i: int| first_occurrence(c, object, i))
    } else {
        c.push(object)
    }
}

/// The shapes that contain the ray after it has passed the first `n`
/// intersections of `s`, in the order in which it entered them.
pub open spec fn containers(s: Seq<Intersection>, n: int) -> Seq<u128>
    decreases n,
{
    if n <= 0 {
        Seq::empty()
    } else {
        toggle(containers(s, n - 1), s[n - 1].object)
    }
}

/// The medium of a ray with these containing shapes: the inside of the one
/// entered last, or empty space where there is none.
pub open spec fn medium(c: Seq<u128>) -> Medium {
    if c.len() == 0 {
        Medium::Vacuum
    } else {
        Medium::Shape(c.last())
    }
}

/// Whether `k` is the place of the first item of `s` with identity `id`.
pub open spec fn first_with_id(s: Seq<Intersection>, id: u128, k: int) -> bool {
    &&& 0 <= k < s.len()
    &&& s[k].id == id
    &&& forall|j: int| 0 <= j < k ==> (#[trigger] s[j]).id != id
}

/// The media on both sides of the intersection with identity `id` in the
/// list `s`, which is taken to be in the order in which the ray meets its
/// items: the medium just before the intersection and the medium just after
/// it. Both are unset when `s` holds no such intersection.
pub open spec fn media_at(s: Seq<Intersection>, id: u128) -> (Medium, Medium) {
    if exists|k: int| first_with_id(s, id, k) {
        let k = choose|k: int| first_with_id(s, id, k);
        (medium(containers(s, k)), medium(containers(s, k + 1)))
    } else {
        (Medium::Unset, Medium::Unset)
    }
}

/// Whether no value occurs twice in `c`.
pub open spec fn distinct(c: Seq<u128>) -> bool {
    forall|i: int, j: int| 0 <= i < j < c.len() ==> c[i] != c[j]
}

/// Whether no two items of `s` share an identity.
pub open spec fn distinct_ids(s: Seq<Intersection>) -> bool {
    forall|i: int, j: int| 0 <= i < j < s.len() ==> (#[trigger] s[i]).id != (#[trigger] s[j]).id
}

/// A crossing keeps a list of containing shapes free of repetitions.
pub proof fn lemma_toggle_distinct(c: Seq<u128>, object: u128)
    requires
        distinct(c),
    ensures
        distinct(toggle(c, object)),
{
    if exists|i: int| first_occurrence(c, object, i) {
        let i = choose|i: int| first_occurrence(c, object, i);
        let out = c.remove(i);
        assert forall|a: int, b: int| 0 <= a < b < out.len() implies out[a] != out[b] by {
            let a0 = if a < i { a } else { a + 1 };
            let b0 = if b < i { b } else { b + 1 };
            assert(out[a] == c[a0]);
            assert(out[b] == c[b0]);
        }
    } else {
        let out = c.push(object);
        assert forall|a: int, b: int| 0 <= a < b < out.len() implies out[a] != out[b] by {
            if b == c.len() {
                if c[a] == object {
                    lemma_first_occurrence_exists(c, object, a);
                }
            }
        }
    }
}

/// A value that occurs in a list has a first occurrence there.
proof fn lemma_first_occurrence_exists(c: Seq<u128>, object: u128, at: int)
    requires
        0 <= at < c.len(),
        c[at] == object,
    ensures
        exists|i: int| first_occurrence(c, object, i),
    decreases at,
{
    if exists|j: int| 0 <= j < at && c[j] == object {
        let j = choose|j: int| 0 <= j < at && c[j] == object;
        lemma_first_occurrence_exists(c, object, j);
    } else {
        assert(first_occurrence(c, object, at));
    }
}

/// No shape is ever twice among the shapes that contain the ray.
pub proof fn lemma_containers_distinct(s: Seq<Intersection>, n: int)
    ensures
        distinct(containers(s, n)),
    decreases n,
{
    if n > 0 {
        lemma_containers_distinct(s, n - 1);
        lemma_toggle_distinct(containers(s, n - 1), s[n - 1].object);
    }
}

/// In a list without repeated identities, the media of the intersection at
/// place `k` are those of the containing shapes before and after it.
pub proof fn lemma_media_at_place(s: Seq<Intersection>, k: int)
    requires
        distinct_ids(s),
        0 <= k < s.len(),
    ensures
        media_at(s, s[k].id) == (medium(containers(s, k)), medium(containers(s, k + 1))),
{
    assert(first_with_id(s, s[k].id, k));
    let c = choose|c: int| first_with_id(s, s[k].id, c);
    assert(c == k);
}

/// Along a ray, the medium entered at one intersection is the medium left at
/// the next one.
pub proof fn lemma_media_continuous(s: Seq<Intersection>, k: int)
    requires
        distinct_ids(s),
        0 <= k,
        k + 1 < s.len(),
    ensures
        media_at(s, s[k].id).1 == media_at(s, s[k + 1].id).0,
{
    lemma_media_at_place(s, k);
    lemma_media_at_place(s, k + 1);
}

/// The first intersection of a ray is entered from empty space.
pub proof fn lemma_media_start_in_vacuum(s: Seq<Intersection>)
    requires
        distinct_ids(s),
        s.len() > 0,
    ensures
        media_at(s, s[0].id).0 == Medium::Vacuum,
        media_at(s, s[0].id).1 == Medium::Shape(s[0].object),
{
    lemma_media_at_place(s, 0);
    assert(containers(s, 0) == Seq::<u128>::empty());
    assert(containers(s, 1) == toggle(containers(s, 0), s[0].object));
    assert(!exists|i: int| first_occurrence(Seq::<u128>::empty(), s[0].object, i));
    assert(containers(s, 1) == Seq::<u128>::empty().push(s[0].object));
}

/// The containing shapes depend on the shapes that were crossed alone.
proof fn lemma_containers_by_objects(a: Seq<Intersection>, b: Seq<Intersection>, n: int)
    requires
        n <= a.len(),
        n <= b.len(),
        forall|i: int| 0 <= i < n ==> (#[trigger] a[i]).object == (#[trigger] b[i]).object,
    ensures
        containers(a, n) == containers(b, n),
    decreases n,
{
    if n > 0 {
        lemma_containers_by_objects(a, b, n - 1);
        assert(a[n - 1].object == b[n - 1].object);
    }
}

/// The media found for an intersection do not depend on the identities that
/// the intersections of the list happen to have: two lists that cross the
/// same shapes in the same order give the same media at every place, as long
/// as each list tells its own items apart.
pub proof fn lemma_media_ignore_identities(a: Seq<Intersection>, b: Seq<Intersection>, k: int)
    requires
        a.len() == b.len(),
        forall|i: int| 0 <= i < a.len() ==> (#[trigger] a[i]).object == (#[trigger] b[i]).object,
        distinct_ids(a),
        distinct_ids(b),
        0 <= k < a.len(),
    ensures
        media_at(a, a[k].id) == media_at(b, b[k].id),
{
    lemma_media_at_place(a, k);
    lemma_media_at_place(b, k);
    lemma_containers_by_objects(a, b, k);
    lemma_containers_by_objects(a, b, k + 1);
}

/// Tracing a ray again gives the same answers, though every intersection
/// draws a new identity: two lists that hold the same crossings and tell
/// their own items apart have their hit at the same crossing, and find the
/// same media around it.
pub proof fn lemma_decisions_ignore_identities(a: Seq<Intersection>, b: Seq<Intersection>)
    requires
        crossings(a) == crossings(b),
        distinct_ids(a),
        distinct_ids(b),
    ensures
        hit_of(a) is Some <==> hit_of(b) is Some,
        hit_of(a) is Some ==> hit_of(a)->0.t == hit_of(b)->0.t && hit_of(a)->0.object == hit_of(
            b,
        )->0.object && media_at(a, hit_of(a)->0.id) == media_at(b, hit_of(b)->0.id),
{
    assert(a.len() == b.len()) by {
        assert(crossings(a).len() == a.len());
        assert(crossings(b).len() == b.len());
    }
    assert forall|j: int| 0 <= j < a.len() implies (#[trigger] a[j]).object == (
    #[trigger] b[j]).object && a[j].t == b[j].t by {
        assert(crossings(a)[j] == (a[j].t, a[j].object));
        assert(crossings(b)[j] == (b[j].t, b[j].object));
    }
    if exists|k: int| is_hit_at(a, k) {
        let k = choose|k: int| is_hit_at(a, k);
        lemma_hit_ignores_identities(a, b, k);
        let kb = choose|kb: int| is_hit_at(b, kb);
        lemma_hit_unique(b, k, kb);
        lemma_media_ignore_identities(a, b, k);
    } else {
        assert forall|k: int| !is_hit_at(b, k) by {
            lemma_hit_ignores_identities(a, b, k);
        }
    }
}

impl Intersection {
    /// Works out the state of this intersection.
    ///
    /// `normal_dot_eye` is the product of the surface normal at the point of
    /// intersection and the direction towards the eye: the ray runs inside
    /// the shape when it is below zero. `xs` holds all intersections of the
    /// ray by ascending distance; the media are found by walking it up to
    /// this intersection, see [`media_at`].
    pub fn prepare_computation(&self, normal_dot_eye: Scalar, xs: &Intersections) -> (r:
        Computation)
        ensures
            r.t == self.t,
            r.object == self.object,
            r.inside == normal_dot_eye.lt(Scalar { bits: 0 }),
            (r.n1, r.n2) == media_at(xs@, self.id),
    {
        let inside: bool = normal_dot_eye.less_than(&Scalar::zero());
        let mut inside_of: Vec<u128> = Vec::new();
        let mut n1 = Medium::Unset;
        let mut n2 = Medium::Unset;
        let n: usize = xs.len();
        let mut i: usize = 0;
        while i < n
            invariant_except_break
                n1 == Medium::Unset,
                n2 == Medium::Unset,
                forall|j: int| 0 <= j < i ==> (#[trigger] xs@[j]).id != self.id,
                inside_of@ == containers(xs@, i as int),
            invariant
                n == xs@.len(),
                0 <= i <= n,
            ensures
                (n1, n2) == media_at(xs@, self.id),
            decreases n - i,
        {
            let item: Intersection = match xs.get(i) {
                Some(item) => *item,
                None => *self,
            };
            let found: bool = item.is(self);
            if found {
                n1 = last_medium(&inside_of);
            }
            toggle_in(&mut inside_of, item.object);
            if found {
                n2 = last_medium(&inside_of);
                proof {
                    assert(first_with_id(xs@, self.id, i as int));
                    let k = choose|k: int| first_with_id(xs@, self.id, k);
                    assert(k == i);
                }
                break;
            }
            i = i + 1;
        }
        Computation { t: self.t, object: self.object, inside, n1, n2 }
    }
}

/// The reflectance of a surface: the share of the light that it reflects,
/// the rest being refracted.
///
/// `n1` and `n2` are the refractive indices of the media that the ray
/// leaves and enters, and `sin2_t` is the squared sine of the angle of
/// refraction. Where the ray leaves the denser medium at so flat an angle
/// that `sin2_t` is above one, it is reflected whole and the reflectance is
/// exactly one. Otherwise it is what the approximation gives: `from_denser`
/// is its value taken with the cosine of the angle of refraction, which
/// counts where the ray leaves the denser medium, and `plain` its value
/// taken with the cosine of the angle of incidence, which counts
/// everywhere else.
pub fn schlick(n1: Scalar, n2: Scalar, sin2_t: Scalar, from_denser: Scalar, plain: Scalar) -> (r:
    Scalar)
    ensures
        r == if n2.lt(n1) && (Scalar { bits: ONE_BITS }).lt(sin2_t) {
            Scalar { bits: ONE_BITS }
        } else if n2.lt(n1) {
            from_denser
        } else {
            plain
        },
{
    if n1.greater_than(&n2) {
        if sin2_t.greater_than(&Scalar::one()) {
            return Scalar::one();
        }
        from_denser
    } else {
        plain
    }
}

/// The medium that a list of containing shapes stands for.
fn last_medium(inside_of: &Vec<u128>) -> (r: Medium)
    ensures
        r == medium(inside_of@),
{
    let n: usize = inside_of.len();
    if n == 0 {
        Medium::Vacuum
    } else {
        Medium::Shape(inside_of[n - 1])
    }
}

/// Takes `object` out of the list at its first occurrence, or puts it at the
/// end when the list does not hold it.
fn toggle_in(inside_of: &mut Vec<u128>, object: u128)
    ensures
        final(inside_of)@ == toggle(old(inside_of)@, object),
{
    let n: usize = inside_of.len();
    let mut i: usize = 0;
    while i < n
        invariant
            n == inside_of@.len(),
            inside_of@ == old(inside_of)@,
            0 <= i <= n,
            forall|j: int| 0 <= j < i ==> inside_of@[j] != object,
        decreases n - i,
    {
        if inside_of[i] == object {
            proof {
                assert(first_occurrence(inside_of@, object, i as int));
                let c = choose|c: int| first_occurrence(inside_of@, object, c);
                assert(c == i);
            }
            inside_of.remove(i);
            return ;
        }
        i = i + 1;
    }
    assert(!exists|c: int| first_occurrence(inside_of@, object, c));
    inside_of.push(object);
}

} // verus!
