//! The bounding-volume hierarchy: a binary tree over scene objects.

use vstd::prelude::*;
use vstd::seq_lib::{
    lemma_multiset_commutative, seq_to_set_distributes_over_add, to_multiset_contains,
    to_multiset_insert, to_multiset_remove,
};
use crate::aabb::{Aabb, spec_aabb_hit, spec_axis_interval, lemma_union_contains};
use crate::fixed::Fx;
use crate::hittable::{
    HitRecord, Hittable, spec_bounding_box, spec_bvh_hit, spec_hit, spec_wf,
};
use crate::hittable_list::HittableList;
use crate::interval::Interval;
use crate::ray::Ray;

verus! {

pub struct BvhNode {
    pub left: Box<Hittable>,
    pub right: Box<Hittable>,
    pub bbox: Aabb,
}

/// The set of objects a subtree stands for: tree nodes dissolve into their
/// children, anything else is an object in its own right.
pub open spec fn leaf_set(obj: Hittable) -> Set<Hittable>
    decreases obj,
{
    match obj {
        Hittable::Bvh(n) => leaf_set(*n.left).union(leaf_set(*n.right)),
        _ => set![obj],
    }
}

/// The leaves a subtree stands for, in left-to-right order: tree nodes
/// dissolve into their children, anything else is a leaf of its own, so
/// duplicates keep their multiplicity.
pub open spec fn leaf_seq(obj: Hittable) -> Seq<Hittable>
    decreases obj,
{
    match obj {
        Hittable::Bvh(n) => leaf_seq(*n.left) + leaf_seq(*n.right),
        _ => seq![obj],
    }
}

/// The union of the boxes of a sequence of objects from index `i` on.
pub open spec fn spec_boxes_union(s: Seq<Hittable>, i: int) -> crate::aabb::Aabb
    decreases s.len() - i,
{
    if i < 0 || i >= s.len() {
        crate::aabb::spec_empty_box()
    } else {
        crate::aabb::spec_box_union(spec_bounding_box(s[i]), spec_boxes_union(s, i + 1))
    }
}

/// A box whose upper faces are above the lower sentinel: every box the
/// library's constructors make is, since padding lifts a degenerate axis.
/// The empty-box sentinel and a raw lower-extreme face are excluded.
pub open spec fn finite_box(b: crate::aabb::Aabb) -> bool {
    &&& b.x.max.val() > -0x8000000000000000
    &&& b.y.max.val() > -0x8000000000000000
    &&& b.z.max.val() > -0x8000000000000000
}

/// A box whose faces do not reach past the sentinels; every folded union
/// is, whatever went in.
pub open spec fn tame_box(b: crate::aabb::Aabb) -> bool {
    &&& b.x.max.val() >= -0x7fffffffffffffff && b.x.min.val() <= 0x7fffffffffffffff
    &&& b.y.max.val() >= -0x7fffffffffffffff && b.y.min.val() <= 0x7fffffffffffffff
    &&& b.z.max.val() >= -0x7fffffffffffffff && b.z.min.val() <= 0x7fffffffffffffff
}

/// The box union is commutative.
proof fn lemma_union_comm(a: crate::aabb::Aabb, b: crate::aabb::Aabb)
    ensures
        crate::aabb::spec_box_union(a, b) == crate::aabb::spec_box_union(b, a),
{
}

/// The box union is associative.
proof fn lemma_union_assoc(a: crate::aabb::Aabb, b: crate::aabb::Aabb, c: crate::aabb::Aabb)
    ensures
        crate::aabb::spec_box_union(a, crate::aabb::spec_box_union(b, c))
            == crate::aabb::spec_box_union(crate::aabb::spec_box_union(a, b), c),
{
}

/// The empty box is an identity of the union on tame boxes.
proof fn lemma_union_empty(b: crate::aabb::Aabb)
    requires
        tame_box(b),
    ensures
        crate::aabb::spec_box_union(b, crate::aabb::spec_empty_box()) == b,
        crate::aabb::spec_box_union(crate::aabb::spec_empty_box(), b) == b,
{
}

/// Every folded union is tame.
proof fn lemma_fold_tame(s: Seq<Hittable>, i: int)
    ensures
        tame_box(spec_boxes_union(s, i)),
    decreases s.len() - i,
{
    if 0 <= i < s.len() {
        lemma_fold_tame(s, i + 1);
    }
}

/// Folding a suffix view equals folding the underlying sequence from the
/// shifted index.
proof fn lemma_fold_suffix(s: Seq<Hittable>, off: int, k: int)
    requires
        0 <= off <= s.len(),
        0 <= k,
    ensures
        spec_boxes_union(s.subrange(off, s.len() as int), k) == spec_boxes_union(s, off + k),
    decreases s.len() - off - k,
{
    let sub = s.subrange(off, s.len() as int);
    if k < sub.len() {
        assert(sub[k] == s[off + k]);
        lemma_fold_suffix(s, off, k + 1);
    }
}

/// Folding a concatenation splits into the union of the two folds.
proof fn lemma_fold_split_from(a: Seq<Hittable>, b: Seq<Hittable>, i: int)
    requires
        0 <= i <= a.len(),
    ensures
        spec_boxes_union(a + b, i) == crate::aabb::spec_box_union(
            spec_boxes_union(a, i),
            spec_boxes_union(b, 0),
        ),
    decreases a.len() - i,
{
    let s = a + b;
    if i == a.len() {
        assert(s.subrange(a.len() as int, s.len() as int) =~= b);
        lemma_fold_suffix(s, a.len() as int, 0);
        lemma_fold_tame(b, 0);
        lemma_union_empty(spec_boxes_union(b, 0));
    } else {
        assert(s[i] == a[i]);
        lemma_fold_split_from(a, b, i + 1);
        lemma_union_assoc(
            spec_bounding_box(a[i]),
            spec_boxes_union(a, i + 1),
            spec_boxes_union(b, 0),
        );
    }
}

/// Any element can be pulled to the front of a fold.
proof fn lemma_fold_pull(s: Seq<Hittable>, j: int)
    requires
        0 <= j < s.len(),
    ensures
        spec_boxes_union(s, 0) == crate::aabb::spec_box_union(
            spec_bounding_box(s[j]),
            spec_boxes_union(s.remove(j), 0),
        ),
    decreases j,
{
    let t = s.subrange(1, s.len() as int);
    lemma_fold_suffix(s, 1, 0);
    if j == 0 {
        assert(s.remove(0) =~= t);
    } else {
        lemma_fold_pull(t, j - 1);
        assert(t[j - 1] == s[j]);
        let u = s.remove(j);
        assert(u[0] == s[0]);
        assert(u.subrange(1, u.len() as int) =~= t.remove(j - 1)) by {
            assert forall|k: int| 0 <= k < u.len() - 1 implies u.subrange(1, u.len() as int)[k]
                == t.remove(j - 1)[k] by {
                if k < j - 1 {
                    assert(u[k + 1] == s[k + 1]);
                    assert(t.remove(j - 1)[k] == t[k]);
                    assert(t[k] == s[k + 1]);
                } else {
                    assert(u[k + 1] == s[k + 2]);
                    assert(t.remove(j - 1)[k] == t[k + 1]);
                    assert(t[k + 1] == s[k + 2]);
                }
            }
        }
        lemma_fold_suffix(u, 1, 0);
        let x = spec_bounding_box(s[j]);
        let b0 = spec_bounding_box(s[0]);
        let rest = spec_boxes_union(t.remove(j - 1), 0);
        assert(spec_boxes_union(s, 0) == crate::aabb::spec_box_union(
            b0,
            crate::aabb::spec_box_union(x, rest),
        ));
        lemma_union_assoc(b0, x, rest);
        lemma_union_comm(b0, x);
        lemma_union_assoc(x, b0, rest);
        assert(spec_boxes_union(u, 0) == crate::aabb::spec_box_union(b0, rest));
    }
}

/// Sequences with the same objects in any order fold to the same box.
proof fn lemma_fold_multiset(s1: Seq<Hittable>, s2: Seq<Hittable>)
    requires
        s1.to_multiset() == s2.to_multiset(),
    ensures
        spec_boxes_union(s1, 0) == spec_boxes_union(s2, 0),
    decreases s1.len(),
{
    vstd::seq_lib::to_multiset_len(s1);
    vstd::seq_lib::to_multiset_len(s2);
    if s1.len() > 0 {
        let x = s1[0];
        assert(s1.contains(x));
        to_multiset_contains(s1, x);
        to_multiset_contains(s2, x);
        assert(s2.contains(x));
        let j = choose|j: int| 0 <= j < s2.len() && s2[j] == x;
        lemma_fold_pull(s1, 0);
        lemma_fold_pull(s2, j);
        to_multiset_remove(s1, 0);
        to_multiset_remove(s2, j);
        lemma_fold_multiset(s1.remove(0), s2.remove(j));
    }
}

/// How a two-object node is ordered: the object with the smaller box key
/// along the longest axis of the pair's union box becomes the left child.
pub open spec fn spec_two_ordered(s: Seq<Hittable>, node: BvhNode) -> bool
    recommends
        s.len() == 2,
{
    let axis = crate::aabb::spec_longest_axis(spec_boxes_union(s, 0));
    if spec_key(s[0], axis) <= spec_key(s[1], axis) {
        *node.left == s[0] && *node.right == s[1]
    } else {
        *node.left == s[1] && *node.right == s[0]
    }
}

/// The sort key used while building: the low end of the object's box along
/// the chosen axis.
pub open spec fn spec_key(o: Hittable, axis: int) -> int {
    spec_axis_interval(spec_bounding_box(o), axis).min.val()
}

fn box_min_key(o: &Hittable, axis: usize) -> (k: i64)
    ensures
        k as int == spec_key(*o, axis as int),
{
    o.bounding_box().axis_interval(axis).min.raw
}

/// Equal multisets of objects have equal sets of objects.
proof fn lemma_multiset_eq_gives_set_eq(s1: Seq<Hittable>, s2: Seq<Hittable>)
    requires
        s1.to_multiset() == s2.to_multiset(),
    ensures
        s1.to_set() =~= s2.to_set(),
{
    assert forall|x: Hittable| s1.to_set().contains(x) implies s2.to_set().contains(x) by {
        to_multiset_contains(s1, x);
        to_multiset_contains(s2, x);
    }
    assert forall|x: Hittable| s2.to_set().contains(x) implies s1.to_set().contains(x) by {
        to_multiset_contains(s1, x);
        to_multiset_contains(s2, x);
    }
}

/// Membership carries over between sequences with equal multisets.
proof fn lemma_multiset_eq_gives_member(s1: Seq<Hittable>, s2: Seq<Hittable>, i: int)
    requires
        s1.to_multiset() == s2.to_multiset(),
        0 <= i < s2.len(),
    ensures
        s1.contains(s2[i]),
{
    assert(s2.contains(s2[i]));
    to_multiset_contains(s2, s2[i]);
    to_multiset_contains(s1, s2[i]);
}

/// Insertion sort of the whole vector by box key along an axis: the same
/// objects, ordered by key.
fn sort_by_key(v: &mut Vec<Hittable>, axis: usize)
    ensures
        final(v)@.len() == old(v)@.len(),
        final(v)@.to_multiset() == old(v)@.to_multiset(),
        forall|a: int, b: int|
            0 <= a <= b < final(v)@.len() ==> spec_key(final(v)@[a], axis as int) <= spec_key(
                final(v)@[b],
                axis as int,
            ),
{
    let n = v.len();
    if n <= 1 {
        return;
    }
    let mut i: usize = 1;
    while i < n
        invariant
            1 <= i <= n,
            v@.len() == n,
            v@.to_multiset() == old(v)@.to_multiset(),
            forall|a: int, b: int|
                0 <= a <= b < i ==> spec_key(v@[a], axis as int) <= spec_key(v@[b], axis as int),
        decreases n - i,
    {
        let ghost before = v@;
        let x = v.remove(i);
        proof {
            to_multiset_remove(before, i as int);
        }
        let kx = box_min_key(&x, axis);
        let mut j: usize = i;
        while j > 0 && box_min_key(&v[j - 1], axis) > kx
            invariant
                0 <= j <= i,
                1 <= i < n,
                v@.len() == n - 1,
                v@ == before.remove(i as int),
                kx as int == spec_key(x, axis as int),
                forall|a: int, b: int|
                    0 <= a <= b < i ==> spec_key(v@[a], axis as int) <= spec_key(
                        v@[b],
                        axis as int,
                    ),
                forall|m: int| j <= m < i ==> spec_key(v@[m], axis as int) > kx as int,
            decreases j,
        {
            j = j - 1;
        }
        let ghost removed = v@;
        v.insert(j, x);
        proof {
            to_multiset_insert(removed, j as int, x);
            assert(v@.to_multiset() == old(v)@.to_multiset()) by {
                assert(removed.to_multiset() == before.to_multiset().remove(before[i as int]));
                assert(before[i as int] == x);
                assert(v@.to_multiset() == removed.to_multiset().insert(x));
                assert(before.to_multiset().contains(x)) by {
                    assert(before.contains(x));
                    to_multiset_contains(before, x);
                }
                assert(before.to_multiset().remove(x).insert(x) =~= before.to_multiset());
            }
            assert forall|a: int, b: int| 0 <= a <= b < i + 1 implies spec_key(
                v@[a],
                axis as int,
            ) <= spec_key(v@[b], axis as int) by {
                assert(v@ == removed.insert(j as int, x));
                if a < j && b < j {
                    assert(v@[a] == removed[a] && v@[b] == removed[b]);
                } else if a < j && b == j {
                    assert(v@[a] == removed[a]);
                    assert(spec_key(removed[j - 1], axis as int) <= kx as int);
                    assert(spec_key(removed[a], axis as int) <= spec_key(
                        removed[j - 1],
                        axis as int,
                    ));
                } else if a < j && b > j {
                    assert(v@[a] == removed[a] && v@[b] == removed[b - 1]);
                } else if a == j && b == j {
                } else if a == j && b > j {
                    assert(v@[b] == removed[b - 1]);
                    assert(spec_key(removed[b - 1], axis as int) > kx as int);
                } else {
                    assert(v@[a] == removed[a - 1] && v@[b] == removed[b - 1]);
                }
            }
        }
        i = i + 1;
    }
}

/// The intersection parameter an object reports, if any.
pub open spec fn hit_t(obj: Hittable, r: Ray, lo: int, hi: int) -> Option<int> {
    match spec_hit(obj, r, lo, hi) {
        Option::Some(rec) => Option::Some(rec.t.val()),
        Option::None => Option::None,
    }
}

/// Every reported parameter lies in the query window and in the raw range.
pub open spec fn window_ok(o: Hittable) -> bool {
    forall|r: Ray, lo: int, hi: int|
        (#[trigger] hit_t(o, r, lo, hi) matches Option::Some(t) ==> lo <= t <= hi
            && -0x8000000000000000 < t < 0x8000000000000000)
}

/// Every reported parameter puts the ray's exact point inside the
/// object's own bounding box.
pub open spec fn covered_ok(o: Hittable) -> bool {
    forall|r: Ray, lo: int, hi: int|
        (#[trigger] hit_t(o, r, lo, hi) matches Option::Some(t)
            ==> crate::aabb::spec_point_in_box(spec_bounding_box(o), r, t))
}

/// Narrowing the window past a reported parameter keeps that parameter.
pub open spec fn narrow_ok(o: Hittable) -> bool {
    forall|r: Ray, lo: int, hi: int, hi2: int|
        #![trigger hit_t(o, r, lo, hi), hit_t(o, r, lo, hi2)]
        hi2 <= hi ==> (hit_t(o, r, lo, hi) matches Option::Some(t) ==> (t < hi2 ==> hit_t(
            o,
            r,
            lo,
            hi2,
        ) == Option::Some(t)))
}

/// Widening the window can only find the same or a closer parameter.
pub open spec fn grow_ok(o: Hittable) -> bool {
    forall|r: Ray, lo: int, hi: int, hi2: int|
        #![trigger hit_t(o, r, lo, hi), hit_t(o, r, lo, hi2)]
        hi2 <= hi ==> (hit_t(o, r, lo, hi2) matches Option::Some(t2) ==> (hit_t(o, r, lo, hi)
            matches Option::Some(t) && t <= t2))
}

/// The well-behavedness bundle the equivalence proof leans on.
pub open spec fn m_ok(o: Hittable) -> bool {
    window_ok(o) && covered_ok(o) && narrow_ok(o) && grow_ok(o)
}

/// `res` is the closest-hit answer over a set of objects, each queried on
/// the full window: `None` exactly when every object misses, and a value
/// that some object reports and no object beats.
pub open spec fn is_best(s: Set<Hittable>, r: Ray, lo: int, hi: int, res: Option<int>) -> bool {
    match res {
        Option::None => forall|o: Hittable|
            s.contains(o) ==> #[trigger] hit_t(o, r, lo, hi) is None,
        Option::Some(t) => (exists|o: Hittable|
            s.contains(o) && #[trigger] hit_t(o, r, lo, hi) == Option::Some(t)) && (forall|
            o: Hittable,
        |
            s.contains(o) ==> (#[trigger] hit_t(o, r, lo, hi) matches Option::Some(t2) ==> t
                <= t2)),
    }
}

/// The closest-hit answer over a set is unique.
pub proof fn lemma_best_unique(
    s: Set<Hittable>,
    r: Ray,
    lo: int,
    hi: int,
    res1: Option<int>,
    res2: Option<int>,
)
    requires
        is_best(s, r, lo, hi, res1),
        is_best(s, r, lo, hi, res2),
    ensures
        res1 == res2,
{
    match (res1, res2) {
        (Option::Some(t1), Option::Some(t2)) => {
            let o1 = choose|o: Hittable|
                s.contains(o) && #[trigger] hit_t(o, r, lo, hi) == Option::Some(t1);
            let o2 = choose|o: Hittable|
                s.contains(o) && #[trigger] hit_t(o, r, lo, hi) == Option::Some(t2);
            assert(t1 <= t2 && t2 <= t1);
        }
        (Option::Some(t1), Option::None) => {
            let o1 = choose|o: Hittable|
                s.contains(o) && #[trigger] hit_t(o, r, lo, hi) == Option::Some(t1);
            assert(hit_t(o1, r, lo, hi) is None);
        }
        (Option::None, Option::Some(t2)) => {
            let o2 = choose|o: Hittable|
                s.contains(o) && #[trigger] hit_t(o, r, lo, hi) == Option::Some(t2);
            assert(hit_t(o2, r, lo, hi) is None);
        }
        (Option::None, Option::None) => {}
    }
}

/// A sphere's quadratic intersection is well behaved: in-window, inside
/// its box, and monotone under window changes.
proof fn lemma_sphere_m(s: crate::sphere::Sphere)
    ensures
        m_ok(Hittable::Sphere(s)),
{
    let obj = Hittable::Sphere(s);
    assert forall|r: Ray, lo: int, hi: int|
        (#[trigger] hit_t(obj, r, lo, hi) matches Option::Some(t) ==> lo <= t <= hi
            && -0x8000000000000000 < t < 0x8000000000000000) by {}
    assert forall|r: Ray, lo: int, hi: int|
        (#[trigger] hit_t(obj, r, lo, hi) matches Option::Some(t)
            ==> crate::aabb::spec_point_in_box(spec_bounding_box(obj), r, t)) by {}
    assert forall|r: Ray, lo: int, hi: int, hi2: int|
        #![trigger hit_t(obj, r, lo, hi), hit_t(obj, r, lo, hi2)]
        hi2 <= hi implies ((hit_t(obj, r, lo, hi) matches Option::Some(t) ==> (t < hi2 ==> hit_t(
        obj,
        r,
        lo,
        hi2,
    ) == Option::Some(t))) && (hit_t(obj, r, lo, hi2) matches Option::Some(t2) ==> (hit_t(
        obj,
        r,
        lo,
        hi,
    ) matches Option::Some(t) && t <= t2))) by {
        let center = crate::sphere::spec_sphere_center(s, r.time.val());
        let oc = crate::vec3::v3_sub(center, r.orig);
        let a = crate::vec3::v3_length_squared(r.dir);
        let h = crate::vec3::v3_dot(r.dir, oc);
        let c = crate::fixed::fx_sub(
            crate::vec3::v3_length_squared(oc),
            crate::fixed::fx_mul(s.radius.val(), s.radius.val()),
        );
        let disc = crate::fixed::fx_sub(
            crate::fixed::fx_mul(h, h),
            crate::fixed::fx_mul(a, c),
        );
        if a != 0 && s.radius.val() != 0 && disc >= 0 {
            let sqrtd = crate::fixed::fx_sqrt(disc);
            crate::fixed::lemma_fx_sqrt_nonneg(disc);
            crate::fixed::lemma_fx_square_nonneg(r.dir.x.val());
            crate::fixed::lemma_fx_square_nonneg(r.dir.y.val());
            crate::fixed::lemma_fx_square_nonneg(r.dir.z.val());
            assert(a > 0);
            let n1 = crate::fixed::fx_sub(h, sqrtd);
            let n2 = crate::fixed::fx_add(h, sqrtd);
            assert(n1 <= n2);
            crate::fixed::lemma_tdiv_monotone(
                n1 * crate::fixed::FX_ONE as int,
                n2 * crate::fixed::FX_ONE as int,
                a,
            );
            assert(crate::fixed::fx_div(n1, a) <= crate::fixed::fx_div(n2, a));
        }
    }
}

/// A quad's single plane crossing is well behaved in the same ways.
proof fn lemma_quad_m(q: crate::quad::Quad)
    ensures
        m_ok(Hittable::Quad(q)),
{
    let obj = Hittable::Quad(q);
    assert forall|r: Ray, lo: int, hi: int|
        (#[trigger] hit_t(obj, r, lo, hi) matches Option::Some(t) ==> lo <= t <= hi
            && -0x8000000000000000 < t < 0x8000000000000000) by {}
    assert forall|r: Ray, lo: int, hi: int|
        (#[trigger] hit_t(obj, r, lo, hi) matches Option::Some(t)
            ==> crate::aabb::spec_point_in_box(spec_bounding_box(obj), r, t)) by {}
    assert forall|r: Ray, lo: int, hi: int, hi2: int|
        #![trigger hit_t(obj, r, lo, hi), hit_t(obj, r, lo, hi2)]
        hi2 <= hi implies ((hit_t(obj, r, lo, hi) matches Option::Some(t) ==> (t < hi2 ==> hit_t(
        obj,
        r,
        lo,
        hi2,
    ) == Option::Some(t))) && (hit_t(obj, r, lo, hi2) matches Option::Some(t2) ==> (hit_t(
        obj,
        r,
        lo,
        hi,
    ) matches Option::Some(t) && t <= t2))) by {}
}

/// Scenes of spheres, quads, lists and trees, with no transformed
/// wrappers. Saturating arithmetic can push a wrapped child's reported
/// point out of the wrapper's stored box on extreme queries, so the
/// equivalence theorem is stated for untransformed scenes.
pub open spec fn plain(obj: Hittable) -> bool
    decreases obj,
{
    match obj {
        Hittable::Sphere(_) => true,
        Hittable::Quad(_) => true,
        Hittable::List(l) => forall|i: int|
            0 <= i < l.objects@.len() ==> plain(#[trigger] l.objects@[i]),
        Hittable::Bvh(n) => plain(*n.left) && plain(*n.right),
        Hittable::Translate(_) => false,
        Hittable::RotateY(_) => false,
    }
}

/// Box containment is transitive.
proof fn lemma_box_trans(a: crate::aabb::Aabb, b: crate::aabb::Aabb, c: crate::aabb::Aabb)
    requires
        crate::aabb::box_contains_box(a, b),
        crate::aabb::box_contains_box(b, c),
    ensures
        crate::aabb::box_contains_box(a, c),
{
}

/// A member's box sits inside the list's reported union box.
proof fn lemma_list_box_contains(l: HittableList, i: int, j: int)
    requires
        0 <= i <= j < l.objects@.len(),
    ensures
        crate::aabb::box_contains_box(
            crate::hittable::spec_list_box(l, i),
            spec_bounding_box(l.objects@[j]),
        ),
    decreases j - i,
{
    crate::aabb::lemma_union_contains(
        spec_bounding_box(l.objects@[i]),
        crate::hittable::spec_list_box(l, i + 1),
    );
    if i < j {
        lemma_list_box_contains(l, i + 1, j);
        lemma_box_trans(
            crate::hittable::spec_list_box(l, i),
            crate::hittable::spec_list_box(l, i + 1),
            spec_bounding_box(l.objects@[j]),
        );
    }
}

/// The linear scan, from index `i` with an incoming best record, behaves
/// like a running minimum: the result stays in the window, never worsens
/// the best, undercuts every full-window report of the remaining members,
/// and its value is the incoming best's or some member's report.
proof fn lemma_list_fold(l: HittableList, i: int, r: Ray, lo: int, hi: int, best: Option<HitRecord>)
    requires
        0 <= i <= l.objects@.len(),
        forall|j: int| 0 <= j < l.objects@.len() ==> m_ok(#[trigger] l.objects@[j]),
        (best matches Option::Some(b) ==> lo <= b.t.val() <= hi && -0x8000000000000000
            < b.t.val() < 0x8000000000000000),
    ensures
        ({
            let res = crate::hittable::spec_list_hit_from(l, i, r, lo, hi, best);
            &&& (res matches Option::Some(rec) ==> lo <= rec.t.val() <= hi
                && -0x8000000000000000 < rec.t.val() < 0x8000000000000000)
            &&& (best matches Option::Some(b) ==> (res matches Option::Some(rec)
                && rec.t.val() <= b.t.val()))
            &&& (res is None ==> best is None && (forall|j: int|
                i <= j < l.objects@.len() ==> hit_t(#[trigger] l.objects@[j], r, lo, hi) is None))
            &&& (forall|j: int|
                i <= j < l.objects@.len() ==> (hit_t(#[trigger] l.objects@[j], r, lo, hi)
                    matches Option::Some(t) ==> (res matches Option::Some(rec) && rec.t.val()
                    <= t)))
            &&& (res matches Option::Some(rec) ==> ((best matches Option::Some(b) && b.t.val()
                == rec.t.val()) || (exists|j: int|
                i <= j < l.objects@.len() && #[trigger] hit_t(l.objects@[j], r, lo, hi)
                    == Option::Some(rec.t.val()))))
        }),
    decreases l.objects@.len() - i,
{
    let len = l.objects@.len() as int;
    let res = crate::hittable::spec_list_hit_from(l, i, r, lo, hi, best);
    if i >= len {
    } else {
        let cur = match best {
            Option::Some(b) => b.t.val(),
            Option::None => hi,
        };
        let obj_i = l.objects@[i];
        let child = spec_hit(obj_i, r, lo, cur);
        let child_t = hit_t(obj_i, r, lo, cur);
        let next = match child {
            Option::Some(c) => Option::Some(c),
            Option::None => best,
        };
        assert(m_ok(obj_i));
        lemma_list_fold(l, i + 1, r, lo, hi, next);
        // Minimality at index i against the full window.
        assert forall|j: int|
            i <= j < len implies (hit_t(#[trigger] l.objects@[j], r, lo, hi)
                matches Option::Some(t) ==> (res matches Option::Some(rec) && rec.t.val()
                <= t)) by {
            if j == i {
                if hit_t(obj_i, r, lo, hi) is Some {
                    let t = hit_t(obj_i, r, lo, hi)->Some_0;
                    if t < cur {
                        assert(hit_t(obj_i, r, lo, cur) == Option::Some(t));
                    } else {
                        if best is Some {
                        } else {
                            assert(cur == hi);
                            assert(t <= hi);
                            assert(hit_t(obj_i, r, lo, cur) == Option::Some(t));
                        }
                    }
                }
            }
        }
        // Existence for a freshly picked child.
        if res is Some {
            let rec = res->Some_0;
            if child is Some {
                let c = child->Some_0;
                if c.t.val() == rec.t.val() {
                    assert(child_t == Option::Some(c.t.val()));
                    assert(hit_t(obj_i, r, lo, hi) matches Option::Some(t3) && t3 <= c.t.val());
                    let t3 = hit_t(obj_i, r, lo, hi)->Some_0;
                    assert(rec.t.val() <= t3);
                    assert(hit_t(l.objects@[i], r, lo, hi) == Option::Some(rec.t.val()));
                }
            }
        }
    }
}

/// The list's answer is the closest hit over the set of its members.
proof fn lemma_list_best(l: HittableList)
    requires
        forall|j: int| 0 <= j < l.objects@.len() ==> m_ok(#[trigger] l.objects@[j]),
    ensures
        forall|r: Ray, lo: int, hi: int|
            is_best(l.objects@.to_set(), r, lo, hi, #[trigger] hit_t(
                Hittable::List(l),
                r,
                lo,
                hi,
            )),
{
    assert forall|r: Ray, lo: int, hi: int|
        is_best(l.objects@.to_set(), r, lo, hi, #[trigger] hit_t(
            Hittable::List(l),
            r,
            lo,
            hi,
        )) by {
        lemma_list_fold(l, 0, r, lo, hi, Option::None);
        let res = hit_t(Hittable::List(l), r, lo, hi);
        let s = l.objects@.to_set();
        match res {
            Option::None => {
                assert forall|o: Hittable| s.contains(o) implies #[trigger] hit_t(
                    o,
                    r,
                    lo,
                    hi,
                ) is None by {
                    let j = choose|j: int|
                        0 <= j < l.objects@.len() && l.objects@[j] == o;
                }
            }
            Option::Some(t) => {
                assert(exists|j: int|
                    0 <= j < l.objects@.len() && #[trigger] hit_t(l.objects@[j], r, lo, hi)
                        == Option::Some(t));
                let j = choose|j: int|
                    0 <= j < l.objects@.len() && #[trigger] hit_t(l.objects@[j], r, lo, hi)
                        == Option::Some(t);
                assert(s.contains(l.objects@[j]));
                assert forall|o: Hittable| s.contains(o) implies (#[trigger] hit_t(o, r, lo, hi)
                    matches Option::Some(t2) ==> t <= t2) by {
                    let k = choose|k: int|
                        0 <= k < l.objects@.len() && l.objects@[k] == o;
                }
            }
        }
    }
}

/// An object that answers the closest hit over a set of well-behaved
/// parts, each boxed inside it, is itself well behaved.
#[verifier::rlimit(100)]
#[verifier::spinoff_prover]
proof fn lemma_best_set_gives_m(o: Hittable, s: Set<Hittable>)
    requires
        forall|r: Ray, lo: int, hi: int|
            is_best(s, r, lo, hi, #[trigger] hit_t(o, r, lo, hi)),
        forall|x: Hittable| s.contains(x) ==> m_ok(x),
        forall|x: Hittable|
            s.contains(x) ==> crate::aabb::box_contains_box(
                spec_bounding_box(o),
                #[trigger] spec_bounding_box(x),
            ),
    ensures
        m_ok(o),
{
    assert forall|r: Ray, lo: int, hi: int|
        (#[trigger] hit_t(o, r, lo, hi) matches Option::Some(t) ==> lo <= t <= hi
            && -0x8000000000000000 < t < 0x8000000000000000 && crate::aabb::spec_point_in_box(
            spec_bounding_box(o),
            r,
            t,
        )) by {
        let res = hit_t(o, r, lo, hi);
        assert(is_best(s, r, lo, hi, res));
        if res is Some {
            let t = res->Some_0;
            assert(exists|x: Hittable|
                s.contains(x) && #[trigger] hit_t(x, r, lo, hi) == Option::Some(t));
            let w = choose|x: Hittable|
                s.contains(x) && #[trigger] hit_t(x, r, lo, hi) == Option::Some(t);
            assert(m_ok(w));
            assert(hit_t(w, r, lo, hi) == Option::Some(t));
            assert(lo <= t <= hi && -0x8000000000000000 < t < 0x8000000000000000);
            assert(crate::aabb::spec_point_in_box(spec_bounding_box(w), r, t));
            crate::aabb::lemma_point_in_larger_box(
                spec_bounding_box(o),
                spec_bounding_box(w),
                r,
                t,
            );
        }
    }
    assert forall|r: Ray, lo: int, hi: int, hi2: int|
        #![trigger hit_t(o, r, lo, hi), hit_t(o, r, lo, hi2)]
        hi2 <= hi implies ((hit_t(o, r, lo, hi) matches Option::Some(t) ==> (t < hi2 ==> hit_t(
        o,
        r,
        lo,
        hi2,
    ) == Option::Some(t))) && (hit_t(o, r, lo, hi2) matches Option::Some(t2) ==> (hit_t(
        o,
        r,
        lo,
        hi,
    ) matches Option::Some(tw) && tw <= t2))) by {
        if hit_t(o, r, lo, hi) is Some {
            let t = hit_t(o, r, lo, hi)->Some_0;
            if t < hi2 {
                // The same value is best over the narrowed window.
                let w = choose|x: Hittable|
                    s.contains(x) && #[trigger] hit_t(x, r, lo, hi) == Option::Some(t);
                assert(m_ok(w));
                assert(hit_t(w, r, lo, hi2) == Option::Some(t));
                assert forall|x: Hittable| s.contains(x) implies (#[trigger] hit_t(x, r, lo, hi2)
                    matches Option::Some(t2) ==> t <= t2) by {
                    if hit_t(x, r, lo, hi2) is Some {
                        let t2 = hit_t(x, r, lo, hi2)->Some_0;
                        assert(m_ok(x));
                        assert(hit_t(x, r, lo, hi) matches Option::Some(t3) && t3 <= t2);
                    }
                }
                assert(is_best(s, r, lo, hi2, Option::Some(t)));
                lemma_best_unique(s, r, lo, hi2, Option::Some(t), hit_t(o, r, lo, hi2));
            }
        }
        if hit_t(o, r, lo, hi2) is Some {
            let t2 = hit_t(o, r, lo, hi2)->Some_0;
            let w = choose|x: Hittable|
                s.contains(x) && #[trigger] hit_t(x, r, lo, hi2) == Option::Some(t2);
            assert(m_ok(w));
            assert(hit_t(w, r, lo, hi) matches Option::Some(t3) && t3 <= t2);
            let t3 = hit_t(w, r, lo, hi)->Some_0;
            if hit_t(o, r, lo, hi) is None {
                assert(hit_t(w, r, lo, hi) is None);
                assert(false);
            }
            let tw = hit_t(o, r, lo, hi)->Some_0;
            assert(tw <= t3);
        }
    }
}

/// An object that is not a tree node stands for itself alone: the
/// closest-hit characterization and the box facts are immediate.
proof fn lemma_self_best(obj: Hittable)
    requires
        m_ok(obj),
        !(obj is Bvh),
    ensures
        tree_best(obj),
        leaf_boxes_in(obj),
        forall|o: Hittable| leaf_set(obj).contains(o) ==> m_ok(o),
{
    assert(leaf_set(obj) =~= set![obj]);
    assert forall|r: Ray, lo: int, hi: int|
        is_best(leaf_set(obj), r, lo, hi, #[trigger] hit_t(obj, r, lo, hi)) by {
        let res = hit_t(obj, r, lo, hi);
        if res is Some {
            let t = res->Some_0;
            assert(leaf_set(obj).contains(obj) && hit_t(obj, r, lo, hi) == Option::Some(t));
        }
    }
}

/// Every leaf's box sits inside the tree's own box.
pub open spec fn leaf_boxes_in(obj: Hittable) -> bool {
    forall|o: Hittable|
        leaf_set(obj).contains(o) ==> crate::aabb::box_contains_box(
            spec_bounding_box(obj),
            #[trigger] spec_bounding_box(o),
        )
}

/// The whole tree answers the closest hit over its leaves, on every query.
pub open spec fn tree_best(obj: Hittable) -> bool {
    forall|r: Ray, lo: int, hi: int|
        is_best(leaf_set(obj), r, lo, hi, #[trigger] hit_t(obj, r, lo, hi))
}

/// The structural induction behind the equivalence theorem: every
/// well-formed untransformed object is well behaved, its parts are, its
/// parts' boxes nest, and a tree answers the closest hit over its leaves.
#[verifier::rlimit(100)]
pub proof fn lemma_hit_props(obj: Hittable)
    requires
        spec_wf(obj),
        plain(obj),
    ensures
        m_ok(obj),
        forall|o: Hittable| leaf_set(obj).contains(o) ==> m_ok(o),
        leaf_boxes_in(obj),
        tree_best(obj),
    decreases obj,
{
    match obj {
        Hittable::Sphere(s) => {
            lemma_sphere_m(s);
            lemma_self_best(obj);
        }
        Hittable::Quad(q) => {
            lemma_quad_m(q);
            lemma_self_best(obj);
        }
        Hittable::List(l) => {
            assert forall|j: int| 0 <= j < l.objects@.len() implies m_ok(
                #[trigger] l.objects@[j],
            ) by {
                lemma_hit_props(l.objects@[j]);
            }
            lemma_list_best(l);
            assert forall|x: Hittable| l.objects@.to_set().contains(x)
                implies crate::aabb::box_contains_box(
                spec_bounding_box(obj),
                #[trigger] spec_bounding_box(x),
            ) by {
                let j = choose|j: int| 0 <= j < l.objects@.len() && l.objects@[j] == x;
                lemma_list_box_contains(l, 0, j);
            }
            lemma_best_set_gives_m(obj, l.objects@.to_set());
            lemma_self_best(obj);
        }
        Hittable::Bvh(n) => {
            lemma_hit_props(*n.left);
            lemma_hit_props(*n.right);
            let bl = leaf_set(*n.left);
            let br = leaf_set(*n.right);
            assert(leaf_set(obj) =~= bl.union(br));
            assert forall|o: Hittable| leaf_set(obj).contains(o) implies m_ok(o) by {
                assert(bl.contains(o) || br.contains(o));
            }
            assert forall|o: Hittable| leaf_set(obj).contains(o)
                implies crate::aabb::box_contains_box(
                spec_bounding_box(obj),
                #[trigger] spec_bounding_box(o),
            ) by {
                if bl.contains(o) {
                    lemma_box_trans(n.bbox, spec_bounding_box(*n.left), spec_bounding_box(o));
                } else {
                    lemma_box_trans(n.bbox, spec_bounding_box(*n.right), spec_bounding_box(o));
                }
            }
            assert forall|r: Ray, lo: int, hi: int|
                is_best(leaf_set(obj), r, lo, hi, #[trigger] hit_t(obj, r, lo, hi)) by {
                lemma_bvh_node_best(n, r, lo, hi);
            }
            lemma_best_set_gives_m(obj, leaf_set(obj));
        }
        Hittable::Translate(_) => {
            assert(false);
        }
        Hittable::RotateY(_) => {
            assert(false);
        }
    }
}

/// Combining closest hits when both sides report: the right side, asked
/// over the window narrowed to the left's parameter, wins.
#[verifier::spinoff_prover]
proof fn lemma_combine_both(
    bl: Set<Hittable>,
    br: Set<Hittable>,
    r: Ray,
    lo: int,
    hi: int,
    lt: int,
    rt: int,
)
    requires
        is_best(bl, r, lo, hi, Option::Some(lt)),
        is_best(br, r, lo, lt, Option::Some(rt)),
        forall|o: Hittable| br.contains(o) ==> m_ok(o),
        lo <= rt <= lt,
        lt <= hi,
    ensures
        is_best(bl.union(br), r, lo, hi, Option::Some(rt)),
{
    let ls = bl.union(br);
    assert forall|o: Hittable| ls.contains(o) implies (#[trigger] hit_t(o, r, lo, hi)
        matches Option::Some(t) ==> rt <= t) by {
        if hit_t(o, r, lo, hi) is Some {
            let t = hit_t(o, r, lo, hi)->Some_0;
            if bl.contains(o) {
                assert(lt <= t);
            } else {
                assert(br.contains(o));
                assert(m_ok(o));
                if t < lt {
                    assert(hit_t(o, r, lo, lt) == Option::Some(t));
                    assert(rt <= t);
                } else {
                    assert(rt <= lt <= t);
                }
            }
        }
    }
    let wr = choose|x: Hittable|
        br.contains(x) && #[trigger] hit_t(x, r, lo, lt) == Option::Some(rt);
    assert(m_ok(wr));
    assert(hit_t(wr, r, lo, hi) matches Option::Some(t3) && t3 <= rt);
    let t3 = hit_t(wr, r, lo, hi)->Some_0;
    assert(ls.contains(wr));
    assert(rt <= t3);
    assert(hit_t(wr, r, lo, hi) == Option::Some(rt));
}

/// Combining closest hits when only the left side reports: nothing on the
/// right beats it within the narrowed window, so the left answer stands.
#[verifier::spinoff_prover]
proof fn lemma_combine_left(
    bl: Set<Hittable>,
    br: Set<Hittable>,
    r: Ray,
    lo: int,
    hi: int,
    lt: int,
)
    requires
        is_best(bl, r, lo, hi, Option::Some(lt)),
        is_best(br, r, lo, lt, Option::None),
        forall|o: Hittable| br.contains(o) ==> m_ok(o),
    ensures
        is_best(bl.union(br), r, lo, hi, Option::Some(lt)),
{
    let ls = bl.union(br);
    assert forall|o: Hittable| ls.contains(o) implies (#[trigger] hit_t(o, r, lo, hi)
        matches Option::Some(t) ==> lt <= t) by {
        if hit_t(o, r, lo, hi) is Some {
            let t = hit_t(o, r, lo, hi)->Some_0;
            if bl.contains(o) {
            } else {
                assert(br.contains(o));
                assert(m_ok(o));
                if t < lt {
                    assert(hit_t(o, r, lo, lt) == Option::Some(t));
                    assert(hit_t(o, r, lo, lt) is None);
                    assert(false);
                }
            }
        }
    }
    let wl = choose|x: Hittable|
        bl.contains(x) && #[trigger] hit_t(x, r, lo, hi) == Option::Some(lt);
    assert(ls.contains(wl));
}

/// Combining closest hits when the left side misses entirely: the right
/// side's full-window answer is the node's answer.
#[verifier::spinoff_prover]
proof fn lemma_combine_right(
    bl: Set<Hittable>,
    br: Set<Hittable>,
    r: Ray,
    lo: int,
    hi: int,
    res: Option<int>,
)
    requires
        is_best(bl, r, lo, hi, Option::None),
        is_best(br, r, lo, hi, res),
    ensures
        is_best(bl.union(br), r, lo, hi, res),
{
    let ls = bl.union(br);
    match res {
        Option::None => {
            assert forall|o: Hittable| ls.contains(o) implies #[trigger] hit_t(o, r, lo, hi)
                is None by {
                assert(bl.contains(o) || br.contains(o));
            }
        }
        Option::Some(rt) => {
            assert forall|o: Hittable| ls.contains(o) implies (#[trigger] hit_t(o, r, lo, hi)
                matches Option::Some(t) ==> rt <= t) by {
                if bl.contains(o) {
                    assert(hit_t(o, r, lo, hi) is None);
                }
            }
            let wr = choose|x: Hittable|
                br.contains(x) && #[trigger] hit_t(x, r, lo, hi) == Option::Some(rt);
            assert(ls.contains(wr));
        }
    }
}

/// One tree node's query is the closest hit over its leaves, given
/// well-behaved children that answer best over their own leaves.
#[verifier::rlimit(100)]
#[verifier::spinoff_prover]
proof fn lemma_bvh_node_best(n: BvhNode, r: Ray, lo: int, hi: int)
    requires
        spec_wf(Hittable::Bvh(n)),
        tree_best(*n.left),
        tree_best(*n.right),
        leaf_boxes_in(Hittable::Bvh(n)),
        forall|o: Hittable| leaf_set(Hittable::Bvh(n)).contains(o) ==> m_ok(o),
    ensures
        is_best(leaf_set(Hittable::Bvh(n)), r, lo, hi, hit_t(Hittable::Bvh(n), r, lo, hi)),
{
    let obj = Hittable::Bvh(n);
    let ls = leaf_set(obj);
    let bl = leaf_set(*n.left);
    let br = leaf_set(*n.right);
    assert(ls =~= bl.union(br));
    if !crate::aabb::spec_aabb_hit(n.bbox, r, lo, hi) {
        assert(hit_t(obj, r, lo, hi) is None);
        assert forall|o: Hittable| ls.contains(o) implies #[trigger] hit_t(o, r, lo, hi)
            is None by {
            if hit_t(o, r, lo, hi) is Some {
                let t = hit_t(o, r, lo, hi)->Some_0;
                assert(m_ok(o));
                assert(lo <= t <= hi && -0x8000000000000000 < t < 0x8000000000000000);
                assert(crate::aabb::spec_point_in_box(spec_bounding_box(o), r, t));
                crate::aabb::lemma_point_in_larger_box(n.bbox, spec_bounding_box(o), r, t);
                crate::aabb::lemma_aabb_hit_complete(n.bbox, r, lo, hi, t);
                assert(false);
            }
        }
    } else {
        let lrec = spec_hit(*n.left, r, lo, hi);
        assert(is_best(bl, r, lo, hi, hit_t(*n.left, r, lo, hi)));
        if lrec is Some {
            let lt = lrec->Some_0.t.val();
            assert(hit_t(*n.left, r, lo, hi) == Option::Some(lt));
            let rrec = spec_hit(*n.right, r, lo, lt);
            assert(is_best(br, r, lo, lt, hit_t(*n.right, r, lo, lt)));
            if rrec is Some {
                let rt = rrec->Some_0.t.val();
                assert(hit_t(obj, r, lo, hi) == Option::Some(rt));
                let wl = choose|x: Hittable|
                    bl.contains(x) && #[trigger] hit_t(x, r, lo, hi) == Option::Some(lt);
                assert(m_ok(wl));
                assert(lo <= lt <= hi);
                let wr = choose|x: Hittable|
                    br.contains(x) && #[trigger] hit_t(x, r, lo, lt) == Option::Some(rt);
                assert(m_ok(wr));
                assert(lo <= rt <= lt);
                lemma_combine_both(bl, br, r, lo, hi, lt, rt);
            } else {
                assert(hit_t(obj, r, lo, hi) == Option::Some(lt));
                lemma_combine_left(bl, br, r, lo, hi, lt);
            }
        } else {
            let rres = hit_t(*n.right, r, lo, hi);
            assert(is_best(br, r, lo, hi, rres));
            assert(hit_t(obj, r, lo, hi) == rres);
            lemma_combine_right(bl, br, r, lo, hi, rres);
        }
    }
}

/// The accelerated query agrees with the exhaustive scan: for any ray and
/// window, a well-formed untransformed tree standing for the same objects
/// as a list reports a hit exactly when the list's linear scan does, and
/// with the same parameter.
pub proof fn lemma_bvh_matches_list(tree: Hittable, l: HittableList, r: Ray, lo: int, hi: int)
    requires
        spec_wf(tree),
        plain(tree),
        spec_wf(Hittable::List(l)),
        plain(Hittable::List(l)),
        leaf_set(tree) =~= l.objects@.to_set(),
    ensures
        hit_t(tree, r, lo, hi) == hit_t(Hittable::List(l), r, lo, hi),
{
    lemma_hit_props(tree);
    assert forall|j: int| 0 <= j < l.objects@.len() implies m_ok(#[trigger] l.objects@[j]) by {
        lemma_hit_props(l.objects@[j]);
    }
    lemma_list_best(l);
    assert(is_best(l.objects@.to_set(), r, lo, hi, hit_t(tree, r, lo, hi)));
    lemma_best_unique(
        l.objects@.to_set(),
        r,
        lo,
        hi,
        hit_t(tree, r, lo, hi),
        hit_t(Hittable::List(l), r, lo, hi),
    );
}

impl BvhNode {
    /// Builds a tree over the given objects by recursive splitting along
    /// the longest axis of their common box: one object stands alone, two
    /// are ordered by key, more are sorted and split at the midpoint.
    /// The result answers queries for exactly the objects handed in, kept
    /// with their multiplicity, and (for well-constructed boxes) its own
    /// box is exactly the union of theirs.
    pub fn new(objects: Vec<Hittable>) -> (res: Hittable)
        requires
            objects@.len() >= 1,
            forall|i: int| 0 <= i < objects@.len() ==> spec_wf(#[trigger] objects@[i]),
            forall|i: int| 0 <= i < objects@.len() ==> !(#[trigger] objects@[i] is Bvh),
        ensures
            spec_wf(res),
            leaf_set(res) =~= objects@.to_set(),
            leaf_seq(res).to_multiset() == objects@.to_multiset(),
            forall|o: Hittable| leaf_set(res).contains(o) ==> !(o is Bvh),
            (forall|i: int| 0 <= i < objects@.len() ==> plain(#[trigger] objects@[i])) ==> plain(
                res,
            ),
            (forall|i: int|
                0 <= i < objects@.len() ==> finite_box(spec_bounding_box(#[trigger] objects@[i])))
                ==> spec_bounding_box(res) == spec_boxes_union(objects@, 0),
            (objects@.len() == 1 ==> res == objects@[0]),
            (objects@.len() == 2 ==> (res matches Hittable::Bvh(node) && spec_two_ordered(
                objects@,
                node,
            ))),
        decreases objects@.len(),
    {
        let ghost input = objects@;
        let mut objects = objects;
        let n = objects.len();

        let mut union_box = Aabb::new_with_empty();
        let mut k: usize = n;
        while k > 0
            invariant
                0 <= k <= n,
                n == objects@.len(),
                objects@ == input,
                union_box == spec_boxes_union(input, k as int),
            decreases k,
        {
            k = k - 1;
            union_box = Aabb::from_boxes(objects[k].bounding_box(), union_box);
        }
        let axis = union_box.longest_axis();

        if n == 1 {
            let o = objects.pop().unwrap();
            proof {
                assert(input =~= seq![o]);
                assert(input.to_set() =~= set![o]) by {
                    assert(input.contains(o));
                    assert forall|y: Hittable| input.to_set().contains(y) implies y == o by {
                        let idx = choose|idx: int| 0 <= idx < input.len() && input[idx] == y;
                        assert(idx == 0);
                    }
                }
                assert(leaf_seq(o) =~= seq![o]);
                if forall|i: int|
                    0 <= i < input.len() ==> finite_box(spec_bounding_box(#[trigger] input[i])) {
                    assert(finite_box(spec_bounding_box(input[0])));
                    assert(tame_box(spec_bounding_box(o)));
                    lemma_union_empty(spec_bounding_box(o));
                    assert(spec_boxes_union(input, 1) == crate::aabb::spec_empty_box());
                    assert(spec_boxes_union(input, 0) == crate::aabb::spec_box_union(
                        spec_bounding_box(input[0]),
                        spec_boxes_union(input, 1),
                    ));
                    assert(spec_boxes_union(input, 0) == spec_bounding_box(o));
                }
            }
            o
        } else if n == 2 {
            let k0 = box_min_key(&objects[0], axis);
            let k1 = box_min_key(&objects[1], axis);
            let second = objects.pop().unwrap();
            let first = objects.pop().unwrap();
            let (lchild, rchild) = if k0 <= k1 {
                (first, second)
            } else {
                (second, first)
            };
            let lb = lchild.bounding_box();
            let rb = rchild.bounding_box();
            let node = BvhNode {
                left: Box::new(lchild),
                right: Box::new(rchild),
                bbox: Aabb::from_boxes(lb, rb),
            };
            proof {
                lemma_union_contains(lb, rb);
                assert(input[0] == first && input[1] == second);
                assert(!(first is Bvh) && !(second is Bvh));
                assert(leaf_set(lchild) =~= set![lchild]);
                assert(leaf_set(rchild) =~= set![rchild]);
                assert(input.to_set() =~= set![first, second]) by {
                    assert(input.contains(first) && input.contains(second));
                    assert(input[0] == first && input[1] == second);
                    assert forall|y: Hittable| input.to_set().contains(y) implies (y == first || y
                        == second) by {
                        let idx = choose|idx: int| 0 <= idx < input.len() && input[idx] == y;
                    }
                }
                assert(leaf_set(Hittable::Bvh(node)) =~= input.to_set());
                // Leaves, with multiplicity.
                assert(leaf_seq(lchild) =~= seq![lchild]);
                assert(leaf_seq(rchild) =~= seq![rchild]);
                assert(input =~= seq![first] + seq![second]);
                if k0 > k1 {
                    vstd::seq_lib::lemma_seq_union_to_multiset_commutative(
                        seq![second],
                        seq![first],
                    );
                }
                assert(leaf_seq(Hittable::Bvh(node)).to_multiset() == input.to_multiset());
                // The node's box is the union of the pair's boxes.
                if forall|i: int|
                    0 <= i < input.len() ==> finite_box(spec_bounding_box(#[trigger] input[i])) {
                    let b0 = spec_bounding_box(first);
                    let b1 = spec_bounding_box(second);
                    assert(finite_box(b0) && finite_box(b1));
                    assert(tame_box(b1));
                    lemma_union_empty(b1);
                    assert(spec_boxes_union(input, 2) == crate::aabb::spec_empty_box());
                    assert(spec_boxes_union(input, 1) == crate::aabb::spec_box_union(
                        b1,
                        spec_boxes_union(input, 2),
                    ));
                    assert(spec_boxes_union(input, 0) == crate::aabb::spec_box_union(
                        b0,
                        spec_boxes_union(input, 1),
                    ));
                    assert(spec_boxes_union(input, 0) == crate::aabb::spec_box_union(b0, b1));
                    if k0 > k1 {
                        lemma_union_comm(b1, b0);
                    }
                }
                // The left child has the smaller key along the chosen axis.
                assert(spec_two_ordered(input, node));
            }
            Hittable::Bvh(node)
        } else {
            sort_by_key(&mut objects, axis);
            let ghost sorted = objects@;
            proof {
                assert forall|i: int| 0 <= i < sorted.len() implies spec_wf(#[trigger] sorted[i])
                    && !(sorted[i] is Bvh) by {
                    lemma_multiset_eq_gives_member(input, sorted, i);
                    let idx = choose|idx: int| 0 <= idx < input.len() && input[idx] == sorted[i];
                }
                if forall|i: int| 0 <= i < input.len() ==> plain(#[trigger] input[i]) {
                    assert forall|i: int| 0 <= i < sorted.len() implies plain(
                        #[trigger] sorted[i],
                    ) by {
                        lemma_multiset_eq_gives_member(input, sorted, i);
                        let idx = choose|idx: int|
                            0 <= idx < input.len() && input[idx] == sorted[i];
                    }
                }
                if forall|i: int|
                    0 <= i < input.len() ==> finite_box(spec_bounding_box(#[trigger] input[i])) {
                    assert forall|i: int| 0 <= i < sorted.len() implies finite_box(
                        spec_bounding_box(#[trigger] sorted[i]),
                    ) by {
                        lemma_multiset_eq_gives_member(input, sorted, i);
                        let idx = choose|idx: int|
                            0 <= idx < input.len() && input[idx] == sorted[i];
                    }
                }
            }
            let mid = n / 2;
            let right_part = objects.split_off(mid);
            let ghost left_view = objects@;
            let ghost right_view = right_part@;
            proof {
                assert(sorted =~= left_view + right_view);
                seq_to_set_distributes_over_add(left_view, right_view);
                lemma_multiset_eq_gives_set_eq(input, sorted);
            }
            let lchild = BvhNode::new(objects);
            let rchild = BvhNode::new(right_part);
            let lb = lchild.bounding_box();
            let rb = rchild.bounding_box();
            let node = BvhNode {
                left: Box::new(lchild),
                right: Box::new(rchild),
                bbox: Aabb::from_boxes(lb, rb),
            };
            proof {
                lemma_union_contains(lb, rb);
                // Leaves with multiplicity: the two sides concatenate to a
                // permutation of the input.
                lemma_multiset_commutative(leaf_seq(lchild), leaf_seq(rchild));
                lemma_multiset_commutative(left_view, right_view);
                assert(leaf_seq(Hittable::Bvh(node)).to_multiset() == input.to_multiset());
                // The node's box is the union of the members' boxes.
                if forall|i: int|
                    0 <= i < input.len() ==> finite_box(spec_bounding_box(#[trigger] input[i])) {
                    assert forall|i: int| 0 <= i < left_view.len() implies finite_box(
                        spec_bounding_box(#[trigger] left_view[i]),
                    ) by {
                        assert(left_view[i] == sorted[i]);
                    }
                    assert forall|i: int| 0 <= i < right_view.len() implies finite_box(
                        spec_bounding_box(#[trigger] right_view[i]),
                    ) by {
                        assert(right_view[i] == sorted[mid + i]);
                    }
                    lemma_fold_split_from(left_view, right_view, 0);
                    lemma_fold_multiset(input, sorted);
                    assert(spec_bounding_box(Hittable::Bvh(node)) == spec_boxes_union(input, 0));
                }
            }
            Hittable::Bvh(node)
        }
    }

    /// Builds the tree over a list's members, consuming the list.
    pub fn new_with_list(list: HittableList) -> (res: Hittable)
        requires
            list.objects@.len() >= 1,
            forall|i: int| 0 <= i < list.objects@.len() ==> spec_wf(#[trigger] list.objects@[i]),
            forall|i: int| 0 <= i < list.objects@.len() ==> !(#[trigger] list.objects@[i] is Bvh),
        ensures
            spec_wf(res),
            leaf_set(res) =~= list.objects@.to_set(),
            leaf_seq(res).to_multiset() == list.objects@.to_multiset(),
            (forall|i: int|
                0 <= i < list.objects@.len() ==> finite_box(
                    spec_bounding_box(#[trigger] list.objects@[i]),
                )) ==> spec_bounding_box(res) == spec_boxes_union(list.objects@, 0),
    {
        BvhNode::new(list.objects)
    }
}

impl BvhNode {
    /// Rejects through the stored box, then queries the left subtree, then
    /// the right subtree over a window narrowed to the left hit.
    pub fn hit(&self, r: &Ray, ray_t: Interval) -> (res: Option<HitRecord>)
        ensures
            res == spec_bvh_hit(*self, *r, ray_t.min.val(), ray_t.max.val()),
        decreases *self, 2int,
    {
        if !self.bbox.hit(r, ray_t) {
            return None;
        }
        let left = self.left.hit(r, ray_t);
        let right_hi = match left {
            Some(lr) => lr.t,
            None => ray_t.max,
        };
        let right = self.right.hit(r, Interval::new(ray_t.min, right_hi));
        match right {
            Some(rr) => Some(rr),
            None => left,
        }
    }
}

} // verus!
