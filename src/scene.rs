//! Nearest-hit selection, shadow tests and the bounded reflection chain.

use vstd::prelude::*;

verus! {

/// Object `i` is a candidate for a ray when the ray meets it (`hits[i]` holds the
/// key of the distance) and it is not the object excluded from the scan.
pub open spec fn is_candidate(hits: Seq<Option<u64>>, ignored: Option<usize>, i: int) -> bool {
    &&& 0 <= i < hits.len()
    &&& hits[i] is Some
    &&& ignored != Some(i as usize)
}

/// Object `i` is the one a ray meets first: no candidate is nearer, and every
/// candidate before it in scan order is strictly farther (ties go to the first).
pub open spec fn is_nearest(hits: Seq<Option<u64>>, ignored: Option<usize>, i: int) -> bool {
    &&& is_candidate(hits, ignored, i)
    &&& forall|j: int| is_candidate(hits, ignored, j) ==> hits[i]->0 <= hits[j]->0
    &&& forall|j: int| 0 <= j < i && is_candidate(hits, ignored, j) ==> hits[i]->0 < hits[j]->0
}

/// Picks, among the objects a ray meets, the nearest one, skipping `ignored`.
///
/// `hits[i]` is the distance key at which object `i` meets the ray, or `None`
/// when it does not. The result is the index of the object and its key.
pub fn first_intersection(hits: &Vec<Option<u64>>, ignored: Option<usize>) -> (r: Option<(usize, u64)>)
    ensures
        r is None <==> forall|j: int| !is_candidate(hits@, ignored, j),
        r matches Some((i, d)) ==> is_nearest(hits@, ignored, i as int) && hits@[i as int] == Some(d),
{
    let mut best: Option<(usize, u64)> = None;
    let mut i: usize = 0;
    while i < hits.len()
        invariant
            0 <= i <= hits.len(),
            best is None <==> forall|j: int| 0 <= j < i ==> !is_candidate(hits@, ignored, j),
            best matches Some((b, d)) ==> {
                &&& b < i
                &&& is_candidate(hits@, ignored, b as int)
                &&& hits@[b as int] == Some(d)
                &&& forall|j: int| 0 <= j < i && is_candidate(hits@, ignored, j) ==> d <= hits@[j]->0
                &&& forall|j: int| 0 <= j < b && is_candidate(hits@, ignored, j) ==> d < hits@[j]->0
            },
        decreases hits.len() - i,
    {
        let skipped = match ignored {
            Some(k) => k == i,
            None => false,
        };
        if !skipped {
            if let Some(d) = hits[i] {
                match best {
                    None => {
                        best = Some((i, d));
                    },
                    Some((_, nearest)) => {
                        if d < nearest {
                            best = Some((i, d));
                        }
                    },
                }
            }
        }
        proof {
            if let Some((b, _)) = best {
                assert(is_candidate(hits@, ignored, b as int));
            }
        }
        i += 1;
    }
    best
}

/// Decides whether a light reaches a surface point.
///
/// `facing` says whether the light lies on the outer side of the surface (the
/// cosine between normal and light direction is positive). `shadow_hits` holds,
/// per object, the distance key at which the ray from the point towards the light
/// meets it; `surface` is the object the point lies on, which the scan skips, and
/// `light` is the key of the distance to the light. The light is blocked when some
/// object is met no farther away than the light itself.
pub fn light_visible(facing: bool, shadow_hits: &Vec<Option<u64>>, surface: usize, light: u64) -> (r: bool)
    ensures
        r == (facing && forall|j: int|
            is_candidate(shadow_hits@, Some(surface), j) ==> shadow_hits@[j]->0 > light),
{
    if !facing {
        return false;
    }
    match first_intersection(shadow_hits, Some(surface)) {
        None => true,
        Some((i, d)) => {
            assert(is_candidate(shadow_hits@, Some(surface), i as int));
            d > light
        },
    }
}

/// How many nested reflections a primary ray may give rise to.
pub const RECURSION_LIMIT: u32 = 10;

/// The state of one traced ray in a chain of mirror reflections.
#[derive(Clone, Copy, Debug)]
pub struct Bounce {
    /// How many further reflections may still be traced.
    pub remaining: u32,
    /// The object the ray leaves from, excluded from its scans.
    pub ignored: Option<usize>,
}

/// The state of the reflected ray after the ray in state `b` met object `hit`, or
/// `None` when no reflection is traced: none is left, or the object is not a mirror.
pub open spec fn next_bounce(b: Bounce, hit: usize, reflective: bool) -> Option<Bounce> {
    if b.remaining > 0 && reflective {
        Some(Bounce { remaining: (b.remaining - 1) as u32, ignored: Some(hit) })
    } else {
        None
    }
}

impl Bounce {
    /// The state of a ray cast from the camera, allowed `limit` nested reflections.
    pub fn primary(limit: u32) -> (r: Bounce)
        ensures
            r == (Bounce { remaining: limit, ignored: None }),
    {
        Bounce { remaining: limit, ignored: None }
    }

    /// The state of the ray reflected where this one met object `hit`, if one is
    /// traced; `reflective` says whether that object has a non-black reflection colour.
    pub fn reflect(&self, hit: usize, reflective: bool) -> (r: Option<Bounce>)
        ensures
            r == next_bounce(*self, hit, reflective),
    {
        if self.remaining > 0 && reflective {
            Some(Bounce { remaining: self.remaining - 1, ignored: Some(hit) })
        } else {
            None
        }
    }
}

/// The number of reflections traced from a ray in state `b` when the successive
/// rays of the chain meet the objects `hits` (index, and whether it is a mirror).
pub open spec fn reflections(b: Bounce, hits: Seq<(usize, bool)>) -> nat
    decreases hits.len(),
{
    if hits.len() == 0 {
        0
    } else {
        match next_bounce(b, hits[0].0, hits[0].1) {
            Some(n) => 1 + reflections(n, hits.drop_first()),
            None => 0,
        }
    }
}

/// A ray never gives rise to more reflections than it has left.
pub proof fn lemma_reflections_bounded(b: Bounce, hits: Seq<(usize, bool)>)
    ensures
        reflections(b, hits) <= b.remaining,
    decreases hits.len(),
{
    if hits.len() > 0 {
        if let Some(n) = next_bounce(b, hits[0].0, hits[0].1) {
            lemma_reflections_bounded(n, hits.drop_first());
        }
    }
}

/// However the mirrors of a scene stand, a ray from the camera is followed by at
/// most `RECURSION_LIMIT` nested reflections.
pub proof fn lemma_reflection_depth(hits: Seq<(usize, bool)>)
    ensures
        reflections(Bounce { remaining: RECURSION_LIMIT, ignored: None }, hits) <= 10,
{
    lemma_reflections_bounded(Bounce { remaining: RECURSION_LIMIT, ignored: None }, hits);
}

} // verus!
