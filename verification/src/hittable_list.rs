//! The scene aggregate: a list of surfaces queried as one composite.
//!
//! The composite intersection narrows the valid upper parameter bound to
//! the closest hit found so far while scanning the list, which yields
//! nearest-surface-wins semantics without sorting.  `list_hit_t` states
//! that scan exactly, as a fold over the list.

use vstd::prelude::*;

use crate::fixed::Fix;
use crate::hittable::{Hit, Hittable};
use crate::ray::Ray;
use crate::vec3::{v_len2, V3};

verus! {

/// The outcome of scanning the list left to right, narrowing the upper
/// bound to each accepted hit: the index of the winning surface and its
/// ray parameter, if any surface was struck.
pub open spec fn list_hit_t(
    objs: Seq<Hittable>,
    orig: V3,
    dir: V3,
    t_min: int,
    t_max: int,
) -> Option<(int, int)>
    decreases objs.len(),
{
    if objs.len() == 0 {
        None
    } else {
        let prev = list_hit_t(objs.drop_last(), orig, dir, t_min, t_max);
        let bound = match prev {
            None => t_max,
            Some((i, t)) => t,
        };
        match objs.last().hit_t(orig, dir, t_min, bound) {
            Some(t2) => Some((objs.len() - 1, t2)),
            None => prev,
        }
    }
}

/// The greedy narrowing scan really is a nearest-surface search: when it
/// reports a winner, no member surface is struck at a smaller parameter
/// anywhere in the full window, and when it reports nothing, no member is
/// struck at all.  Insertion order can therefore only break ties.
pub proof fn lemma_list_hit_nearest(objs: Seq<Hittable>, orig: V3, dir: V3, t_min: int, t_max: int)
    ensures
        match list_hit_t(objs, orig, dir, t_min, t_max) {
            None => forall|j: int|
                0 <= j < objs.len() ==> (#[trigger] objs[j].hit_t(orig, dir, t_min, t_max))
                    is None,
            Some((i, t)) => {
                &&& 0 <= i < objs.len()
                &&& t_min <= t <= t_max
                &&& forall|j: int|
                    0 <= j < objs.len() ==> match #[trigger] objs[j].hit_t(
                        orig,
                        dir,
                        t_min,
                        t_max,
                    ) {
                        None => true,
                        Some(tj) => t <= tj,
                    }
            },
        },
    decreases objs.len(),
{
    if objs.len() > 0 {
        let pre = objs.drop_last();
        lemma_list_hit_nearest(pre, orig, dir, t_min, t_max);
        let prev = list_hit_t(pre, orig, dir, t_min, t_max);
        let bound = match prev {
            None => t_max,
            Some((ip, tp)) => tp,
        };
        crate::hittable::lemma_hittable_hit_narrow(objs.last(), orig, dir, t_min, bound, t_max);
        assert(forall|j: int| 0 <= j < objs.len() - 1 ==> objs[j] == pre[j]);
        assert(objs.last() == objs[objs.len() - 1]);
    }
}

/// Whether every material in the scene has an albedo of at most one unit
/// per channel: genuine reflected fractions, under which no light estimate
/// can exceed full intensity.
pub open spec fn albedos_in_unit(objs: Seq<Hittable>) -> bool {
    forall|i: int| 0 <= i < objs.len() ==> (#[trigger] objs[i]).material_of().albedo_in_unit()
}

/// An ordered collection of surfaces, itself queried as a surface.
#[derive(Clone, Debug)]
pub struct HittableList {
    pub objects: Vec<Hittable>,
}

impl View for HittableList {
    type V = Seq<Hittable>;

    open spec fn view(&self) -> Seq<Hittable> {
        self.objects@
    }
}

impl HittableList {
    /// Well-formedness: every member surface is well-formed.
    pub open spec fn wf(self) -> bool {
        forall|i: int| 0 <= i < self@.len() ==> (#[trigger] self@[i]).wf()
    }

    /// An empty scene.
    pub fn new() -> (l: HittableList)
        ensures
            l@ == Seq::<Hittable>::empty(),
            l.wf(),
    {
        HittableList { objects: Vec::new() }
    }

    /// Remove every surface.
    pub fn clear(&mut self)
        ensures
            final(self)@ == Seq::<Hittable>::empty(),
            final(self).wf(),
    {
        self.objects.clear()
    }

    /// Append a surface to the scene.
    pub fn add(&mut self, object: Hittable)
        requires
            object.wf(),
        ensures
            final(self)@ == old(self)@.push(object),
            old(self).wf() ==> final(self).wf(),
    {
        self.objects.push(object);
        proof {
            if old(self).wf() {
                assert forall|i: int| 0 <= i < self@.len() implies (#[trigger] self@[i]).wf() by {
                    if i < old(self)@.len() {
                        assert(self@[i] == old(self)@[i]);
                    } else {
                        assert(self@[i] == object);
                    }
                }
            }
        }
    }

    /// Intersect a ray against every member surface and return the closest
    /// valid hit, with its record exactly as the winning surface produces
    /// it, or no hit if nothing intersects.
    #[verifier::rlimit(50)]
    pub fn hit(&self, r: &Ray, t_min: Fix, t_max: Fix) -> (res: Option<Hit>)
        requires
            self.wf(),
        ensures
            match res {
                None => {
                    &&& list_hit_t(self@, r.origin@, r.direction@, t_min@, t_max@) is None
                    &&& forall|j: int|
                        0 <= j < self@.len() ==> (#[trigger] self@[j].hit_t(
                            r.origin@,
                            r.direction@,
                            t_min@,
                            t_max@,
                        )) is None
                },
                Some(h) => {
                    &&& match list_hit_t(self@, r.origin@, r.direction@, t_min@, t_max@) {
                        None => false,
                        Some((i, t)) => {
                            &&& h.t@ == t
                            &&& 0 <= i < self@.len()
                            &&& self@[i].record_matches(*r, h)
                        },
                    }
                    &&& t_min@ <= h.t@ <= t_max@
                    &&& forall|j: int|
                        0 <= j < self@.len() ==> match #[trigger] self@[j].hit_t(
                            r.origin@,
                            r.direction@,
                            t_min@,
                            t_max@,
                        ) {
                            None => true,
                            Some(tj) => h.t@ <= tj,
                        }
                    &&& v_len2(r.direction@) > 0
                },
            },
    {
        proof {
            lemma_list_hit_nearest(self@, r.origin@, r.direction@, t_min@, t_max@);
        }
        let ghost orig = r.origin@;
        let ghost dir = r.direction@;
        let mut res: Option<Hit> = None;
        let mut closest_so_far = t_max;
        let mut idx: usize = 0;

        while idx < self.objects.len()
            invariant
                self.wf(),
                0 <= idx <= self.objects.len(),
                orig == r.origin@,
                dir == r.direction@,
                match res {
                    None => {
                        &&& closest_so_far == t_max
                        &&& list_hit_t(self@.subrange(0, idx as int), orig, dir, t_min@, t_max@)
                            is None
                    },
                    Some(h) => {
                        &&& closest_so_far == h.t
                        &&& match list_hit_t(
                            self@.subrange(0, idx as int),
                            orig,
                            dir,
                            t_min@,
                            t_max@,
                        ) {
                            None => false,
                            Some((i, t)) => {
                                &&& h.t@ == t
                                &&& 0 <= i < self@.len()
                                &&& self@[i].record_matches(*r, h)
                            },
                        }
                        &&& v_len2(dir) > 0
                    },
                },
            decreases self.objects.len() - idx,
        {
            let ghost pre = self@.subrange(0, idx as int);
            let object = &self.objects[idx];
            let hit_res = object.hit(r, t_min, closest_so_far);
            proof {
                assert(self@.subrange(0, idx as int + 1).drop_last() =~= pre);
                assert(self@.subrange(0, idx as int + 1).last() == self@[idx as int]);
            }
            match hit_res {
                Some(hit) => {
                    closest_so_far = hit.t;
                    res = Some(hit);
                },
                None => {},
            }
            idx = idx + 1;
        }
        proof {
            assert(self@.subrange(0, self@.len() as int) =~= self@);
        }
        res
    }
}

} // verus!
