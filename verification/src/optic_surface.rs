//! An optical surface: a geometric surface with an aperture, a coating and a laser-induced
//! damage threshold (LIDT), the ray bundles that reached it and a map of where they hit.
//!
//! The geometric surface and the ray bundles are carried as values of type parameters: this
//! module stores and hands them back without looking into them.
use vstd::prelude::*;
use std::collections::HashMap;
use crate::float_bits::{bits_is_normal, bits_is_sign_negative, is_normal, is_sign_negative};
use crate::error::{OpmResult, OpossumError};
use crate::optic_port::{Aperture, CoatingType};

verus! {

broadcast use vstd::std_specs::hash::group_hash_axioms;

/// Default LIDT: 1 J/cm², in J/m² (bit pattern of `10000.0`).
pub const DEFAULT_LIDT: u64 = 0x40c3_8800_0000_0000u64;

/// A point where a ray hit a surface, with the ray's energy (bit patterns of the coordinates in
/// meters and of the energy in joules).
#[derive(Clone, Copy, Debug, PartialEq, Eq, Structural)]
pub struct HitPoint {
    /// The x coordinate of the point.
    pub x: u64,
    /// The y coordinate of the point.
    pub y: u64,
    /// The z coordinate of the point.
    pub z: u64,
    /// The energy of the ray.
    pub energy: u64,
}

/// The hit points of one ray bundle at one bounce level, in the order they were added.
pub open spec fn hits_of(hits: Seq<(usize, u128, HitPoint)>, bounce: usize, uuid: u128) -> Seq<HitPoint>
    decreases hits.len(),
{
    if hits.len() == 0 {
        Seq::empty()
    } else {
        let last = hits.last();
        let rest = hits_of(hits.drop_last(), bounce, uuid);
        if last.0 == bounce && last.1 == uuid { rest.push(last.2) } else { rest }
    }
}

/// Whether a ray bundle hit the surface at a bounce level.
pub open spec fn was_hit(hits: Seq<(usize, u128, HitPoint)>, bounce: usize, uuid: u128) -> bool {
    exists|i: int| 0 <= i < hits.len() && (#[trigger] hits[i]).0 == bounce && hits[i].1 == uuid
}

/// Every hit point listed for a ray bundle at a bounce level was added with that bounce level
/// and that bundle identifier.
pub proof fn lemma_hits_of_sound(hits: Seq<(usize, u128, HitPoint)>, bounce: usize, uuid: u128)
    ensures
        forall|k: int| #![trigger hits_of(hits, bounce, uuid)[k]] 0 <= k < hits_of(hits, bounce, uuid).len() ==> exists|i: int|
            0 <= i < hits.len() && #[trigger] hits[i] == (bounce, uuid, hits_of(hits, bounce, uuid)[k]),
    decreases hits.len(),
{
    if hits.len() > 0 {
        let rest = hits.drop_last();
        lemma_hits_of_sound(rest, bounce, uuid);
        let r = hits_of(rest, bounce, uuid);
        assert forall|k: int| #![trigger hits_of(hits, bounce, uuid)[k]] 0 <= k < hits_of(hits, bounce, uuid).len() implies exists|i: int|
            0 <= i < hits.len() && #[trigger] hits[i] == (bounce, uuid, hits_of(hits, bounce, uuid)[k]) by {
            if k < r.len() {
                let i = choose|i: int| 0 <= i < rest.len() && #[trigger] rest[i] == (bounce, uuid, r[k]);
                assert(hits[i] == rest[i]);
            } else {
                assert(hits[hits.len() - 1] == (bounce, uuid, hits_of(hits, bounce, uuid)[k]));
            }
        }
    }
}

/// Every hit point added with a bounce level and a bundle identifier is listed for that bundle
/// at that level.
pub proof fn lemma_hits_of_complete(hits: Seq<(usize, u128, HitPoint)>, bounce: usize, uuid: u128)
    ensures
        forall|i: int| 0 <= i < hits.len() && (#[trigger] hits[i]).0 == bounce && hits[i].1 == uuid
            ==> hits_of(hits, bounce, uuid).contains(hits[i].2),
    decreases hits.len(),
{
    if hits.len() > 0 {
        let rest = hits.drop_last();
        lemma_hits_of_complete(rest, bounce, uuid);
        let r = hits_of(rest, bounce, uuid);
        assert forall|i: int| 0 <= i < hits.len() && (#[trigger] hits[i]).0 == bounce && hits[i].1 == uuid
            implies hits_of(hits, bounce, uuid).contains(hits[i].2) by {
            if i < rest.len() {
                assert(rest[i] == hits[i]);
                let k = choose|k: int| 0 <= k < r.len() && r[k] == hits[i].2;
                assert(hits_of(hits, bounce, uuid)[k] == hits[i].2);
            } else {
                let h = hits_of(hits, bounce, uuid);
                assert(h[h.len() - 1] == hits[i].2);
            }
        }
    }
}

/// A ray bundle was hit at a bounce level exactly when some hit point is listed for it there.
pub proof fn lemma_was_hit_iff_listed(hits: Seq<(usize, u128, HitPoint)>, bounce: usize, uuid: u128)
    ensures
        was_hit(hits, bounce, uuid) <==> hits_of(hits, bounce, uuid).len() > 0,
{
    lemma_hits_of_sound(hits, bounce, uuid);
    lemma_hits_of_complete(hits, bounce, uuid);
    if was_hit(hits, bounce, uuid) {
        let i = choose|i: int| 0 <= i < hits.len() && (#[trigger] hits[i]).0 == bounce && hits[i].1 == uuid;
        assert(hits_of(hits, bounce, uuid).contains(hits[i].2));
    }
    if hits_of(hits, bounce, uuid).len() > 0 {
        let h = hits_of(hits, bounce, uuid);
        let i = choose|i: int| 0 <= i < hits.len() && #[trigger] hits[i] == (bounce, uuid, h[0]);
        assert(hits[i].0 == bounce && hits[i].1 == uuid);
    }
}

/// Adding a hit point lists it last for its own bundle and bounce level, and leaves the lists
/// of every other bundle and level as they were.
pub proof fn lemma_hits_of_after_add(
    hits: Seq<(usize, u128, HitPoint)>,
    p: HitPoint,
    b: usize,
    u: u128,
    bounce: usize,
    uuid: u128,
)
    ensures
        hits_of(hits.push((b, u, p)), b, u) == hits_of(hits, b, u).push(p),
        (bounce, uuid) != (b, u) ==> hits_of(hits.push((b, u, p)), bounce, uuid) == hits_of(hits, bounce, uuid),
{
    assert(hits.push((b, u, p)).drop_last() =~= hits);
}

/// The hit map of a surface: the points where ray bundles hit it (by bounce level and bundle
/// identifier), and the critical fluences found for ray bundles (by bundle identifier: the
/// fluence, the position in the bundle's history and the bounce level).
#[derive(Debug, Clone)]
pub struct HitMap {
    hits: Vec<(usize, u128, HitPoint)>,
    critical_fluences: HashMap<u128, (u64, usize, usize)>,
}

impl HitMap {
    /// All hit points, with bounce level and bundle identifier, in the order they were added.
    pub closed spec fn spec_hits(self) -> Seq<(usize, u128, HitPoint)> {
        self.hits@
    }

    /// The critical fluences by bundle identifier.
    pub closed spec fn spec_critical(self) -> Map<u128, (u64, usize, usize)> {
        self.critical_fluences@
    }

    /// Creates an empty hit map.
    pub fn new() -> (m: Self)
        ensures
            m.spec_hits() == Seq::<(usize, u128, HitPoint)>::empty(),
            m.spec_critical() == Map::<u128, (u64, usize, usize)>::empty(),
    {
        HitMap { hits: Vec::new(), critical_fluences: HashMap::new() }
    }

    /// Adds a hit point of a ray bundle at a bounce level.
    pub fn add_to_hitmap(&mut self, hit_point: HitPoint, bounce: usize, rays_uuid: u128)
        ensures
            final(self).spec_hits() == old(self).spec_hits().push((bounce, rays_uuid, hit_point)),
            final(self).spec_critical() == old(self).spec_critical(),
    {
        self.hits.push((bounce, rays_uuid, hit_point));
    }

    /// Stores the critical fluence of a ray bundle, replacing an earlier one of that bundle.
    pub fn add_critical_fluence(&mut self, uuid: u128, rays_hist_pos: usize, fluence: u64, bounce: usize)
        ensures
            final(self).spec_critical() == old(self).spec_critical().insert(uuid, (fluence, rays_hist_pos, bounce)),
            final(self).spec_hits() == old(self).spec_hits(),
    {
        self.critical_fluences.insert(uuid, (fluence, rays_hist_pos, bounce));
    }

    /// The hit points of a ray bundle at a bounce level, or `None` if the bundle did not hit
    /// the surface at that level.
    pub fn get_rays_hit_map(&self, bounce: usize, uuid: u128) -> (r: Option<Vec<HitPoint>>)
        ensures
            r is Some <==> was_hit(self.spec_hits(), bounce, uuid),
            r matches Some(v) ==> v@ == hits_of(self.spec_hits(), bounce, uuid),
            r matches Some(v) ==> forall|k: int| #![trigger v@[k]] 0 <= k < v@.len() ==> exists|i: int|
                0 <= i < self.spec_hits().len() && #[trigger] self.spec_hits()[i] == (bounce, uuid, v@[k]),
    {
        proof {
            lemma_hits_of_sound(self.hits@, bounce, uuid);
        }
        let mut found: Vec<HitPoint> = Vec::new();
        let mut any = false;
        let mut i: usize = 0;
        while i < self.hits.len()
            invariant
                i <= self.hits@.len(),
                found@ == hits_of(self.hits@.take(i as int), bounce, uuid),
                any == exists|j: int| 0 <= j < i && (#[trigger] self.hits@[j]).0 == bounce && self.hits@[j].1 == uuid,
            decreases self.hits@.len() - i,
        {
            assert(self.hits@.take(i + 1).drop_last() =~= self.hits@.take(i as int));
            let h = self.hits[i];
            if h.0 == bounce && h.1 == uuid {
                found.push(h.2);
                any = true;
            }
            i = i + 1;
        }
        assert(self.hits@.take(i as int) =~= self.hits@);
        if any {
            Some(found)
        } else {
            None
        }
    }

    /// The critical fluence stored for a ray bundle, if any.
    pub fn critical_fluence(&self, uuid: u128) -> (r: Option<(u64, usize, usize)>)
        ensures
            r is Some <==> self.spec_critical().contains_key(uuid),
            r matches Some(c) ==> c == self.spec_critical()[uuid],
    {
        match self.critical_fluences.get(&uuid) {
            Some(c) => Some(*c),
            None => None,
        }
    }

    /// Removes all hit points and critical fluences.
    pub fn reset(&mut self)
        ensures
            final(self).spec_hits() == Seq::<(usize, u128, HitPoint)>::empty(),
            final(self).spec_critical() == Map::<u128, (u64, usize, usize)>::empty(),
    {
        self.hits.clear();
        self.critical_fluences.clear();
    }
}

/// An optical surface.
#[derive(Debug, Clone)]
pub struct OpticSurface<G, R> {
    geo_surface: G,
    aperture: Aperture,
    coating: CoatingType,
    lidt: u64,
    backward_rays_cache: Vec<R>,
    forward_rays_cache: Vec<R>,
    hit_map: HitMap,
}

impl<G, R> OpticSurface<G, R> {
    /// The geometric surface.
    pub closed spec fn spec_geo_surface(self) -> G {
        self.geo_surface
    }

    /// The aperture.
    pub closed spec fn spec_aperture(self) -> Aperture {
        self.aperture
    }

    /// The coating.
    pub closed spec fn spec_coating(self) -> CoatingType {
        self.coating
    }

    /// The LIDT (bit pattern, J/m²).
    pub closed spec fn spec_lidt(self) -> u64 {
        self.lidt
    }

    /// The ray bundles cached for backward propagation.
    pub closed spec fn backward(self) -> Seq<R> {
        self.backward_rays_cache@
    }

    /// The ray bundles cached for forward propagation.
    pub closed spec fn forward(self) -> Seq<R> {
        self.forward_rays_cache@
    }

    /// The hit map.
    pub closed spec fn spec_hit_map(self) -> HitMap {
        self.hit_map
    }

    /// Creates a surface with the given geometry, coating, aperture and LIDT, with empty ray
    /// caches and an empty hit map.
    pub fn new(geo_surface: G, coating: CoatingType, aperture: Aperture, lidt: u64) -> (s: Self)
        ensures
            s.spec_geo_surface() == geo_surface,
            s.spec_coating() == coating,
            s.spec_aperture() == aperture,
            s.spec_lidt() == lidt,
            s.backward() == Seq::<R>::empty(),
            s.forward() == Seq::<R>::empty(),
            s.spec_hit_map().spec_hits() == Seq::<(usize, u128, HitPoint)>::empty(),
            s.spec_hit_map().spec_critical() == Map::<u128, (u64, usize, usize)>::empty(),
    {
        OpticSurface {
            geo_surface,
            aperture,
            coating,
            lidt,
            backward_rays_cache: Vec::new(),
            forward_rays_cache: Vec::new(),
            hit_map: HitMap::new(),
        }
    }

    /// Creates a surface with the given geometry, no aperture, an ideal anti-reflection coating
    /// and the default LIDT of 1 J/cm².
    pub fn with_geo_surface(geo_surface: G) -> (s: Self)
        ensures
            s.spec_geo_surface() == geo_surface,
            s.spec_coating() == CoatingType::IdealAR,
            s.spec_aperture() == Aperture::NoAperture,
            s.spec_lidt() == DEFAULT_LIDT,
            s.backward() == Seq::<R>::empty(),
            s.forward() == Seq::<R>::empty(),
            s.spec_hit_map().spec_hits() == Seq::<(usize, u128, HitPoint)>::empty(),
            s.spec_hit_map().spec_critical() == Map::<u128, (u64, usize, usize)>::empty(),
    {
        Self::new(geo_surface, CoatingType::IdealAR, Aperture::NoAperture, DEFAULT_LIDT)
    }

    /// The backward (`true`) or forward (`false`) ray cache, for changing it in place.
    pub fn get_rays_cache_mut(&mut self, get_back_ward_cache: bool) -> (c: &mut Vec<R>)
        ensures
            get_back_ward_cache ==> c@ == old(self).backward() && final(self).backward() == final(c)@
                && final(self).forward() == old(self).forward(),
            !get_back_ward_cache ==> c@ == old(self).forward() && final(self).forward() == final(c)@
                && final(self).backward() == old(self).backward(),
            final(self).spec_geo_surface() == old(self).spec_geo_surface(),
            final(self).spec_aperture() == old(self).spec_aperture(),
            final(self).spec_coating() == old(self).spec_coating(),
            final(self).spec_lidt() == old(self).spec_lidt(),
            final(self).spec_hit_map() == old(self).spec_hit_map(),
    {
        if get_back_ward_cache {
            &mut self.backward_rays_cache
        } else {
            &mut self.forward_rays_cache
        }
    }

    /// The backward (`true`) or forward (`false`) ray cache.
    pub fn get_rays_cache(&self, get_back_ward_cache: bool) -> (c: &Vec<R>)
        ensures
            c@ == if get_back_ward_cache { self.backward() } else { self.forward() },
    {
        if get_back_ward_cache {
            &self.backward_rays_cache
        } else {
            &self.forward_rays_cache
        }
    }

    /// Replaces the geometric surface.
    pub fn set_geo_surface(&mut self, geo_surface: G)
        ensures
            final(self).spec_geo_surface() == geo_surface,
            final(self).spec_aperture() == old(self).spec_aperture(),
            final(self).spec_coating() == old(self).spec_coating(),
            final(self).spec_lidt() == old(self).spec_lidt(),
            final(self).backward() == old(self).backward(),
            final(self).forward() == old(self).forward(),
            final(self).spec_hit_map() == old(self).spec_hit_map(),
    {
        self.geo_surface = geo_surface;
    }

    /// Replaces the aperture.
    pub fn set_aperture(&mut self, aperture: Aperture)
        ensures
            final(self).spec_aperture() == aperture,
            final(self).spec_geo_surface() == old(self).spec_geo_surface(),
            final(self).spec_coating() == old(self).spec_coating(),
            final(self).spec_lidt() == old(self).spec_lidt(),
            final(self).backward() == old(self).backward(),
            final(self).forward() == old(self).forward(),
            final(self).spec_hit_map() == old(self).spec_hit_map(),
    {
        self.aperture = aperture;
    }

    /// Replaces the coating.
    pub fn set_coating(&mut self, coating: CoatingType)
        ensures
            final(self).spec_coating() == coating,
            final(self).spec_geo_surface() == old(self).spec_geo_surface(),
            final(self).spec_aperture() == old(self).spec_aperture(),
            final(self).spec_lidt() == old(self).spec_lidt(),
            final(self).backward() == old(self).backward(),
            final(self).forward() == old(self).forward(),
            final(self).spec_hit_map() == old(self).spec_hit_map(),
    {
        self.coating = coating;
    }

    /// The geometric surface.
    pub fn geo_surface(&self) -> (g: &G)
        ensures
            *g == self.spec_geo_surface(),
    {
        &self.geo_surface
    }

    /// The aperture.
    pub fn aperture(&self) -> (a: &Aperture)
        ensures
            *a == self.spec_aperture(),
    {
        &self.aperture
    }

    /// The coating.
    pub fn coating(&self) -> (c: &CoatingType)
        ensures
            *c == self.spec_coating(),
    {
        &self.coating
    }

    /// Replaces the backward ray cache.
    pub fn set_backwards_rays_cache(&mut self, backward_rays_cache: Vec<R>)
        ensures
            final(self).backward() == backward_rays_cache@,
            final(self).forward() == old(self).forward(),
            final(self).spec_geo_surface() == old(self).spec_geo_surface(),
            final(self).spec_aperture() == old(self).spec_aperture(),
            final(self).spec_coating() == old(self).spec_coating(),
            final(self).spec_lidt() == old(self).spec_lidt(),
            final(self).spec_hit_map() == old(self).spec_hit_map(),
    {
        self.backward_rays_cache = backward_rays_cache;
    }

    /// Appends a ray bundle to the backward ray cache.
    pub fn add_to_backward_rays_cache(&mut self, rays: R)
        ensures
            final(self).backward() == old(self).backward().push(rays),
            final(self).forward() == old(self).forward(),
            final(self).spec_geo_surface() == old(self).spec_geo_surface(),
            final(self).spec_aperture() == old(self).spec_aperture(),
            final(self).spec_coating() == old(self).spec_coating(),
            final(self).spec_lidt() == old(self).spec_lidt(),
            final(self).spec_hit_map() == old(self).spec_hit_map(),
    {
        self.backward_rays_cache.push(rays);
    }

    /// The backward ray cache.
    pub fn backwards_rays_cache(&self) -> (c: &Vec<R>)
        ensures
            c@ == self.backward(),
    {
        &self.backward_rays_cache
    }

    /// Replaces the forward ray cache.
    pub fn set_forward_rays_cache(&mut self, forward_rays_cache: Vec<R>)
        ensures
            final(self).forward() == forward_rays_cache@,
            final(self).backward() == old(self).backward(),
            final(self).spec_geo_surface() == old(self).spec_geo_surface(),
            final(self).spec_aperture() == old(self).spec_aperture(),
            final(self).spec_coating() == old(self).spec_coating(),
            final(self).spec_lidt() == old(self).spec_lidt(),
            final(self).spec_hit_map() == old(self).spec_hit_map(),
    {
        self.forward_rays_cache = forward_rays_cache;
    }

    /// Appends a ray bundle to the forward ray cache.
    pub fn add_to_forward_rays_cache(&mut self, rays: R)
        ensures
            final(self).forward() == old(self).forward().push(rays),
            final(self).backward() == old(self).backward(),
            final(self).spec_geo_surface() == old(self).spec_geo_surface(),
            final(self).spec_aperture() == old(self).spec_aperture(),
            final(self).spec_coating() == old(self).spec_coating(),
            final(self).spec_lidt() == old(self).spec_lidt(),
            final(self).spec_hit_map() == old(self).spec_hit_map(),
    {
        self.forward_rays_cache.push(rays);
    }

    /// The forward ray cache.
    pub fn forward_rays_cache(&self) -> (c: &Vec<R>)
        ensures
            c@ == self.forward(),
    {
        &self.forward_rays_cache
    }

    /// Appends a ray bundle to the forward (`true`) or backward (`false`) ray cache.
    pub fn add_to_rays_cache(&mut self, rays: R, add_to_forward_cache: bool)
        ensures
            add_to_forward_cache ==> final(self).forward() == old(self).forward().push(rays)
                && final(self).backward() == old(self).backward(),
            !add_to_forward_cache ==> final(self).backward() == old(self).backward().push(rays)
                && final(self).forward() == old(self).forward(),
            final(self).spec_geo_surface() == old(self).spec_geo_surface(),
            final(self).spec_aperture() == old(self).spec_aperture(),
            final(self).spec_coating() == old(self).spec_coating(),
            final(self).spec_lidt() == old(self).spec_lidt(),
            final(self).spec_hit_map() == old(self).spec_hit_map(),
    {
        if add_to_forward_cache {
            self.forward_rays_cache.push(rays);
        } else {
            self.backward_rays_cache.push(rays);
        }
    }

    /// The hit map.
    pub fn hit_map(&self) -> (m: &HitMap)
        ensures
            *m == self.spec_hit_map(),
    {
        &self.hit_map
    }

    /// Stores the critical fluence of a ray bundle in the hit map.
    pub fn add_critical_fluence(&mut self, uuid: u128, rays_hist_pos: usize, fluence: u64, bounce: usize)
        ensures
            final(self).spec_hit_map().spec_critical()
                == old(self).spec_hit_map().spec_critical().insert(uuid, (fluence, rays_hist_pos, bounce)),
            final(self).spec_hit_map().spec_hits() == old(self).spec_hit_map().spec_hits(),
            final(self).backward() == old(self).backward(),
            final(self).forward() == old(self).forward(),
            final(self).spec_lidt() == old(self).spec_lidt(),
            final(self).spec_geo_surface() == old(self).spec_geo_surface(),
            final(self).spec_aperture() == old(self).spec_aperture(),
            final(self).spec_coating() == old(self).spec_coating(),
    {
        self.hit_map.add_critical_fluence(uuid, rays_hist_pos, fluence, bounce);
    }

    /// The hit points of a ray bundle at a bounce level, if it hit the surface there.
    pub fn get_rays_hit_map(&self, bounce: usize, uuid: u128) -> (r: Option<Vec<HitPoint>>)
        ensures
            r is Some <==> was_hit(self.spec_hit_map().spec_hits(), bounce, uuid),
            r matches Some(v) ==> v@ == hits_of(self.spec_hit_map().spec_hits(), bounce, uuid),
            r matches Some(v) ==> forall|k: int| #![trigger v@[k]] 0 <= k < v@.len() ==> exists|i: int|
                0 <= i < self.spec_hit_map().spec_hits().len()
                    && #[trigger] self.spec_hit_map().spec_hits()[i] == (bounce, uuid, v@[k]),
    {
        self.hit_map.get_rays_hit_map(bounce, uuid)
    }

    /// Adds a hit point of a ray bundle at a bounce level to the hit map.
    pub fn add_to_hit_map(&mut self, hit_point: HitPoint, bounce: usize, rays_uuid: u128)
        ensures
            final(self).spec_hit_map().spec_hits()
                == old(self).spec_hit_map().spec_hits().push((bounce, rays_uuid, hit_point)),
            final(self).spec_hit_map().spec_critical() == old(self).spec_hit_map().spec_critical(),
            final(self).backward() == old(self).backward(),
            final(self).forward() == old(self).forward(),
            final(self).spec_lidt() == old(self).spec_lidt(),
            final(self).spec_geo_surface() == old(self).spec_geo_surface(),
            final(self).spec_aperture() == old(self).spec_aperture(),
            final(self).spec_coating() == old(self).spec_coating(),
    {
        self.hit_map.add_to_hitmap(hit_point, bounce, rays_uuid);
    }

    /// Empties the hit map.
    pub fn reset_hit_map(&mut self)
        ensures
            final(self).spec_hit_map().spec_hits() == Seq::<(usize, u128, HitPoint)>::empty(),
            final(self).spec_hit_map().spec_critical() == Map::<u128, (u64, usize, usize)>::empty(),
            final(self).backward() == old(self).backward(),
            final(self).forward() == old(self).forward(),
            final(self).spec_geo_surface() == old(self).spec_geo_surface(),
            final(self).spec_aperture() == old(self).spec_aperture(),
            final(self).spec_coating() == old(self).spec_coating(),
            final(self).spec_lidt() == old(self).spec_lidt(),
    {
        self.hit_map.reset();
    }

    /// Records the fluence evaluation of a ray bundle: if the bundle hit the surface at its
    /// bounce level, the evaluation of its hit points against the LIDT (`evaluation`, the
    /// outcome of that floating-point estimate: a critical peak fluence, none, or an error) is
    /// taken; a critical peak fluence is stored in the hit map with the bundle's history length
    /// and bounce level, and an error is passed on. A bundle that did not hit the surface is
    /// not evaluated.
    ///
    /// # Errors
    ///
    /// This function returns the error of the evaluation if the bundle hit the surface.
    pub fn evaluate_fluence_of_ray_bundle(
        &mut self,
        rays_uuid: u128,
        bounce: usize,
        rays_history_len: usize,
        evaluation: OpmResult<Option<u64>>,
    ) -> (r: OpmResult<()>)
        ensures
            r is Err <==> was_hit(old(self).spec_hit_map().spec_hits(), bounce, rays_uuid) && evaluation is Err,
            r matches Err(e) ==> evaluation == Err::<Option<u64>, OpossumError>(e),
            was_hit(old(self).spec_hit_map().spec_hits(), bounce, rays_uuid) ==> (evaluation matches Ok(Some(peak))
                ==> final(self).spec_hit_map().spec_critical() == old(self).spec_hit_map().spec_critical().insert(
                    rays_uuid,
                    (peak, rays_history_len, bounce),
                )),
            !(was_hit(old(self).spec_hit_map().spec_hits(), bounce, rays_uuid) && evaluation is Ok
                && evaluation->Ok_0 is Some)
                ==> final(self).spec_hit_map().spec_critical() == old(self).spec_hit_map().spec_critical(),
            final(self).spec_hit_map().spec_hits() == old(self).spec_hit_map().spec_hits(),
            final(self).backward() == old(self).backward(),
            final(self).forward() == old(self).forward(),
            final(self).spec_lidt() == old(self).spec_lidt(),
            final(self).spec_geo_surface() == old(self).spec_geo_surface(),
            final(self).spec_aperture() == old(self).spec_aperture(),
            final(self).spec_coating() == old(self).spec_coating(),
    {
        if self.get_rays_hit_map(bounce, rays_uuid).is_some() {
            match evaluation {
                Ok(Some(peak)) => {
                    self.add_critical_fluence(rays_uuid, rays_history_len, peak, bounce);
                },
                Ok(None) => {},
                Err(e) => {
                    return Err(e);
                },
            }
        }
        Ok(())
    }

    /// The LIDT (bit pattern, J/m²).
    pub fn lidt(&self) -> (l: u64)
        ensures
            l == self.spec_lidt(),
    {
        self.lidt
    }

    /// Sets the LIDT. A value that is negative or not normal (zero, subnormal, infinite or NaN)
    /// is ignored and the LIDT stays as it was.
    pub fn set_lidt(&mut self, lidt: u64)
        ensures
            final(self).spec_lidt() == if is_sign_negative(lidt) || !is_normal(lidt) {
                old(self).spec_lidt()
            } else {
                lidt
            },
            final(self).spec_geo_surface() == old(self).spec_geo_surface(),
            final(self).spec_aperture() == old(self).spec_aperture(),
            final(self).spec_coating() == old(self).spec_coating(),
            final(self).backward() == old(self).backward(),
            final(self).forward() == old(self).forward(),
            final(self).spec_hit_map() == old(self).spec_hit_map(),
    {
        if bits_is_sign_negative(lidt) || !bits_is_normal(lidt) {
            return;
        }
        self.lidt = lidt;
    }
}

} // verus!
