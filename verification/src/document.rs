//! A model document: a scenery, the analyzers to be run on it (by identifier) and the
//! scenery-wide resources, together with the file-format version it was written with.
use vstd::prelude::*;
use std::collections::HashMap;
use crate::error::{OpmResult, OpossumError};
use crate::ids::new_id;
use crate::scenery::{SceneryResources, VACUUM_REFRACTIVE_INDEX};
use crate::text_order::str_eq;

verus! {

broadcast use vstd::std_specs::hash::group_hash_axioms;

/// A model document holding a scenery of type `S` and analyzers of type `A`.
#[derive(Debug)]
pub struct OpmDocument<S, A> {
    opm_file_version: String,
    scenery: S,
    global_conf: SceneryResources,
    analyzers: HashMap<u128, A>,
    order: Vec<u128>,
}

impl<S, A> OpmDocument<S, A> {
    /// The file-format version of the document.
    pub closed spec fn spec_version(self) -> Seq<char> {
        self.opm_file_version@
    }

    /// The scenery.
    pub closed spec fn spec_scenery(self) -> S {
        self.scenery
    }

    /// The scenery-wide resources.
    pub closed spec fn spec_global_conf(self) -> SceneryResources {
        self.global_conf
    }

    /// The analyzers by identifier.
    pub closed spec fn spec_analyzers(self) -> Map<u128, A> {
        self.analyzers@
    }

    /// The identifiers of the analyzers in the order they were added.
    pub closed spec fn spec_order(self) -> Seq<u128> {
        self.order@
    }

    /// Well-formedness: the order lists each analyzer once, and nothing else.
    pub open spec fn wf(self) -> bool {
        &&& self.spec_order().no_duplicates()
        &&& forall|id: u128| #[trigger] self.spec_order().contains(id) <==> self.spec_analyzers().contains_key(id)
    }

    /// Creates a document of the given file-format version for a scenery, without analyzers
    /// and with default resources.
    pub fn new(scenery: S, opm_file_version: &str) -> (d: Self)
        ensures
            d.wf(),
            d.spec_order() == Seq::<u128>::empty(),
            d.spec_scenery() == scenery,
            d.spec_version() == opm_file_version@,
            d.spec_analyzers() == Map::<u128, A>::empty(),
            d.spec_global_conf().ambient_refr_index == VACUUM_REFRACTIVE_INDEX,
    {
        OpmDocument {
            opm_file_version: opm_file_version.to_owned(),
            scenery,
            global_conf: SceneryResources { ambient_refr_index: VACUUM_REFRACTIVE_INDEX },
            analyzers: HashMap::new(),
            order: Vec::new(),
        }
    }

    /// The file-format version of the document.
    pub fn opm_file_version(&self) -> (v: &str)
        ensures
            v@ == self.spec_version(),
    {
        self.opm_file_version.as_str()
    }

    /// Whether the document was written with the given file-format version.
    pub fn has_version(&self, version: &str) -> (b: bool)
        ensures
            b == (self.spec_version() == version@),
    {
        str_eq(self.opm_file_version.as_str(), version)
    }

    /// The analyzers by identifier.
    pub fn analyzers(&self) -> (m: &HashMap<u128, A>)
        ensures
            m@ == self.spec_analyzers(),
    {
        &self.analyzers
    }

    /// The identifiers of the analyzers, in the order they were added.
    pub fn analyzer_ids(&self) -> (v: Vec<u128>)
        ensures
            v@ == self.spec_order(),
    {
        self.order.clone()
    }

    /// The analyzer with the given identifier.
    ///
    /// # Errors
    ///
    /// This function returns an error if there is no analyzer with this identifier.
    pub fn analyzer(&self, id: u128) -> (r: OpmResult<&A>)
        ensures
            r is Ok <==> self.spec_analyzers().contains_key(id),
            r matches Ok(a) ==> *a == self.spec_analyzers()[id],
            r matches Err(e) ==> e is OpmDocument,
    {
        match self.analyzers.get(&id) {
            Some(a) => Ok(a),
            None => Err(OpossumError::OpmDocument("Analyzer with given Uuid not found.".to_owned())),
        }
    }

    /// Adds an analyzer under a new random identifier, which is returned; it comes last in the
    /// order of the analyzers.
    pub fn add_analyzer(&mut self, analyzer: A) -> (id: u128)
        requires
            old(self).wf(),
        ensures
            final(self).wf(),
            final(self).spec_analyzers() == old(self).spec_analyzers().insert(id, analyzer),
            !old(self).spec_analyzers().contains_key(id) ==> final(self).spec_order() == old(self).spec_order().push(id),
            old(self).spec_analyzers().contains_key(id) ==> final(self).spec_order() == old(self).spec_order(),
            final(self).spec_scenery() == old(self).spec_scenery(),
            final(self).spec_global_conf() == old(self).spec_global_conf(),
            final(self).spec_version() == old(self).spec_version(),
    {
        let id = new_id();
        self.insert_analyzer(id, analyzer);
        id
    }

    /// Stores an analyzer under the given identifier (as read back from a file), replacing one
    /// stored under it before; a new identifier comes last in the order of the analyzers.
    pub fn insert_analyzer(&mut self, id: u128, analyzer: A)
        requires
            old(self).wf(),
        ensures
            final(self).wf(),
            final(self).spec_analyzers() == old(self).spec_analyzers().insert(id, analyzer),
            !old(self).spec_analyzers().contains_key(id) ==> final(self).spec_order() == old(self).spec_order().push(id),
            old(self).spec_analyzers().contains_key(id) ==> final(self).spec_order() == old(self).spec_order(),
            final(self).spec_scenery() == old(self).spec_scenery(),
            final(self).spec_global_conf() == old(self).spec_global_conf(),
            final(self).spec_version() == old(self).spec_version(),
    {
        let known = self.analyzers.contains_key(&id);
        let ghost old_keys = self.analyzers@;
        self.analyzers.insert(id, analyzer);
        if !known {
            let ghost before = self.order@;
            assert(!before.contains(id));
            self.order.push(id);
            proof {
                assert forall|x: u128| #[trigger] self.order@.contains(x) <==> self.analyzers@.contains_key(x) by {
                    if self.order@.contains(x) && x != id {
                        let j = choose|j: int| 0 <= j < self.order@.len() && self.order@[j] == x;
                        assert(before[j] == x);
                    }
                    if before.contains(x) {
                        let j = choose|j: int| 0 <= j < before.len() && before[j] == x;
                        assert(self.order@[j] == x);
                    }
                    if x == id {
                        assert(self.order@[before.len() as int] == id);
                    }
                }
                assert forall|a: int, b: int| 0 <= a < b < self.order@.len() implies self.order@[a] != self.order@[b] by {
                    if b == before.len() {
                        assert(self.order@[a] == before[a]);
                    }
                }
            }
        } else {
            assert forall|x: u128| #[trigger] self.order@.contains(x) <==> self.analyzers@.contains_key(x) by {
                assert(self.analyzers@.contains_key(x) <==> old_keys.contains_key(x));
            }
        }
    }

    /// Removes the analyzer with the given identifier, also from the order of the analyzers.
    ///
    /// # Errors
    ///
    /// This function returns an error, leaving the analyzers unchanged, if there is no analyzer
    /// with this identifier.
    pub fn remove_analyzer(&mut self, id: u128) -> (r: OpmResult<()>)
        requires
            old(self).wf(),
        ensures
            final(self).wf(),
            r is Ok <==> old(self).spec_analyzers().contains_key(id),
            final(self).spec_analyzers() == old(self).spec_analyzers().remove(id),
            r is Ok ==> exists|i: int| 0 <= i < old(self).spec_order().len() && old(self).spec_order()[i] == id
                && final(self).spec_order() == old(self).spec_order().remove(i),
            r is Err ==> final(self).spec_order() == old(self).spec_order(),
            r matches Err(e) ==> e is OpmDocument,
            final(self).spec_scenery() == old(self).spec_scenery(),
            final(self).spec_global_conf() == old(self).spec_global_conf(),
            final(self).spec_version() == old(self).spec_version(),
    {
        if self.analyzers.remove(&id).is_some() {
            let ghost before = self.order@;
            assert(before.contains(id));
            let mut i: usize = 0;
            while i < self.order.len() && self.order[i] != id
                invariant
                    self.order@ == before,
                    before.contains(id),
                    i <= before.len(),
                    forall|j: int| 0 <= j < i ==> before[j] != id,
                decreases before.len() - i,
            {
                i = i + 1;
            }
            proof {
                if i == before.len() {
                    let j = choose|j: int| 0 <= j < before.len() && before[j] == id;
                    assert(before[j] != id);
                }
            }
            let _ = self.order.remove(i);
            proof {
                assert(before[i as int] == id);
                assert(old(self).spec_order() == before);
                assert(self.analyzers@ == old(self).spec_analyzers().remove(id));
                assert forall|x: u128| #[trigger] self.order@.contains(x) <==> self.analyzers@.contains_key(x) by {
                    if self.order@.contains(x) {
                        let j = choose|j: int| 0 <= j < self.order@.len() && self.order@[j] == x;
                        if j < i {
                            assert(before[j] == x);
                        } else {
                            assert(before[j + 1] == x);
                        }
                        assert(old(self).spec_order().contains(x));
                        assert(x != id);
                        assert(old(self).spec_analyzers().contains_key(x));
                    }
                    if self.analyzers@.contains_key(x) {
                        assert(old(self).spec_analyzers().contains_key(x));
                        assert(old(self).spec_order().contains(x));
                        assert(before.contains(x));
                        let j = choose|j: int| 0 <= j < before.len() && before[j] == x;
                        assert(j != i);
                        if j < i {
                            assert(self.order@[j] == x);
                        } else {
                            assert(self.order@[j - 1] == x);
                        }
                    }
                }
                assert forall|a: int, b: int| 0 <= a < b < self.order@.len() implies self.order@[a] != self.order@[b] by {
                    let a2 = if a < i { a } else { a + 1 };
                    let b2 = if b < i { b } else { b + 1 };
                    assert(self.order@[a] == before[a2]);
                    assert(self.order@[b] == before[b2]);
                }
            }
            Ok(())
        } else {
            assert(self.analyzers@ =~= old(self).analyzers@.remove(id));
            Err(OpossumError::OpmDocument("Analyzer with given Uuid not found".to_owned()))
        }
    }

    /// The scenery.
    pub fn scenery(&self) -> (s: &S)
        ensures
            *s == self.spec_scenery(),
    {
        &self.scenery
    }

    /// The scenery, to be changed in place.
    pub fn scenery_mut(&mut self) -> (s: &mut S)
        ensures
            *s == old(self).spec_scenery(),
            final(self).spec_scenery() == *final(s),
            final(self).spec_analyzers() == old(self).spec_analyzers(),
            final(self).spec_order() == old(self).spec_order(),
            final(self).spec_global_conf() == old(self).spec_global_conf(),
            final(self).spec_version() == old(self).spec_version(),
    {
        &mut self.scenery
    }

    /// Replaces the scenery.
    pub fn set_scenery(&mut self, scenery: S)
        ensures
            final(self).spec_scenery() == scenery,
            final(self).spec_analyzers() == old(self).spec_analyzers(),
            final(self).spec_order() == old(self).spec_order(),
            final(self).spec_global_conf() == old(self).spec_global_conf(),
            final(self).spec_version() == old(self).spec_version(),
    {
        self.scenery = scenery;
    }

    /// The scenery-wide resources.
    pub fn global_conf(&self) -> (r: &SceneryResources)
        ensures
            *r == self.spec_global_conf(),
    {
        &self.global_conf
    }

    /// Replaces the scenery-wide resources.
    pub fn set_global_conf(&mut self, rsrc: SceneryResources)
        ensures
            final(self).spec_global_conf() == rsrc,
            final(self).spec_scenery() == old(self).spec_scenery(),
            final(self).spec_analyzers() == old(self).spec_analyzers(),
            final(self).spec_order() == old(self).spec_order(),
            final(self).spec_version() == old(self).spec_version(),
    {
        self.global_conf = rsrc;
    }
}

} // verus!
