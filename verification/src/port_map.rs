//! The mapping of the externally visible port names of a group of nodes to the ports of the
//! nodes inside the group.
use vstd::prelude::*;
use crate::error::{OpmResult, OpossumError};
use crate::name_map::NameMap;
use crate::text_order::str_eq;

verus! {

/// A node and one of its port names, as an abstract value.
pub open spec fn target_view(t: (u128, String)) -> (u128, Seq<char>) {
    (t.0, t.1@)
}

/// The (external name, internal name) pairs of the entries that lead to the given node, in the
/// order of the entries.
pub open spec fn assigned(names: Seq<Seq<char>>, targets: Seq<(u128, Seq<char>)>, node_id: u128)
    -> Seq<(Seq<char>, Seq<char>)>
    decreases names.len(),
{
    if names.len() == 0 || targets.len() == 0 {
        Seq::empty()
    } else {
        let rest = assigned(names.drop_last(), targets.drop_last(), node_id);
        if targets.last().0 == node_id { rest.push((names.last(), targets.last().1)) } else { rest }
    }
}

/// A map from external port names to (node identifier, internal port name) pairs.
///
/// The entries are kept in ascending order of their external names; searches by node and
/// internal name find the entry with the smallest external name.
#[derive(Debug, Clone)]
pub struct PortMap {
    ports: NameMap<(u128, String)>,
}

impl PortMap {
    /// The map from external port names to nodes and internal port names.
    pub open spec fn view(self) -> Map<Seq<char>, (u128, Seq<char>)> {
        self.table().view().map_values(|t: (u128, String)| target_view(t))
    }

    /// The table of entries.
    pub closed spec fn table(self) -> NameMap<(u128, String)> {
        self.ports
    }

    /// The external port names, in ascending order.
    pub open spec fn names(self) -> Seq<Seq<char>> {
        self.table().keys()
    }

    /// The targets of the entries, in the order of the names.
    pub open spec fn targets(self) -> Seq<(u128, Seq<char>)> {
        self.table().values().map_values(|t: (u128, String)| target_view(t))
    }

    /// Well-formedness: the table is well-formed.
    pub open spec fn wf(self) -> bool {
        self.table().wf()
    }

    /// Creates an empty port map.
    pub fn new() -> (m: Self)
        ensures
            m.wf(),
            m.view() == Map::<Seq<char>, (u128, Seq<char>)>::empty(),
            m.names() == Seq::<Seq<char>>::empty(),
    {
        let m = PortMap { ports: NameMap::new() };
        assert(m.view() =~= Map::<Seq<char>, (u128, Seq<char>)>::empty());
        m
    }

    /// Maps an external port name to the given port of the given node, replacing an earlier
    /// mapping of that name.
    ///
    /// # Errors
    ///
    /// This function returns an error if the external or the internal port name is empty.
    pub fn add(&mut self, external_name: &str, node_id: u128, internal_name: &str) -> (r: OpmResult<()>)
        requires
            old(self).wf(),
        ensures
            final(self).wf(),
            r is Ok <==> external_name@.len() > 0 && internal_name@.len() > 0,
            r matches Err(e) ==> e is OpticPort,
            r is Ok ==> final(self).view() == old(self).view().insert(external_name@, (node_id, internal_name@)),
            r is Err ==> final(self).view() == old(self).view(),
    {
        if external_name.is_empty() || internal_name.is_empty() {
            return Err(OpossumError::OpticPort("internal and external port names must not be empty".to_owned()));
        }
        let ghost before = self.ports.view();
        let _ = self.ports.insert(external_name.to_owned(), (node_id, internal_name.to_owned()));
        assert(self.view() =~= old(self).view().insert(external_name@, (node_id, internal_name@)));
        Ok(())
    }

    /// Position of the first entry leading to the given port of the given node.
    fn position_of(&self, node_id: u128, internal_port_name: &str) -> (r: Option<usize>)
        requires
            self.wf(),
        ensures
            r is None <==> forall|i: int| 0 <= i < self.targets().len()
                ==> #[trigger] self.targets()[i] != (node_id, internal_port_name@),
            r matches Some(i) ==> i < self.targets().len()
                && self.targets()[i as int] == (node_id, internal_port_name@)
                && forall|j: int| 0 <= j < i ==> #[trigger] self.targets()[j] != (node_id, internal_port_name@),
    {
        let n = self.ports.len();
        let mut i: usize = 0;
        while i < n
            invariant
                self.wf(),
                n == self.table().keys().len(),
                self.table().keys().len() == self.table().values().len(),
                i <= n,
                forall|j: int| 0 <= j < i ==> #[trigger] self.targets()[j] != (node_id, internal_port_name@),
            decreases n - i,
        {
            let t = self.ports.value_at(i);
            if t.0 == node_id && str_eq(t.1.as_str(), internal_port_name) {
                assert(self.targets()[i as int] == target_view(*t));
                return Some(i);
            }
            i = i + 1;
        }
        None
    }

    /// Removes the mapping leading to the given port of the given node (the one with the
    /// smallest external name, if there are several). Returns `true` iff such a mapping
    /// existed; otherwise the map stays as it was.
    pub fn remove(&mut self, node_id: u128, internal_port_name: &str) -> (b: bool)
        requires
            old(self).wf(),
        ensures
            final(self).wf(),
            b == exists|i: int| 0 <= i < old(self).targets().len()
                && #[trigger] old(self).targets()[i] == (node_id, internal_port_name@),
            b ==> exists|i: int| 0 <= i < old(self).targets().len()
                && #[trigger] old(self).targets()[i] == (node_id, internal_port_name@)
                && (forall|j: int| 0 <= j < i ==> old(self).targets()[j] != (node_id, internal_port_name@))
                && final(self).view() == old(self).view().remove(old(self).names()[i]),
            !b ==> final(self).view() == old(self).view(),
    {
        match self.position_of(node_id, internal_port_name) {
            Some(i) => {
                let key = self.ports.key_at(i).clone();
                proof { self.ports.lemma_entry(i as int); }
                let _ = self.ports.remove(key.as_str());
                assert(self.view() =~= old(self).view().remove(old(self).names()[i as int]));
                true
            },
            None => false,
        }
    }

    /// Removes all mappings leading to the given node. Returns `true` iff there was one.
    pub fn remove_all_from_uuid(&mut self, node_id: u128) -> (b: bool)
        requires
            old(self).wf(),
        ensures
            final(self).wf(),
            b == exists|k: Seq<char>| #[trigger] old(self).view().contains_key(k) && old(self).view()[k].0 == node_id,
            final(self).view() == old(self).view().restrict(
                Set::new(|k: Seq<char>| old(self).view().contains_key(k) && old(self).view()[k].0 != node_id),
            ),
    {
        let ghost old_table = self.ports;
        proof { old_table.lemma_all_entries(); }
        let mut kept: NameMap<(u128, String)> = NameMap::new();
        let mut removed = false;
        let n = self.ports.len();
        let mut i: usize = 0;
        while i < n
            invariant
                old_table == self.ports,
                old_table.wf(),
                kept.wf(),
                n == old_table.keys().len(),
                old_table.keys().len() == old_table.values().len(),
                old_table.keys().no_duplicates(),
                forall|j: int| 0 <= j < old_table.keys().len() ==> old_table.view().contains_key(#[trigger] old_table.keys()[j])
                    && old_table.view()[old_table.keys()[j]] == old_table.values()[j],
                i <= n,
                kept.view() == old_table.view().restrict(Set::new(|k: Seq<char>|
                    old_table.keys().take(i as int).contains(k) && old_table.view()[k].0 != node_id)),
                removed == exists|j: int| 0 <= j < i && (#[trigger] old_table.values()[j]).0 == node_id,
            decreases n - i,
        {
            let t = self.ports.value_at(i);
            let ghost k = old_table.keys()[i as int];
            assert(old_table.view()[k] == old_table.values()[i as int]);
            let ghost kept_before = kept.view();
            if t.0 != node_id {
                let name = self.ports.key_at(i).clone();
                let value = (t.0, t.1.clone());
                assert(value == *t);
                let _ = kept.insert(name, value);
                assert(kept.view() == kept_before.insert(k, old_table.view()[k]));
            } else {
                removed = true;
                assert(kept.view() == kept_before);
            }
            proof {
                assert(old_table.keys().take(i + 1) =~= old_table.keys().take(i as int).push(k));
                assert(!old_table.keys().take(i as int).contains(k)) by {
                    if old_table.keys().take(i as int).contains(k) {
                        let j = old_table.keys().take(i as int).index_of(k);
                        assert(old_table.keys()[j] == old_table.keys()[i as int]);
                    }
                }
                let s0 = old_table.keys().take(i as int);
                let s1 = old_table.keys().take(i + 1);
                assert forall|k2: Seq<char>| s1.contains(k2) == (s0.contains(k2) || k2 == k) by {
                    if s1.contains(k2) {
                        let j = choose|j: int| 0 <= j < s1.len() && s1[j] == k2;
                        if j < i {
                            assert(s0[j] == k2);
                        }
                    }
                    if s0.contains(k2) {
                        let j = choose|j: int| 0 <= j < s0.len() && s0[j] == k2;
                        assert(s1[j] == k2);
                    }
                    if k2 == k {
                        assert(s1[i as int] == k);
                    }
                }
                assert(kept.view() =~= old_table.view().restrict(Set::new(|k2: Seq<char>|
                    old_table.keys().take(i + 1).contains(k2) && old_table.view()[k2].0 != node_id)));
            }
            i = i + 1;
        }
        proof {
            assert(old_table.keys().take(n as int) =~= old_table.keys());
            if removed {
                let j = choose|j: int| 0 <= j < n && (#[trigger] old_table.values()[j]).0 == node_id;
                assert(old(self).view().contains_key(old_table.keys()[j]));
            }
            if exists|k: Seq<char>| #[trigger] old(self).view().contains_key(k) && old(self).view()[k].0 == node_id {
                let k = choose|k: Seq<char>| #[trigger] old(self).view().contains_key(k) && old(self).view()[k].0 == node_id;
                let j = old_table.keys().index_of(k);
                assert(old_table.values()[j].0 == node_id);
            }
        }
        self.ports = kept;
        assert(self.view() =~= old(self).view().restrict(
            Set::new(|k: Seq<char>| old(self).view().contains_key(k) && old(self).view()[k].0 != node_id)));
        removed
    }

    /// The external port names, in ascending order.
    pub fn port_names(&self) -> (v: Vec<String>)
        ensures
            v@.map_values(|s: String| s@) == self.names(),
    {
        self.ports.key_list()
    }

    /// The node and internal port name mapped to the given external port name, if any.
    pub fn get(&self, port_name: &str) -> (r: Option<&(u128, String)>)
        requires
            self.wf(),
        ensures
            r is Some <==> self.view().contains_key(port_name@),
            r matches Some(t) ==> target_view(*t) == self.view()[port_name@],
    {
        self.ports.get(port_name)
    }

    /// The external name of the first mapping (in ascending order of names) leading to the
    /// given port of the given node, or `None` if there is none.
    pub fn external_port_name(&self, node_id: u128, internal_port_name: &str) -> (r: Option<String>)
        requires
            self.wf(),
        ensures
            r is None <==> forall|i: int| 0 <= i < self.targets().len()
                ==> #[trigger] self.targets()[i] != (node_id, internal_port_name@),
            r matches Some(s) ==> exists|i: int| 0 <= i < self.targets().len()
                && #[trigger] self.targets()[i] == (node_id, internal_port_name@)
                && (forall|j: int| 0 <= j < i ==> self.targets()[j] != (node_id, internal_port_name@))
                && s@ == self.names()[i],
    {
        match self.position_of(node_id, internal_port_name) {
            Some(i) => Some(self.ports.key_at(i).clone()),
            None => None,
        }
    }

    /// Whether the given external port name is mapped.
    pub fn contains_external_name(&self, name: &str) -> (b: bool)
        requires
            self.wf(),
        ensures
            b == self.view().contains_key(name@),
    {
        self.ports.contains_key(name)
    }

    /// Whether a mapping leads to the given node.
    pub fn contains_node(&self, node_id: u128) -> (b: bool)
        requires
            self.wf(),
        ensures
            b == exists|i: int| 0 <= i < self.targets().len() && (#[trigger] self.targets()[i]).0 == node_id,
    {
        let n = self.ports.len();
        let mut i: usize = 0;
        while i < n
            invariant
                self.wf(),
                n == self.table().keys().len(),
                self.table().keys().len() == self.table().values().len(),
                i <= n,
                forall|j: int| 0 <= j < i ==> (#[trigger] self.targets()[j]).0 != node_id,
            decreases n - i,
        {
            if self.ports.value_at(i).0 == node_id {
                assert(self.targets()[i as int].0 == node_id);
                return true;
            }
            i = i + 1;
        }
        false
    }

    /// The (external name, internal name) pairs of the mappings leading to the given node, in
    /// ascending order of external names.
    pub fn assigned_ports_for_node(&self, node_id: u128) -> (v: Vec<(String, String)>)
        requires
            self.wf(),
        ensures
            v@.map_values(|p: (String, String)| (p.0@, p.1@)) == assigned(self.names(), self.targets(), node_id),
    {
        let n = self.ports.len();
        let mut v: Vec<(String, String)> = Vec::new();
        let mut i: usize = 0;
        while i < n
            invariant
                self.wf(),
                n == self.table().keys().len(),
                self.table().keys().len() == self.table().values().len(),
                i <= n,
                v@.map_values(|p: (String, String)| (p.0@, p.1@))
                    == assigned(self.names().take(i as int), self.targets().take(i as int), node_id),
            decreases n - i,
        {
            let t = self.ports.value_at(i);
            proof {
                assert(self.names().take(i + 1).drop_last() =~= self.names().take(i as int));
                assert(self.targets().take(i + 1).drop_last() =~= self.targets().take(i as int));
            }
            if t.0 == node_id {
                v.push((self.ports.key_at(i).clone(), t.1.clone()));
                assert(v@.map_values(|p: (String, String)| (p.0@, p.1@))
                    =~= assigned(self.names().take(i + 1), self.targets().take(i + 1), node_id));
            }
            i = i + 1;
        }
        proof {
            assert(self.names().take(n as int) =~= self.names());
            assert(self.targets().take(n as int) =~= self.targets());
        }
        v
    }

    /// The number of mappings.
    pub fn len(&self) -> (n: usize)
        requires
            self.wf(),
        ensures
            n == self.view().len(),
    {
        proof { self.lemma_len(); }
        self.ports.len()
    }

    /// The number of mappings is the number of names.
    proof fn lemma_len(self)
        requires
            self.wf(),
        ensures
            self.view().len() == self.names().len(),
    {
        self.ports.lemma_all_entries();
        assert(self.view().dom() =~= self.names().to_set());
        self.names().unique_seq_to_set();
    }
}

impl Default for PortMap {
    /// An empty port map.
    fn default() -> (m: Self)
        ensures
            m.wf(),
            m.view() == Map::<Seq<char>, (u128, Seq<char>)>::empty(),
    {
        PortMap::new()
    }
}

} // verus!
