//! Input and output ports of optical elements.
//!
//! The optical ports represent the interfaces of an optical element; they define how nodes can be
//! connected to each other. Each port has a unique name (per direction), an [`Aperture`]
//! (`None` by default) and a [`CoatingType`] (`IdealAR` by default). Ports can be inverted: then
//! input and output ports are swapped.
use vstd::prelude::*;
use crate::error::{OpmResult, OpossumError};
use crate::name_map::NameMap;
use crate::optic_port::{Aperture, CoatingType, OpticPort, port_text};

verus! {

/// Direction of an optical port.
#[derive(Clone, Copy, Debug, PartialEq, Eq, Structural)]
pub enum PortType {
    /// Input port, receiving light.
    Input,
    /// Output port, sending light.
    Output,
}

/// The input and output ports of an optical node.
#[derive(Debug, Clone, PartialEq)]
pub struct OpticPorts {
    inputs: NameMap<OpticPort>,
    outputs: NameMap<OpticPort>,
    inverted: bool,
}

/// The listing of ports: one line `  <name> <port>` for each entry, in the order of the entries.
pub open spec fn listing(keys: Seq<Seq<char>>, ports: Seq<OpticPort>) -> Seq<char>
    decreases keys.len(),
{
    if keys.len() == 0 || ports.len() == 0 {
        Seq::empty()
    } else {
        listing(keys.drop_last(), ports.drop_last()) + "  <"@ + keys.last() + "> "@
            + port_text(ports.last()) + "\n"@
    }
}

impl OpticPorts {
    /// The stored table of the given direction, as it was filled (before inversion).
    pub closed spec fn stored(self, port_type: PortType) -> NameMap<OpticPort> {
        match port_type {
            PortType::Input => self.inputs,
            PortType::Output => self.outputs,
        }
    }

    /// Whether input and output ports are swapped.
    pub closed spec fn is_inverted(self) -> bool {
        self.inverted
    }

    /// The table seen as the given direction: the stored table of the opposite direction
    /// when the ports are inverted.
    pub open spec fn effective(self, port_type: PortType) -> NameMap<OpticPort> {
        if self.is_inverted() {
            match port_type {
                PortType::Input => self.stored(PortType::Output),
                PortType::Output => self.stored(PortType::Input),
            }
        } else {
            self.stored(port_type)
        }
    }

    /// The ports of the given direction, by name: the aperture and the coating of each port.
    pub open spec fn ports_view(self, port_type: PortType) -> Map<Seq<char>, (Aperture, CoatingType)> {
        self.effective(port_type).view().map_values(|p: OpticPort| p@)
    }

    /// The stored ports of the given direction (before inversion), by name.
    pub open spec fn stored_view(self, port_type: PortType) -> Map<Seq<char>, (Aperture, CoatingType)> {
        self.stored(port_type).view().map_values(|p: OpticPort| p@)
    }

    /// The port names of the given direction, in ascending order.
    pub open spec fn names_view(self, port_type: PortType) -> Seq<Seq<char>> {
        self.effective(port_type).keys()
    }

    /// Both tables are well-formed.
    pub open spec fn wf(self) -> bool {
        &&& self.stored(PortType::Input).wf()
        &&& self.stored(PortType::Output).wf()
    }

    /// The text of the port listing (see [`OpticPorts::to_string`]).
    pub open spec fn display_text(self) -> Seq<char> {
        let inp = self.effective(PortType::Input);
        let outp = self.effective(PortType::Output);
        "inputs:\n"@
            + (if self.stored(PortType::Input).keys().len() == 0 { "  None\n"@ } else {
                listing(inp.keys(), inp.values())
            })
            + "output:\n"@
            + (if self.stored(PortType::Output).keys().len() == 0 { "  None\n"@ } else {
                listing(outp.keys(), outp.values())
            })
            + (if self.is_inverted() { "ports are inverted\n"@ } else { Seq::empty() })
    }

    /// Creates a new (empty, non-inverted) set of ports.
    pub fn new() -> (p: Self)
        ensures
            p.wf(),
            !p.is_inverted(),
            p.stored(PortType::Input).view() == Map::<Seq<char>, OpticPort>::empty(),
            p.stored(PortType::Output).view() == Map::<Seq<char>, OpticPort>::empty(),
            p.stored(PortType::Input).keys().len() == 0,
            p.stored(PortType::Output).keys().len() == 0,
    {
        OpticPorts { inputs: NameMap::new(), outputs: NameMap::new(), inverted: false }
    }

    /// Adds a new port of the given direction with the given name, with the default aperture
    /// (`None`) and the default coating (`IdealAR`).
    ///
    /// The port is added to the stored table of the given direction, independently of the
    /// inversion. If a port of that name already exists, it is reset to the default port and an
    /// error is returned.
    pub fn add(&mut self, port_type: &PortType, name: &str) -> (r: OpmResult<()>)
        requires
            old(self).wf(),
        ensures
            final(self).wf(),
            final(self).is_inverted() == old(self).is_inverted(),
            final(self).stored_view(*port_type) == old(self).stored_view(*port_type).insert(
                name@,
                (Aperture::NoAperture, CoatingType::IdealAR),
            ),
            final(self).stored(other_type(*port_type)) == old(self).stored(other_type(*port_type)),
            r is Ok <==> !old(self).stored(*port_type).view().contains_key(name@),
            r is Ok ==> final(self).stored(*port_type).keys().len() == old(self).stored(*port_type).keys().len() + 1,
            r matches Err(e) ==> e is OpticPort,
    {
        let table = match port_type {
            PortType::Input => &mut self.inputs,
            PortType::Output => &mut self.outputs,
        };
        let prev = table.insert(name.to_owned(), OpticPort::default_port());
        if prev.is_none() {
            Ok(())
        } else {
            let mut msg = "port with name ".to_owned();
            msg.append(name);
            msg.append(" already exists");
            Err(OpossumError::OpticPort(msg))
        }
    }

    /// The ports of the given direction (taking the inversion into account).
    pub fn ports(&self, port_type: &PortType) -> (m: &NameMap<OpticPort>)
        ensures
            *m == self.effective(*port_type),
    {
        match (self.inverted, port_type) {
            (false, PortType::Input) | (true, PortType::Output) => &self.inputs,
            (false, PortType::Output) | (true, PortType::Input) => &self.outputs,
        }
    }

    /// The port names of the given direction (taking the inversion into account), in ascending
    /// order.
    pub fn names(&self, port_type: &PortType) -> (v: Vec<String>)
        ensures
            v@.map_values(|k: String| k@) == self.names_view(*port_type),
    {
        self.ports(port_type).key_list()
    }

    /// Sets the aperture of the port of the given direction (taking the inversion into account)
    /// and name. The port must exist.
    pub fn set_aperture(&mut self, port_type: &PortType, port_name: &str, aperture: &Aperture)
        -> (r: OpmResult<()>)
        requires
            old(self).wf(),
        ensures
            final(self).wf(),
            final(self).is_inverted() == old(self).is_inverted(),
            r is Ok <==> old(self).ports_view(*port_type).contains_key(port_name@),
            r matches Err(e) ==> e is OpticPort,
            r is Ok ==> final(self).ports_view(*port_type) == old(self).ports_view(*port_type).insert(
                port_name@,
                (*aperture, old(self).ports_view(*port_type)[port_name@].1),
            ),
            r is Ok ==> final(self).names_view(*port_type) == old(self).names_view(*port_type),
            r is Err ==> *final(self) == *old(self),
            final(self).effective(other_type(*port_type)) == old(self).effective(other_type(*port_type)),
    {
        let swap = self.inverted;
        let use_inputs = match port_type {
            PortType::Input => !swap,
            PortType::Output => swap,
        };
        let table = if use_inputs { &mut self.inputs } else { &mut self.outputs };
        match table.find(port_name) {
            Some(i) => {
                let mut port = *table.value_at(i);
                port.set_aperture(*aperture);
                table.set_value_at(i, port);
                Ok(())
            },
            None => {
                let mut msg = "port name <".to_owned();
                msg.append(port_name);
                msg.append("> does not exist");
                Err(OpossumError::OpticPort(msg))
            },
        }
    }

    /// Sets the coating of the port of the given direction (taking the inversion into account)
    /// and name. The port must exist.
    pub fn set_coating(&mut self, port_type: &PortType, port_name: &str, coating: &CoatingType)
        -> (r: OpmResult<()>)
        requires
            old(self).wf(),
        ensures
            final(self).wf(),
            final(self).is_inverted() == old(self).is_inverted(),
            r is Ok <==> old(self).ports_view(*port_type).contains_key(port_name@),
            r matches Err(e) ==> e is OpticPort,
            r is Ok ==> final(self).ports_view(*port_type) == old(self).ports_view(*port_type).insert(
                port_name@,
                (old(self).ports_view(*port_type)[port_name@].0, *coating),
            ),
            r is Ok ==> final(self).names_view(*port_type) == old(self).names_view(*port_type),
            r is Err ==> *final(self) == *old(self),
            final(self).effective(other_type(*port_type)) == old(self).effective(other_type(*port_type)),
    {
        let swap = self.inverted;
        let use_inputs = match port_type {
            PortType::Input => !swap,
            PortType::Output => swap,
        };
        let table = if use_inputs { &mut self.inputs } else { &mut self.outputs };
        match table.find(port_name) {
            Some(i) => {
                let mut port = *table.value_at(i);
                port.set_coating(*coating);
                table.set_value_at(i, port);
                Ok(())
            },
            None => {
                let mut msg = "port <".to_owned();
                msg.append(port_name);
                msg.append("> does not exist");
                Err(OpossumError::OpticPort(msg))
            },
        }
    }

    /// The aperture of the port of the given direction and name, if that port exists.
    pub fn aperture(&self, port_type: &PortType, port_name: &str) -> (r: Option<&Aperture>)
        requires
            self.wf(),
        ensures
            r is Some <==> self.ports_view(*port_type).contains_key(port_name@),
            r matches Some(a) ==> *a == self.ports_view(*port_type)[port_name@].0,
    {
        match self.ports(port_type).get(port_name) {
            Some(p) => Some(p.aperture()),
            None => None,
        }
    }

    /// The coating of the port of the given direction and name, if that port exists.
    pub fn coating(&self, port_type: &PortType, port_name: &str) -> (r: Option<&CoatingType>)
        requires
            self.wf(),
        ensures
            r is Some <==> self.ports_view(*port_type).contains_key(port_name@),
            r matches Some(c) ==> *c == self.ports_view(*port_type)[port_name@].1,
    {
        match self.ports(port_type).get(port_name) {
            Some(p) => Some(p.coating()),
            None => None,
        }
    }

    /// Marks the ports as inverted (input and output ports swapped) or not.
    pub fn set_inverted(&mut self, inverted: bool)
        ensures
            final(self).is_inverted() == inverted,
            final(self).stored(PortType::Input) == old(self).stored(PortType::Input),
            final(self).stored(PortType::Output) == old(self).stored(PortType::Output),
    {
        self.inverted = inverted;
    }

    /// Sets the apertures of the ports of this set from another set of ports: for each stored
    /// input port of `set_ports` (in ascending order of names) the aperture of the input port of
    /// the same name is set, then likewise for the output ports.
    ///
    /// This stops with an error at the first port name that is not found; the apertures set
    /// before stay set.
    pub fn set_apertures(&mut self, set_ports: Self) -> (r: OpmResult<()>)
        requires
            old(self).wf(),
            set_ports.wf(),
        ensures
            final(self).wf(),
            final(self).is_inverted() == old(self).is_inverted(),
            r is Ok <==> (forall|k: Seq<char>| set_ports.stored_view(PortType::Input).contains_key(k)
                ==> old(self).ports_view(PortType::Input).contains_key(k))
                && (forall|k: Seq<char>| set_ports.stored_view(PortType::Output).contains_key(k)
                ==> old(self).ports_view(PortType::Output).contains_key(k)),
            r is Ok ==> final(self).ports_view(PortType::Input) == apertures_from(
                old(self).ports_view(PortType::Input), set_ports.stored_view(PortType::Input)),
            r is Ok ==> final(self).ports_view(PortType::Output) == apertures_from(
                old(self).ports_view(PortType::Output), set_ports.stored_view(PortType::Output)),
            r matches Err(e) ==> e is OpticPort,
    {
        let ghost start = *self;
        proof {
            assert(set_ports.stored_view(PortType::Input).dom() =~= set_ports.inputs.view().dom());
            assert(set_ports.stored_view(PortType::Output).dom() =~= set_ports.outputs.view().dom());
            assert(set_ports.stored_view(PortType::Input) =~= set_ports.inputs.view().map_values(|p: OpticPort| p@));
            assert(set_ports.stored_view(PortType::Output) =~= set_ports.outputs.view().map_values(|p: OpticPort| p@));
        }
        let res = self.set_apertures_of(&PortType::Input, &set_ports.inputs);
        if res.is_err() {
            return res;
        }
        let ghost mid = *self;
        assert(mid.effective(PortType::Output) == start.effective(PortType::Output));
        let res2 = self.set_apertures_of(&PortType::Output, &set_ports.outputs);
        assert(self.effective(PortType::Input) == mid.effective(PortType::Input));
        res2
    }

    fn set_apertures_of(&mut self, port_type: &PortType, from: &NameMap<OpticPort>) -> (r: OpmResult<()>)
        requires
            old(self).wf(),
            from.wf(),
        ensures
            final(self).wf(),
            final(self).is_inverted() == old(self).is_inverted(),
            final(self).effective(other_type(*port_type)) == old(self).effective(other_type(*port_type)),
            r is Ok <==> (forall|k: Seq<char>| from.view().contains_key(k)
                ==> old(self).ports_view(*port_type).contains_key(k)),
            r is Ok ==> final(self).ports_view(*port_type) == apertures_from(
                old(self).ports_view(*port_type), from.view().map_values(|p: OpticPort| p@)),
            r matches Err(e) ==> e is OpticPort,
    {
        let ghost start = *self;
        let ghost src = from.view().map_values(|p: OpticPort| p@);
        let n = from.len();
        let mut i: usize = 0;
        while i < n
            invariant
                start == *old(self),
                src == from.view().map_values(|p: OpticPort| p@),
                self.wf(),
                from.wf(),
                n == from.keys().len(),
                i <= n,
                self.is_inverted() == start.is_inverted(),
                self.effective(other_type(*port_type)) == start.effective(other_type(*port_type)),
                forall|j: int| 0 <= j < i ==> start.ports_view(*port_type).contains_key(#[trigger] from.keys()[j]),
                self.ports_view(*port_type) == apertures_from(start.ports_view(*port_type),
                    src.restrict(Set::new(|k: Seq<char>| from.keys().take(i as int).contains(k)))),
            decreases n - i,
        {
            let name = from.key_at(i);
            let port = from.value_at(i);
            let ghost before = *self;
            let res = self.set_aperture(port_type, name.as_str(), port.aperture());
            proof {
                from.lemma_entry(i as int);
            }
            if res.is_err() {
                assert(*self == before);
                assert(self.is_inverted() == old(self).is_inverted());
                assert(self.effective(other_type(*port_type)) == old(self).effective(other_type(*port_type)));
                proof {
                    assert(!start.ports_view(*port_type).contains_key(from.keys()[i as int]));
                    assert(from.view().contains_key(from.keys()[i as int]));
                }
                return res;
            }
            proof {
                let key = from.keys()[i as int];
                let s0 = Set::new(|k: Seq<char>| from.keys().take(i as int).contains(k));
                let s1 = Set::new(|k: Seq<char>| from.keys().take(i + 1).contains(k));
                assert forall|k: Seq<char>| s1.contains(k) == (s0.contains(k) || k == key) by {
                    if from.keys().take(i + 1).contains(k) {
                        let j = choose|j: int| 0 <= j < i + 1 && #[trigger] from.keys().take(i + 1)[j] == k;
                        if j < i {
                            assert(from.keys().take(i as int)[j] == k);
                        }
                    }
                    if s0.contains(k) {
                        let j = choose|j: int| 0 <= j < i && #[trigger] from.keys().take(i as int)[j] == k;
                        assert(from.keys().take(i + 1)[j] == k);
                    }
                    if k == key {
                        assert(from.keys().take(i + 1)[i as int] == k);
                    }
                }
                assert(!s0.contains(key)) by {
                    if s0.contains(key) {
                        let j = choose|j: int| 0 <= j < i && #[trigger] from.keys().take(i as int)[j] == key;
                        assert(from.keys()[j] == key);
                        crate::text_order::lemma_sorted_unique(from.keys(), j, i as int);
                    }
                }
                assert(src.contains_key(key));
                assert(src[key] == from.values()[i as int]@);
                assert(self.ports_view(*port_type) =~= apertures_from(start.ports_view(*port_type),
                    src.restrict(s1)));
            }
            i = i + 1;
        }
        proof {
            assert(from.keys().take(n as int) =~= from.keys());
            assert forall|k: Seq<char>| from.view().contains_key(k) implies
                start.ports_view(*port_type).contains_key(k) by {
                let j = from.keys().index_of(k);
                assert(from.keys().contains(k));
            }
            let sall = Set::new(|k: Seq<char>| from.keys().take(n as int).contains(k));
            assert forall|k: Seq<char>| src.contains_key(k) implies sall.contains(k) by {
                assert(from.keys().contains(k));
            }
            assert(src.restrict(sall) =~= src);
        }
        Ok(())
    }

    /// The text listing the ports: `inputs:`, one line `  <name> <port>` per input port (or
    /// `  None` if there is none), `output:`, the same for the output ports, and
    /// `ports are inverted` if the ports are inverted; each line ends with a newline.
    pub fn to_string(&self) -> (s: String)
        requires
            self.wf(),
        ensures
            s@ == self.display_text(),
    {
        let mut s = "inputs:\n".to_owned();
        if self.inputs.is_empty() {
            s.append("  None\n");
        } else {
            append_listing(&mut s, self.ports(&PortType::Input));
        }
        s.append("output:\n");
        if self.outputs.is_empty() {
            s.append("  None\n");
        } else {
            append_listing(&mut s, self.ports(&PortType::Output));
        }
        if self.inverted {
            s.append("ports are inverted\n");
        }
        s
    }

    /// A copy of these ports.
    pub fn duplicate(&self) -> (p: Self)
        ensures
            p.same_as(*self),
            p.wf() == self.wf(),
    {
        let inputs = self.inputs.duplicate();
        let outputs = self.outputs.duplicate();
        OpticPorts { inputs, outputs, inverted: self.inverted }
    }

    /// Both sets of ports hold the same ports under the same names and the same inversion.
    pub open spec fn same_as(self, other: Self) -> bool {
        &&& self.is_inverted() == other.is_inverted()
        &&& self.stored(PortType::Input).keys() == other.stored(PortType::Input).keys()
        &&& self.stored(PortType::Input).values() == other.stored(PortType::Input).values()
        &&& self.stored(PortType::Output).keys() == other.stored(PortType::Output).keys()
        &&& self.stored(PortType::Output).values() == other.stored(PortType::Output).values()
    }

    /// Whether input and output ports are swapped.
    pub fn inverted(&self) -> (b: bool)
        ensures
            b == self.is_inverted(),
    {
        self.inverted
    }
}

/// The ports of `ports` with the apertures of `from` set for the names in `from`.
pub open spec fn apertures_from(
    ports: Map<Seq<char>, (Aperture, CoatingType)>,
    from: Map<Seq<char>, (Aperture, CoatingType)>,
) -> Map<Seq<char>, (Aperture, CoatingType)> {
    Map::new(
        |k: Seq<char>| ports.contains_key(k),
        |k: Seq<char>| if from.contains_key(k) { (from[k].0, ports[k].1) } else { ports[k] },
    )
}

fn append_listing(s: &mut String, m: &NameMap<OpticPort>)
    requires
        m.wf(),
    ensures
        final(s)@ == old(s)@ + listing(m.keys(), m.values()),
{
    let n = m.len();
    let mut i: usize = 0;
    while i < n
        invariant
            m.wf(),
            n == m.keys().len(),
            i <= n,
            s@ == old(s)@ + listing(m.keys().take(i as int), m.values().take(i as int)),
        decreases n - i,
    {
        s.append("  <");
        s.append(m.key_at(i).as_str());
        s.append("> ");
        s.append(m.value_at(i).debug_text().as_str());
        s.append("\n");
        proof {
            let kt = m.keys().take(i + 1);
            let vt = m.values().take(i + 1);
            assert(kt.drop_last() =~= m.keys().take(i as int));
            assert(vt.drop_last() =~= m.values().take(i as int));
        }
        i = i + 1;
    }
    assert(m.keys().take(n as int) =~= m.keys());
    assert(m.values().take(n as int) =~= m.values());
}

/// Inverted ports swap inputs and outputs: the input ports seen from outside are the stored
/// output ports and vice versa; ports that are not inverted are seen as stored.
pub proof fn lemma_inversion_swaps(p: OpticPorts, port_type: PortType)
    ensures
        p.is_inverted() ==> p.ports_view(port_type) == p.stored_view(other_type(port_type)),
        !p.is_inverted() ==> p.ports_view(port_type) == p.stored_view(port_type),
{
    match port_type {
        PortType::Input => {},
        PortType::Output => {},
    }
}

/// The opposite direction.
pub open spec fn other_type(port_type: PortType) -> PortType {
    match port_type {
        PortType::Input => PortType::Output,
        PortType::Output => PortType::Input,
    }
}

} // verus!
