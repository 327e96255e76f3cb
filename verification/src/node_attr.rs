//! The common attributes of an optical node: identifier, name, type, ports and properties.
use vstd::prelude::*;
use crate::error::OpmResult;
use crate::ids::new_id;
use crate::optic_port::{Aperture, CoatingType, OpticPort};
use crate::optic_ports::{OpticPorts, PortType, other_type};
use crate::properties::{Properties, Property, Proptype, kind, updated_value};
use crate::optic_ports::apertures_from;
use crate::text_order::str_eq;

verus! {

/// The common attributes of an optical node.
///
/// The inversion of a node (propagation in reverse direction) is its boolean property
/// `inverted`, created with every node.
#[derive(Debug, Clone)]
pub struct NodeAttr {
    uuid: u128,
    name: String,
    node_type: String,
    ports: OpticPorts,
    props: Properties,
    is_detector: bool,
}

impl NodeAttr {
    /// The identifier of the node.
    pub closed spec fn spec_uuid(self) -> u128 {
        self.uuid
    }

    /// The name of the node.
    pub closed spec fn spec_name(self) -> Seq<char> {
        self.name@
    }

    /// The type of the node.
    pub closed spec fn spec_node_type(self) -> Seq<char> {
        self.node_type@
    }

    /// The ports of the node as stored (before the node's inversion is applied).
    pub closed spec fn stored_ports(self) -> OpticPorts {
        self.ports
    }

    /// The properties of the node.
    pub closed spec fn spec_props(self) -> Properties {
        self.props
    }

    /// Whether the node is a detector.
    pub closed spec fn spec_is_detector(self) -> bool {
        self.is_detector
    }

    /// Whether the node is inverted: the value of its boolean property `inverted`.
    pub open spec fn spec_inverted(self) -> bool {
        self.spec_props().value_of("inverted"@) == Proptype::Bool(true)
    }

    /// The ports of the node as seen from outside: the stored ports, inverted if the node is.
    pub open spec fn effective_ports(self, port_type: PortType) -> Map<Seq<char>, (Aperture, CoatingType)> {
        let p = self.stored_ports();
        if self.spec_inverted() {
            p.stored_view(other_type(port_type))
        } else {
            p.ports_view(port_type)
        }
    }

    /// The names of the ports of the node as seen from outside, in ascending order.
    pub open spec fn effective_names(self, port_type: PortType) -> Seq<Seq<char>> {
        let p = self.stored_ports();
        if self.spec_inverted() {
            p.stored(other_type(port_type)).keys()
        } else {
            p.names_view(port_type)
        }
    }

    /// Well-formedness: ports and properties are well-formed and the boolean property
    /// `inverted` exists.
    pub open spec fn wf(self) -> bool {
        &&& self.stored_ports().wf()
        &&& self.spec_props().wf()
        &&& self.spec_props().view().contains_key("inverted"@)
        &&& self.spec_props().value_of("inverted"@) is Bool
    }

    /// Creates the attributes of a new node of the given type: named after its type, with a new
    /// random identifier, no ports, and the single property `inverted` set to `false`.
    pub fn new(node_type: &str, is_detector: bool) -> (a: Self)
        ensures
            a.wf(),
            a.spec_name() == node_type@,
            a.spec_node_type() == node_type@,
            a.spec_is_detector() == is_detector,
            !a.spec_inverted(),
            a.spec_props().view().dom() == set!["inverted"@],
            a.stored_ports().stored_view(PortType::Input).dom().is_empty(),
            a.stored_ports().stored_view(PortType::Output).dom().is_empty(),
            !a.stored_ports().is_inverted(),
    {
        let mut props = Properties::new();
        let r = props.create("inverted", "inverse propagation?", Proptype::Bool(false));
        assert(r is Ok);
        let ports = OpticPorts::new();
        assert(ports.stored_view(PortType::Input).dom() =~= Set::empty());
        assert(ports.stored_view(PortType::Output).dom() =~= Set::empty());
        assert(props.view().dom() =~= set!["inverted"@]);
        NodeAttr {
            uuid: new_id(),
            name: node_type.to_owned(),
            node_type: node_type.to_owned(),
            ports,
            props,
            is_detector,
        }
    }

    /// The identifier of the node.
    pub fn uuid(&self) -> (id: u128)
        ensures
            id == self.spec_uuid(),
    {
        self.uuid
    }

    /// Sets the identifier of the node.
    pub fn set_uuid(&mut self, uuid: u128)
        ensures
            final(self).spec_uuid() == uuid,
            final(self).spec_name() == old(self).spec_name(),
            final(self).spec_node_type() == old(self).spec_node_type(),
            final(self).stored_ports() == old(self).stored_ports(),
            final(self).spec_props() == old(self).spec_props(),
            final(self).spec_is_detector() == old(self).spec_is_detector(),
    {
        self.uuid = uuid;
    }

    /// The name of the node.
    pub fn name(&self) -> (n: &str)
        ensures
            n@ == self.spec_name(),
    {
        self.name.as_str()
    }

    /// Sets the name of the node.
    pub fn set_name(&mut self, name: &str)
        ensures
            final(self).spec_name() == name@,
            final(self).spec_uuid() == old(self).spec_uuid(),
            final(self).spec_node_type() == old(self).spec_node_type(),
            final(self).stored_ports() == old(self).stored_ports(),
            final(self).spec_props() == old(self).spec_props(),
            final(self).spec_is_detector() == old(self).spec_is_detector(),
    {
        self.name = name.to_owned();
    }

    /// The type of the node.
    pub fn node_type(&self) -> (t: &str)
        ensures
            t@ == self.spec_node_type(),
    {
        self.node_type.as_str()
    }

    /// Whether the node is a detector.
    pub fn is_detector(&self) -> (b: bool)
        ensures
            b == self.spec_is_detector(),
    {
        self.is_detector
    }

    /// Whether the node is inverted.
    pub fn inverted(&self) -> (b: bool)
        requires
            self.wf(),
        ensures
            b == self.spec_inverted(),
    {
        match self.props.get("inverted") {
            Ok(Proptype::Bool(b)) => *b,
            _ => false,
        }
    }

    /// Marks the node as inverted or not.
    pub fn set_inverted(&mut self, inverted: bool)
        requires
            old(self).wf(),
        ensures
            final(self).wf(),
            final(self).spec_inverted() == inverted,
            final(self).spec_props().view().dom() == old(self).spec_props().view().dom(),
            final(self).spec_props().view().remove("inverted"@) == old(self).spec_props().view().remove("inverted"@),
            final(self).spec_uuid() == old(self).spec_uuid(),
            final(self).spec_name() == old(self).spec_name(),
            final(self).spec_node_type() == old(self).spec_node_type(),
            final(self).stored_ports() == old(self).stored_ports(),
            final(self).spec_is_detector() == old(self).spec_is_detector(),
    {
        let r = self.props.set("inverted", Proptype::Bool(inverted));
        assert(r is Ok);
    }

    /// The properties of the node.
    pub fn properties(&self) -> (p: &Properties)
        ensures
            *p == self.spec_props(),
    {
        &self.props
    }

    /// The ports of the node as stored.
    pub fn stored_ports_ref(&self) -> (p: &OpticPorts)
        ensures
            *p == self.stored_ports(),
    {
        &self.ports
    }

    /// The ports of the node: a copy of the stored ports, marked as inverted if the node is
    /// inverted.
    pub fn ports(&self) -> (p: OpticPorts)
        requires
            self.wf(),
        ensures
            p.wf(),
            p.stored(PortType::Input).keys() == self.stored_ports().stored(PortType::Input).keys(),
            p.stored(PortType::Output).keys() == self.stored_ports().stored(PortType::Output).keys(),
            p.stored(PortType::Input).values() == self.stored_ports().stored(PortType::Input).values(),
            p.stored(PortType::Output).values() == self.stored_ports().stored(PortType::Output).values(),
            p.is_inverted() == (self.stored_ports().is_inverted() || self.spec_inverted()),
            p.ports_view(PortType::Input) == self.effective_ports(PortType::Input),
            p.ports_view(PortType::Output) == self.effective_ports(PortType::Output),
            p.names_view(PortType::Input) == self.effective_names(PortType::Input),
            p.names_view(PortType::Output) == self.effective_names(PortType::Output),
    {
        let mut p = self.ports.duplicate();
        if self.inverted() {
            p.set_inverted(true);
        }
        proof {
            p.stored(PortType::Input).lemma_same_view(self.ports.stored(PortType::Input));
            p.stored(PortType::Output).lemma_same_view(self.ports.stored(PortType::Output));
        }
        p
    }

    /// Whether the node has a port of the given direction (taking its inversion into account)
    /// and name.
    pub fn has_port(&self, port_type: &PortType, name: &str) -> (b: bool)
        requires
            self.wf(),
        ensures
            b == self.effective_ports(*port_type).contains_key(name@),
    {
        let p = self.ports();
        p.ports(port_type).contains_key(name)
    }

    /// Replaces the stored ports of the node.
    pub fn set_ports(&mut self, ports: OpticPorts)
        ensures
            final(self).stored_ports() == ports,
            final(self).spec_uuid() == old(self).spec_uuid(),
            final(self).spec_name() == old(self).spec_name(),
            final(self).spec_node_type() == old(self).spec_node_type(),
            final(self).spec_props() == old(self).spec_props(),
            final(self).spec_is_detector() == old(self).spec_is_detector(),
    {
        self.ports = ports;
    }

    /// Sets the aperture of the port of the given direction (as seen from outside, i.e. taking
    /// the node's inversion into account) and name. The ports are stored back marked as
    /// inverted if the node is inverted.
    pub fn set_aperture(&mut self, port_type: &PortType, port_name: &str, aperture: &Aperture)
        -> (r: OpmResult<()>)
        requires
            old(self).wf(),
        ensures
            final(self).wf(),
            r is Ok <==> old(self).effective_ports(*port_type).contains_key(port_name@),
            r matches Err(e) ==> e is OpticPort,
            r is Ok ==> final(self).effective_ports(*port_type) == old(self).effective_ports(*port_type).insert(
                port_name@,
                (*aperture, old(self).effective_ports(*port_type)[port_name@].1),
            ),
            r is Err ==> *final(self) == *old(self),
            final(self).effective_ports(other_type(*port_type)) == old(self).effective_ports(other_type(*port_type)),
            final(self).stored_ports().stored(PortType::Input).keys() == old(self).stored_ports().stored(PortType::Input).keys(),
            final(self).stored_ports().stored(PortType::Output).keys() == old(self).stored_ports().stored(PortType::Output).keys(),
            final(self).spec_uuid() == old(self).spec_uuid(),
            final(self).spec_name() == old(self).spec_name(),
            final(self).spec_node_type() == old(self).spec_node_type(),
            final(self).spec_props() == old(self).spec_props(),
            final(self).spec_is_detector() == old(self).spec_is_detector(),
    {
        let mut ports = self.ports();
        let ghost before = ports;
        let r = ports.set_aperture(port_type, port_name, aperture);
        if r.is_err() {
            return r;
        }
        proof { self.lemma_effective_after_update(before, ports, *port_type); }
        self.ports = ports;
        r
    }

    /// Sets the coating of the port of the given direction (as seen from outside, i.e. taking
    /// the node's inversion into account) and name. The ports are stored back marked as
    /// inverted if the node is inverted.
    pub fn set_coating(&mut self, port_type: &PortType, port_name: &str, coating: &CoatingType)
        -> (r: OpmResult<()>)
        requires
            old(self).wf(),
        ensures
            final(self).wf(),
            r is Ok <==> old(self).effective_ports(*port_type).contains_key(port_name@),
            r matches Err(e) ==> e is OpticPort,
            r is Ok ==> final(self).effective_ports(*port_type) == old(self).effective_ports(*port_type).insert(
                port_name@,
                (old(self).effective_ports(*port_type)[port_name@].0, *coating),
            ),
            r is Err ==> *final(self) == *old(self),
            final(self).effective_ports(other_type(*port_type)) == old(self).effective_ports(other_type(*port_type)),
            final(self).stored_ports().stored(PortType::Input).keys() == old(self).stored_ports().stored(PortType::Input).keys(),
            final(self).stored_ports().stored(PortType::Output).keys() == old(self).stored_ports().stored(PortType::Output).keys(),
            final(self).spec_uuid() == old(self).spec_uuid(),
            final(self).spec_name() == old(self).spec_name(),
            final(self).spec_node_type() == old(self).spec_node_type(),
            final(self).spec_props() == old(self).spec_props(),
            final(self).spec_is_detector() == old(self).spec_is_detector(),
    {
        let mut ports = self.ports();
        let ghost before = ports;
        let r = ports.set_coating(port_type, port_name, coating);
        if r.is_err() {
            return r;
        }
        proof { self.lemma_effective_after_update(before, ports, *port_type); }
        self.ports = ports;
        r
    }

    /// Ports taken from the node (marked inverted with it) and changed in one direction only
    /// give, stored back, the changed ports as the node's ports of that direction, and the
    /// node's ports of the other direction unchanged.
    proof fn lemma_effective_after_update(self, before: OpticPorts, after: OpticPorts, port_type: PortType)
        requires
            self.wf(),
            before.is_inverted() == (self.stored_ports().is_inverted() || self.spec_inverted()),
            before.ports_view(PortType::Input) == self.effective_ports(PortType::Input),
            before.ports_view(PortType::Output) == self.effective_ports(PortType::Output),
            before.stored(PortType::Input).keys() == self.stored_ports().stored(PortType::Input).keys(),
            before.stored(PortType::Output).keys() == self.stored_ports().stored(PortType::Output).keys(),
            after.is_inverted() == before.is_inverted(),
            after.names_view(port_type) == before.names_view(port_type),
            after.effective(other_type(port_type)) == before.effective(other_type(port_type)),
        ensures
            ({
                let n = NodeAttr { ports: after, ..self };
                &&& n.effective_ports(port_type) == after.ports_view(port_type)
                &&& n.effective_ports(other_type(port_type)) == self.effective_ports(other_type(port_type))
                &&& after.stored(PortType::Input).keys() == self.stored_ports().stored(PortType::Input).keys()
                &&& after.stored(PortType::Output).keys() == self.stored_ports().stored(PortType::Output).keys()
            }),
    {
        let n = NodeAttr { ports: after, ..self };
        assert(n.spec_props() == self.spec_props());
        match port_type {
            PortType::Input => {},
            PortType::Output => {},
        }
    }

    /// Creates a new property of the node.
    pub fn create_property(&mut self, name: &str, description: &str, value: Proptype) -> (r: OpmResult<()>)
        requires
            old(self).wf(),
        ensures
            final(self).wf(),
            r is Ok <==> !old(self).spec_props().view().contains_key(name@),
            r is Ok ==> final(self).spec_props().view().dom() == old(self).spec_props().view().dom().insert(name@)
                && final(self).spec_props().view().remove(name@) == old(self).spec_props().view().remove(name@)
                && final(self).spec_props().value_of(name@) == value,
            r is Err ==> final(self).spec_props().view() == old(self).spec_props().view(),
            final(self).spec_uuid() == old(self).spec_uuid(),
            final(self).spec_name() == old(self).spec_name(),
            final(self).spec_node_type() == old(self).spec_node_type(),
            final(self).stored_ports() == old(self).stored_ports(),
            final(self).spec_is_detector() == old(self).spec_is_detector(),
            final(self).spec_inverted() == old(self).spec_inverted(),
    {
        let ghost before = self.props;
        let r = self.props.create(name, description, value);
        proof {
            if r is Ok {
                assert(name@ != "inverted"@);
                assert(self.props.view()["inverted"@] == self.props.view().remove(name@)["inverted"@]);
                assert(before.view()["inverted"@] == before.view().remove(name@)["inverted"@]);
            } else {
                assert(self.props.view() == before.view());
            }
        }
        r
    }

    /// Sets the value of a property of the node (the property must exist and the value must be
    /// of the same variant).
    pub fn set_property(&mut self, name: &str, value: Proptype) -> (r: OpmResult<()>)
        requires
            old(self).wf(),
        ensures
            final(self).wf(),
            r is Ok <==> old(self).spec_props().view().contains_key(name@)
                && kind(value) == kind(old(self).spec_props().value_of(name@)),
            r is Ok ==> final(self).spec_props().view().dom() == old(self).spec_props().view().dom()
                && final(self).spec_props().view().remove(name@) == old(self).spec_props().view().remove(name@)
                && final(self).spec_props().value_of(name@) == value,
            r is Err ==> final(self).spec_props().view() == old(self).spec_props().view(),
            final(self).spec_uuid() == old(self).spec_uuid(),
            final(self).spec_name() == old(self).spec_name(),
            final(self).spec_node_type() == old(self).spec_node_type(),
            final(self).stored_ports() == old(self).stored_ports(),
            final(self).spec_is_detector() == old(self).spec_is_detector(),
    {
        let ghost before = self.props;
        let r = self.props.set(name, value);
        proof {
            if r is Ok && name@ != "inverted"@ {
                assert(self.props.view()["inverted"@] == self.props.view().remove(name@)["inverted"@]);
                assert(before.view()["inverted"@] == before.view().remove(name@)["inverted"@]);
            }
        }
        r
    }

    /// The value of a property of the node.
    pub fn get_property(&self, name: &str) -> (r: OpmResult<&Proptype>)
        requires
            self.wf(),
        ensures
            r is Ok <==> self.spec_props().view().contains_key(name@),
            r matches Ok(p) ==> *p == self.spec_props().value_of(name@),
    {
        self.props.get(name)
    }
}

/// Whether setting the properties `given` on a node with the properties `own` sets the property
/// `k`: it is a property of both, other than `node_type` and `apertures`.
pub open spec fn sets_property(own: Properties, given: Properties, k: Seq<char>) -> bool {
    &&& own.view().contains_key(k)
    &&& given.view().contains_key(k)
    &&& k != "node_type"@
    &&& k != "apertures"@
}

/// Whether setting the properties `given` on a node with the properties `own` takes port
/// apertures from `given`: both have the property `apertures`, and in `given` it holds ports.
pub open spec fn sets_apertures(own: Properties, given: Properties) -> bool {
    &&& own.view().contains_key("apertures"@)
    &&& given.view().contains_key("apertures"@)
    &&& given.value_of("apertures"@) is OpticPorts
}

/// The ports held by the property `apertures` of `given`.
pub open spec fn given_ports(given: Properties) -> OpticPorts {
    given.value_of("apertures"@)->OpticPorts_0
}

/// The ports of the given node may take the apertures of `from`: each port named in `from`
/// exists at the node (as seen from outside).
pub open spec fn apertures_fit(node: NodeAttr, from: OpticPorts) -> bool {
    &&& forall|k: Seq<char>| from.stored_view(PortType::Input).contains_key(k)
        ==> node.effective_ports(PortType::Input).contains_key(k)
    &&& forall|k: Seq<char>| from.stored_view(PortType::Output).contains_key(k)
        ==> node.effective_ports(PortType::Output).contains_key(k)
}

/// The stored ports of a node after taking the apertures of `from`: the ports seen from
/// outside with the apertures of the same-named ports of `from`, stored marked as inverted if
/// the node is.
pub open spec fn ports_with_apertures(node: NodeAttr, from: OpticPorts, after: OpticPorts) -> bool {
    &&& after.is_inverted() == (node.stored_ports().is_inverted() || node.spec_inverted())
    &&& after.ports_view(PortType::Input) == apertures_from(node.effective_ports(PortType::Input),
        from.stored_view(PortType::Input))
    &&& after.ports_view(PortType::Output) == apertures_from(node.effective_ports(PortType::Output),
        from.stored_view(PortType::Output))
    &&& after.wf()
}

impl NodeAttr {
    /// Sets the properties of the node from `properties`, in ascending order of their names.
    /// Properties the node does not have are ignored, and so is `node_type`. The property
    /// `apertures` is not set: the apertures of the ports it holds are given to the node's
    /// ports of the same names (a group node takes the ports as they are).
    ///
    /// # Errors
    ///
    /// This function stops with an error at the first property whose value is of another kind
    /// than the node's, or if a port named in `apertures` does not exist at the node.
    pub fn set_properties(&mut self, properties: Properties) -> (r: OpmResult<()>)
        requires
            old(self).wf(),
            properties.wf(),
            sets_apertures(old(self).spec_props(), properties) ==> given_ports(properties).wf(),
        ensures
            final(self).wf(),
            final(self).spec_props().view().dom() == old(self).spec_props().view().dom(),
            final(self).spec_uuid() == old(self).spec_uuid(),
            final(self).spec_name() == old(self).spec_name(),
            final(self).spec_node_type() == old(self).spec_node_type(),
            final(self).spec_is_detector() == old(self).spec_is_detector(),
            r is Ok <==> {
                &&& forall|k: Seq<char>| #[trigger] sets_property(old(self).spec_props(), properties, k)
                    ==> kind(properties.value_of(k)) == kind(old(self).spec_props().value_of(k))
                &&& (sets_apertures(old(self).spec_props(), properties) && old(self).spec_node_type() != "group"@)
                    ==> apertures_fit(*old(self), given_ports(properties))
            },
            r is Ok ==> forall|k: Seq<char>| #[trigger] old(self).spec_props().view().contains_key(k)
                ==> final(self).spec_props().value_of(k) == if sets_property(old(self).spec_props(), properties, k) {
                    properties.value_of(k)
                } else {
                    old(self).spec_props().value_of(k)
                },
            r is Ok && !sets_apertures(old(self).spec_props(), properties)
                ==> final(self).stored_ports() == old(self).stored_ports(),
            r is Ok && sets_apertures(old(self).spec_props(), properties) && old(self).spec_node_type() == "group"@
                ==> final(self).stored_ports() == given_ports(properties),
            r is Ok && sets_apertures(old(self).spec_props(), properties) && old(self).spec_node_type() != "group"@
                ==> ports_with_apertures(*old(self), given_ports(properties), final(self).stored_ports()),
    {
        let ghost start = *self;
        let ghost own = self.spec_props();
        let ghost given = properties;
        let is_group = str_eq(self.node_type.as_str(), "group");
        let mut rest = properties.into_entries();
        let ghost names = given.names_view();
        let ghost all = rest@;
        let n = rest.len();
        let mut i: usize = 0;
        proof {
            reveal_strlit("node_type");
            reveal_strlit("apertures");
        }
        while i < n
            invariant
                self.wf(),
                start == *old(self),
                given == properties,
                n == all.len(),
                n == names.len(),
                i <= n,
                rest@ == all.skip(i as int),
                forall|j: int| 0 <= j < all.len() ==> (#[trigger] all[j]).0@ == names[j]
                    && all[j].1 == given.view()[names[j]],
                names.no_duplicates(),
                forall|k: Seq<char>| names.contains(k) <==> given.view().contains_key(k),
                own == start.spec_props(),
                start.wf(),
                is_group == (start.spec_node_type() == "group"@),
                sets_apertures(own, given) ==> given_ports(given).wf(),
                crate::text_order::strictly_sorted(names),
                self.spec_props().view().dom() == own.view().dom(),
                self.spec_uuid() == start.spec_uuid(),
                self.spec_name() == start.spec_name(),
                self.spec_node_type() == start.spec_node_type(),
                self.spec_is_detector() == start.spec_is_detector(),
                forall|k: Seq<char>| #[trigger] own.view().contains_key(k) ==> self.spec_props().value_of(k) ==
                    if sets_property(own, given, k) && names.take(i as int).contains(k) {
                        given.value_of(k)
                    } else {
                        own.value_of(k)
                    },
                forall|k: Seq<char>| #[trigger] sets_property(own, given, k) && names.take(i as int).contains(k)
                    ==> kind(given.value_of(k)) == kind(own.value_of(k)),
                !(sets_apertures(own, given) && names.take(i as int).contains("apertures"@))
                    ==> self.stored_ports() == start.stored_ports(),
                sets_apertures(own, given) && names.take(i as int).contains("apertures"@) && is_group
                    ==> self.stored_ports() == given_ports(given),
                sets_apertures(own, given) && names.take(i as int).contains("apertures"@) && !is_group
                    ==> ports_with_apertures(start, given_ports(given), self.stored_ports())
                        && apertures_fit(start, given_ports(given)),
            decreases n - i,
        {
            let ghost before = *self;
            let ghost key = names[i as int];
            proof {
                reveal_strlit("node_type");
                reveal_strlit("apertures");
                reveal_strlit("inverted");
                assert(rest@[0] == all[i as int]);
                let s0 = names.take(i as int);
                let s1 = names.take(i + 1);
                assert forall|x: Seq<char>| s1.contains(x) == (s0.contains(x) || x == key) by {
                    if s1.contains(x) {
                        let j = choose|j: int| 0 <= j < s1.len() && s1[j] == x;
                        if j < i {
                            assert(s0[j] == x);
                        }
                    }
                    if s0.contains(x) {
                        let j = choose|j: int| 0 <= j < s0.len() && s0[j] == x;
                        assert(s1[j] == x);
                    }
                    if x == key {
                        assert(s1[i as int] == key);
                    }
                }
                assert(!s0.contains(key)) by {
                    if s0.contains(key) {
                        let j = choose|j: int| 0 <= j < s0.len() && s0[j] == key;
                        assert(names[j] == names[i as int]);
                    }
                }
                assert(names.contains(key));
            }
            let (name, property) = rest.remove(0);
            assert(rest@ =~= all.skip(i + 1));
            assert(name@ == key && property == given.view()[key]);
            if self.props.contains(name.as_str()) {
                if str_eq(name.as_str(), "node_type") {
                } else if str_eq(name.as_str(), "apertures") {
                    let value = property.into_prop();
                    match value {
                        Proptype::OpticPorts(from) => {
                            assert(sets_apertures(own, given));
                            if is_group {
                                self.set_ports(from);
                            } else {
                                proof {
                                    assert(!names.take(i as int).contains("inverted"@)) by {
                                        reveal_strlit("inverted");
                                        if names.take(i as int).contains("inverted"@) {
                                            let j = choose|j: int| 0 <= j < i && names.take(i as int)[j] == "inverted"@;
                                            assert(crate::text_order::seq_lt(names[j], names[i as int]));
                                            assert(!crate::text_order::seq_lt("inverted"@, "apertures"@));
                                        }
                                    }
                                    assert(own.view().contains_key("inverted"@));
                                    assert(self.spec_props().value_of("inverted"@) == own.value_of("inverted"@));
                                    assert(self.stored_ports() == start.stored_ports());
                                }
                                let mut ports = self.ports();
                                let ghost from_view = from;
                                assert(from_view == given_ports(given));
                                assert(self.effective_ports(PortType::Input) == start.effective_ports(PortType::Input));
                                assert(self.effective_ports(PortType::Output) == start.effective_ports(PortType::Output));
                                let res = ports.set_apertures(from);
                                if res.is_err() {
                                    assert(!apertures_fit(start, given_ports(given)));
                                    assert(start.spec_node_type() != "group"@);
                                    return res;
                                }
                                self.set_ports(ports);
                            }
                        },
                        _ => {},
                    }
                } else {
                    let value = property.into_prop();
                    let ghost pre = self.spec_props().view();
                    assert(sets_property(own, given, key));
                    assert(self.spec_props().value_of(key) == own.value_of(key));
                    let res = self.set_property(name.as_str(), value);
                    if res.is_err() {
                        assert(kind(given.value_of(key)) != kind(own.value_of(key)));
                        return res;
                    }
                    proof {
                        let post = self.spec_props().view();
                        assert forall|k: Seq<char>| #[trigger] own.view().contains_key(k) && k != key implies
                            post[k] == pre[k] by {
                            assert(post.remove(key)[k] == pre.remove(key)[k]);
                        }
                    }
                }
            }
            i = i + 1;
        }
        assert(names.take(n as int) =~= names);
        Ok(())
    }
}

impl NodeAttr {
    /// Takes over the attributes of another node: its name, its inversion, the values of its
    /// properties (where this node has a property of that name and kind), its ports and its
    /// identifier. The type of the node stays.
    pub fn set_node_attr(&mut self, node_attributes: NodeAttr)
        requires
            old(self).wf(),
            node_attributes.wf(),
        ensures
            final(self).wf(),
            final(self).spec_name() == node_attributes.spec_name(),
            final(self).spec_uuid() == node_attributes.spec_uuid(),
            final(self).stored_ports() == node_attributes.stored_ports(),
            final(self).spec_inverted() == node_attributes.spec_inverted(),
            final(self).spec_node_type() == old(self).spec_node_type(),
            final(self).spec_is_detector() == old(self).spec_is_detector(),
            final(self).spec_props().view().dom() == old(self).spec_props().view().dom(),
            forall|k: Seq<char>| #[trigger] old(self).spec_props().view().contains_key(k)
                ==> final(self).spec_props().value_of(k)
                    == updated_value(old(self).spec_props().value_of(k), node_attributes.spec_props().view(), k),
    {
        let ghost start = *self;
        self.set_name(node_attributes.name());
        let inv = node_attributes.inverted();
        self.set_inverted(inv);
        let ghost mid = self.spec_props();
        proof {
            assert forall|k: Seq<char>| k != "inverted"@ && #[trigger] start.spec_props().view().contains_key(k)
                implies mid.value_of(k) == start.spec_props().value_of(k) by {
                assert(mid.view().remove("inverted"@)[k] == start.spec_props().view().remove("inverted"@)[k]);
            }
        }
        let NodeAttr { uuid, name: _, node_type: _, ports, props, is_detector: _ } = node_attributes;
        self.props.update(props);
        self.ports = ports;
        self.uuid = uuid;
        proof {
            assert forall|k: Seq<char>| #[trigger] start.spec_props().view().contains_key(k)
                implies self.spec_props().value_of(k)
                    == updated_value(start.spec_props().value_of(k), node_attributes.spec_props().view(), k) by {
                if k == "inverted"@ {
                    assert(mid.value_of(k) == Proptype::Bool(inv));
                    assert(kind(start.spec_props().value_of(k)) == kind(mid.value_of(k)));
                }
            }
        }
    }
}

} // verus!
