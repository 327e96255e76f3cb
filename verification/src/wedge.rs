//! A wedged window: an optical element with two flat surfaces, a center thickness and a wedge
//! angle between the surfaces.
//!
//! Ports: the input `input_1` and the output `output_1`. Properties: `inverted`,
//! `center thickness`, `refractive index` and `wedge`.
use vstd::prelude::*;
use crate::error::{OpmResult, OpossumError};
use crate::float_bits::{bits_is_finite, bits_is_sign_negative, is_finite, is_sign_negative};
use crate::name_map::NameMap;
use crate::node_attr::NodeAttr;
use crate::optic_port::{Aperture, CoatingType};
use crate::optic_ports::{OpticPorts, PortType, other_type};
use crate::properties::{Properties, Proptype};

verus! {

/// Center thickness of a default wedge: 10 mm, in meters (bit pattern of `0.01`).
pub const DEFAULT_CENTER_THICKNESS: u64 = 0x3f84_7ae1_47ae_147bu64;

/// Refractive index of a default wedge: 1.5 (bit pattern).
pub const DEFAULT_REFRACTIVE_INDEX: u64 = 0x3ff8_0000_0000_0000u64;

/// A wedged window.
#[derive(Debug, Clone)]
pub struct Wedge {
    node_attr: NodeAttr,
}

/// The light leaving a node that passes light from one input port to one output port: the light
/// at the input port, now at the output port, or nothing if there is no light at the input.
pub open spec fn pass_through<D>(incoming: Map<Seq<char>, D>, in_port: Seq<char>, out_port: Seq<char>)
    -> Map<Seq<char>, D>
{
    if incoming.contains_key(in_port) {
        Map::empty().insert(out_port, incoming[in_port])
    } else {
        Map::empty()
    }
}

impl Wedge {
    /// The common node attributes of the wedge.
    pub closed spec fn attr(self) -> NodeAttr {
        self.node_attr
    }

    /// The value of a property of the wedge.
    pub open spec fn prop(self, name: Seq<char>) -> Proptype {
        self.attr().spec_props().value_of(name)
    }

    /// Well-formedness: the attributes are well-formed, the stored ports are exactly `input_1`
    /// and `output_1`, and the three wedge properties exist with values of their kinds.
    pub open spec fn wf(self) -> bool {
        &&& self.attr().wf()
        &&& self.attr().spec_node_type() == "wedge"@
        &&& self.attr().stored_ports().stored(PortType::Input).keys() == seq!["input_1"@]
        &&& self.attr().stored_ports().stored(PortType::Output).keys() == seq!["output_1"@]
        &&& self.attr().spec_props().view().contains_key("center thickness"@)
        &&& self.attr().spec_props().view().contains_key("refractive index"@)
        &&& self.attr().spec_props().view().contains_key("wedge"@)
        &&& self.prop("center thickness"@) is Length
        &&& self.prop("refractive index"@) is RefractiveIndex
        &&& self.prop("wedge"@) is Angle
    }

    /// The port at which light enters the wedge: its input port, or its output port when
    /// the wedge is inverted.
    pub open spec fn in_port(self) -> Seq<char> {
        self.attr().effective_names(PortType::Input)[0]
    }

    /// The port at which light leaves the wedge.
    pub open spec fn out_port(self) -> Seq<char> {
        self.attr().effective_names(PortType::Output)[0]
    }

    /// Creates a wedge with a center thickness of 10 mm, a refractive index of 1.5 and no wedge
    /// angle (a flat window), named `wedge`.
    pub fn new_default() -> (w: Self)
        ensures
            w.wf(),
            w.attr().spec_name() == "wedge"@,
            !w.attr().spec_inverted(),
            !w.attr().spec_is_detector(),
            w.attr().spec_props().view().dom() == set!["inverted"@, "center thickness"@, "refractive index"@, "wedge"@],
            w.prop("center thickness"@) == Proptype::Length(DEFAULT_CENTER_THICKNESS),
            w.prop("refractive index"@) == Proptype::RefractiveIndex(DEFAULT_REFRACTIVE_INDEX),
            w.prop("wedge"@) == Proptype::Angle(0),
            !w.attr().stored_ports().is_inverted(),
            w.attr().stored_ports().stored_view(PortType::Input)
                == map!["input_1"@ => (Aperture::NoAperture, CoatingType::IdealAR)],
            w.attr().stored_ports().stored_view(PortType::Output)
                == map!["output_1"@ => (Aperture::NoAperture, CoatingType::IdealAR)],
    {
        proof {
            reveal_strlit("inverted");
            reveal_strlit("center thickness");
            reveal_strlit("refractive index");
            reveal_strlit("wedge");
            reveal_strlit("input_1");
            reveal_strlit("output_1");
            assert("center thickness"@[0] != "inverted"@[0]);
            assert("refractive index"@[0] != "inverted"@[0]);
            assert("refractive index"@[0] != "center thickness"@[0]);
            assert("wedge"@[0] != "inverted"@[0]);
            assert("wedge"@[0] != "center thickness"@[0]);
            assert("wedge"@[0] != "refractive index"@[0]);
        }
        let mut node_attr = NodeAttr::new("wedge", false);
        let r1 = node_attr.create_property(
            "center thickness",
            "thickness of the lens in the center",
            Proptype::Length(DEFAULT_CENTER_THICKNESS),
        );
        assert(r1 is Ok);
        assert(node_attr.spec_props().view().dom() == set!["inverted"@, "center thickness"@]);
        let ghost p1 = node_attr.spec_props().view();
        let r2 = node_attr.create_property(
            "refractive index",
            "refractive index of the lens material",
            Proptype::RefractiveIndex(DEFAULT_REFRACTIVE_INDEX),
        );
        let ghost p2 = node_attr.spec_props().view();
        assert(p2.remove("refractive index"@)["center thickness"@] == p1.remove("refractive index"@)["center thickness"@]);
        let r3 = node_attr.create_property("wedge", "wedge angle", Proptype::Angle(0));
        let ghost p3 = node_attr.spec_props().view();
        assert(p3.remove("wedge"@)["center thickness"@] == p2.remove("wedge"@)["center thickness"@]);
        assert(p3.remove("wedge"@)["refractive index"@] == p2.remove("wedge"@)["refractive index"@]);
        assert(r1 is Ok);
        assert(r2 is Ok);
        assert(r3 is Ok);
        let mut ports = OpticPorts::new();
        let p1 = ports.add(&PortType::Input, "input_1");
        let p2 = ports.add(&PortType::Output, "output_1");
        assert(p1 is Ok && p2 is Ok);
        proof {
            ports.stored(PortType::Input).lemma_all_entries();
            ports.stored(PortType::Output).lemma_all_entries();
            assert(ports.stored_view(PortType::Input).contains_key("input_1"@));
            assert(ports.stored(PortType::Input).view().contains_key("input_1"@));
            assert(ports.stored(PortType::Input).keys().contains("input_1"@));
            assert(ports.stored_view(PortType::Output).contains_key("output_1"@));
            assert(ports.stored(PortType::Output).view().contains_key("output_1"@));
            assert(ports.stored(PortType::Output).keys().contains("output_1"@));
            assert(ports.stored(PortType::Input).keys() =~= seq!["input_1"@]);
            assert(ports.stored(PortType::Output).keys() =~= seq!["output_1"@]);
            assert(ports.stored_view(PortType::Input)
                =~= map!["input_1"@ => (Aperture::NoAperture, CoatingType::IdealAR)]);
            assert(ports.stored_view(PortType::Output)
                =~= map!["output_1"@ => (Aperture::NoAperture, CoatingType::IdealAR)]);
        }
        node_attr.set_ports(ports);
        let w = Wedge { node_attr };
        assert(w.attr().spec_props().view().dom()
            =~= set!["inverted"@, "center thickness"@, "refractive index"@, "wedge"@]);
        w
    }

    /// Creates a wedge with the given name, center thickness (meters), wedge angle (radians)
    /// and constant refractive index (bit patterns of `f64` values).
    ///
    /// `angle_within_limits` tells whether the wedge angle lies within ±90°; the conversion
    /// to degrees is floating-point work done by the caller.
    ///
    /// # Errors
    ///
    /// This function returns an error if
    ///   - the center thickness is negative or not finite,
    ///   - the wedge angle is not finite or outside ±90°.
    pub fn new(
        name: &str,
        center_thickness: u64,
        wedge_angle: u64,
        angle_within_limits: bool,
        refractive_index: u64,
    ) -> (r: OpmResult<Self>)
        ensures
            r is Ok <==> !is_sign_negative(center_thickness) && is_finite(center_thickness)
                && is_finite(wedge_angle) && angle_within_limits,
            r matches Err(e) ==> e is Other,
            r matches Ok(w) ==> {
                &&& w.wf()
                &&& w.attr().spec_name() == name@
                &&& !w.attr().spec_inverted()
                &&& w.prop("center thickness"@) == Proptype::Length(center_thickness)
                &&& w.prop("refractive index"@) == Proptype::RefractiveIndex(refractive_index)
                &&& w.prop("wedge"@) == Proptype::Angle(wedge_angle)
                &&& w.attr().spec_props().view().dom()
                    == set!["inverted"@, "center thickness"@, "refractive index"@, "wedge"@]
                &&& w.attr().stored_ports().stored_view(PortType::Input)
                    == map!["input_1"@ => (Aperture::NoAperture, CoatingType::IdealAR)]
                &&& w.attr().stored_ports().stored_view(PortType::Output)
                    == map!["output_1"@ => (Aperture::NoAperture, CoatingType::IdealAR)]
            },
    {
        let mut wedge = Self::new_default();
        wedge.node_attr.set_name(name);
        if bits_is_sign_negative(center_thickness) || !bits_is_finite(center_thickness) {
            return Err(OpossumError::Other("center thickness must be positive and finite".to_owned()));
        }
        proof { lemma_distinct_names(); }
        let ghost p0 = wedge.node_attr.spec_props().view();
        let r1 = wedge.node_attr.set_property("center thickness", Proptype::Length(center_thickness));
        assert(r1 is Ok);
        let ghost p1 = wedge.node_attr.spec_props().view();
        assert(p1.remove("center thickness"@)["refractive index"@] == p0.remove("center thickness"@)["refractive index"@]);
        assert(p1.remove("center thickness"@)["wedge"@] == p0.remove("center thickness"@)["wedge"@]);
        assert(p1.remove("center thickness"@)["inverted"@] == p0.remove("center thickness"@)["inverted"@]);
        let r2 = wedge.node_attr.set_property("refractive index", Proptype::RefractiveIndex(refractive_index));
        assert(r2 is Ok);
        let ghost p2 = wedge.node_attr.spec_props().view();
        assert(p2.remove("refractive index"@)["wedge"@] == p1.remove("refractive index"@)["wedge"@]);
        assert(p2.remove("refractive index"@)["inverted"@] == p1.remove("refractive index"@)["inverted"@]);
        if !bits_is_finite(wedge_angle) || !angle_within_limits {
            return Err(OpossumError::Other(
                "wedge angle must be within the interval ]-90 deg; 90 deg[ and finite".to_owned()));
        }
        let r3 = wedge.node_attr.set_property("wedge", Proptype::Angle(wedge_angle));
        assert(r3 is Ok);
        proof {
            let p3 = wedge.node_attr.spec_props().view();
            lemma_distinct_names();
            assert(p2.remove("refractive index"@)["center thickness"@] == p1.remove("refractive index"@)["center thickness"@]);
            assert(p3.remove("wedge"@)["center thickness"@] == p2.remove("wedge"@)["center thickness"@]);
            assert(p3.remove("wedge"@)["refractive index"@] == p2.remove("wedge"@)["refractive index"@]);
            assert(p3.remove("wedge"@)["inverted"@] == p2.remove("wedge"@)["inverted"@]);
        }
        Ok(wedge)
    }

    /// The common node attributes of the wedge.
    pub fn node_attr(&self) -> (a: &NodeAttr)
        ensures
            *a == self.attr(),
    {
        &self.node_attr
    }

    /// The name of the wedge.
    pub fn name(&self) -> (n: &str)
        ensures
            n@ == self.attr().spec_name(),
    {
        self.node_attr.name()
    }

    /// Sets the name of the wedge.
    pub fn set_name(&mut self, name: &str)
        requires
            old(self).wf(),
        ensures
            final(self).wf(),
            final(self).attr().spec_name() == name@,
            final(self).attr().spec_props() == old(self).attr().spec_props(),
            final(self).attr().stored_ports() == old(self).attr().stored_ports(),
            final(self).attr().spec_uuid() == old(self).attr().spec_uuid(),
    {
        self.node_attr.set_name(name);
    }

    /// The node type: `wedge`.
    pub fn node_type(&self) -> (t: &str)
        requires
            self.wf(),
        ensures
            t@ == "wedge"@,
    {
        self.node_attr.node_type()
    }

    /// The color of the wedge in diagrams.
    pub fn node_color(&self) -> (c: &'static str)
        ensures
            c@ == "aquamarine"@,
    {
        "aquamarine"
    }

    /// Whether the wedge is inverted (light passes from the output port to the input port).
    pub fn inverted(&self) -> (b: bool)
        requires
            self.wf(),
        ensures
            b == self.attr().spec_inverted(),
    {
        self.node_attr.inverted()
    }

    /// Marks the wedge as inverted or not. A wedge can always be inverted.
    pub fn set_inverted(&mut self, inverted: bool) -> (r: OpmResult<()>)
        requires
            old(self).wf(),
        ensures
            r is Ok,
            final(self).wf(),
            final(self).attr().spec_inverted() == inverted,
            final(self).attr().stored_ports() == old(self).attr().stored_ports(),
            final(self).attr().spec_name() == old(self).attr().spec_name(),
            final(self).attr().spec_props().view().remove("inverted"@)
                == old(self).attr().spec_props().view().remove("inverted"@),
    {
        let ghost before = self.attr().spec_props().view();
        self.node_attr.set_inverted(inverted);
        proof {
            lemma_distinct_names();
            let after = self.attr().spec_props().view();
            assert(after.remove("inverted"@)["center thickness"@] == before.remove("inverted"@)["center thickness"@]);
            assert(after.remove("inverted"@)["refractive index"@] == before.remove("inverted"@)["refractive index"@]);
            assert(after.remove("inverted"@)["wedge"@] == before.remove("inverted"@)["wedge"@]);
        }
        Ok(())
    }

    /// The properties of the wedge.
    pub fn properties(&self) -> (p: &Properties)
        ensures
            *p == self.attr().spec_props(),
    {
        self.node_attr.properties()
    }

    /// Sets the value of an existing property of the wedge; the value must be of the same kind
    /// as the current one.
    pub fn set_property(&mut self, name: &str, value: Proptype) -> (r: OpmResult<()>)
        requires
            old(self).wf(),
        ensures
            final(self).wf(),
            r is Ok <==> old(self).attr().spec_props().view().contains_key(name@)
                && crate::properties::kind(value) == crate::properties::kind(old(self).prop(name@)),
            r is Ok ==> final(self).prop(name@) == value
                && final(self).attr().spec_props().view().remove(name@)
                    == old(self).attr().spec_props().view().remove(name@),
            r is Err ==> final(self).attr().spec_props().view() == old(self).attr().spec_props().view(),
            final(self).attr().stored_ports() == old(self).attr().stored_ports(),
            final(self).attr().spec_name() == old(self).attr().spec_name(),
    {
        let ghost before = self.attr().spec_props().view();
        let r = self.node_attr.set_property(name, value);
        proof {
            if r is Ok {
                let after = self.attr().spec_props().view();
                if name@ != "center thickness"@ {
                    assert(after.remove(name@)["center thickness"@] == before.remove(name@)["center thickness"@]);
                }
                if name@ != "refractive index"@ {
                    assert(after.remove(name@)["refractive index"@] == before.remove(name@)["refractive index"@]);
                }
                if name@ != "wedge"@ {
                    assert(after.remove(name@)["wedge"@] == before.remove(name@)["wedge"@]);
                }
            } else {
                assert(self.attr().spec_props().view() == before);
            }
        }
        r
    }

    /// The ports of the wedge (taking its inversion into account).
    pub fn ports(&self) -> (p: OpticPorts)
        requires
            self.wf(),
        ensures
            p.wf(),
            p.ports_view(PortType::Input) == self.attr().effective_ports(PortType::Input),
            p.ports_view(PortType::Output) == self.attr().effective_ports(PortType::Output),
            p.names_view(PortType::Input) == self.attr().effective_names(PortType::Input),
            p.names_view(PortType::Output) == self.attr().effective_names(PortType::Output),
    {
        self.node_attr.ports()
    }

    /// Sets the aperture of a port of the wedge (direction as seen from outside).
    pub fn set_aperture(&mut self, port_type: &PortType, port_name: &str, aperture: &Aperture)
        -> (r: OpmResult<()>)
        requires
            old(self).wf(),
        ensures
            final(self).wf(),
            r is Ok <==> old(self).attr().effective_ports(*port_type).contains_key(port_name@),
            r matches Err(e) ==> e is OpticPort,
            r is Ok ==> final(self).attr().effective_ports(*port_type)
                == old(self).attr().effective_ports(*port_type).insert(
                    port_name@,
                    (*aperture, old(self).attr().effective_ports(*port_type)[port_name@].1),
                ),
            final(self).attr().effective_ports(other_type(*port_type))
                == old(self).attr().effective_ports(other_type(*port_type)),
            final(self).attr().spec_props() == old(self).attr().spec_props(),
    {
        self.node_attr.set_aperture(port_type, port_name, aperture)
    }

    /// Sets the coating of a port of the wedge (direction as seen from outside).
    pub fn set_coating(&mut self, port_type: &PortType, port_name: &str, coating: &CoatingType)
        -> (r: OpmResult<()>)
        requires
            old(self).wf(),
        ensures
            final(self).wf(),
            r is Ok <==> old(self).attr().effective_ports(*port_type).contains_key(port_name@),
            r matches Err(e) ==> e is OpticPort,
            r is Ok ==> final(self).attr().effective_ports(*port_type)
                == old(self).attr().effective_ports(*port_type).insert(
                    port_name@,
                    (old(self).attr().effective_ports(*port_type)[port_name@].0, *coating),
                ),
            final(self).attr().effective_ports(other_type(*port_type))
                == old(self).attr().effective_ports(other_type(*port_type)),
            final(self).attr().spec_props() == old(self).attr().spec_props(),
    {
        self.node_attr.set_coating(port_type, port_name, coating)
    }

    /// Energy analysis: the light arriving at the entry port (`input_1`, or `output_1` if the
    /// wedge is inverted) leaves unchanged at the exit port. Light at any other port is
    /// dropped.
    pub fn analyze_energy<D>(&self, incoming: NameMap<D>) -> (r: OpmResult<NameMap<D>>)
        requires
            self.wf(),
            incoming.wf(),
        ensures
            r matches Ok(out) && out.wf() && out.view() == pass_through(incoming.view(), self.in_port(), self.out_port()),
    {
        proof { self.lemma_port_names(); }
        let ports = self.node_attr.ports();
        let inputs = ports.names(&PortType::Input);
        let outputs = ports.names(&PortType::Output);
        proof {
            assert(inputs@.map_values(|k: String| k@)[0] == inputs@[0]@);
            assert(outputs@.map_values(|k: String| k@)[0] == outputs@[0]@);
        }
        let mut incoming = incoming;
        match incoming.remove(inputs[0].as_str()) {
            Some(data) => {
                let mut out = NameMap::new();
                out.insert(outputs[0].as_str().to_owned(), data);
                Ok(out)
            },
            None => Ok(NameMap::new()),
        }
    }

    /// A well-formed wedge has exactly one entry and one exit port.
    proof fn lemma_port_names(self)
        requires
            self.wf(),
        ensures
            self.attr().effective_names(PortType::Input).len() == 1,
            self.attr().effective_names(PortType::Output).len() == 1,
    {
    }
}

/// Light enters a wedge at `input_1` and leaves it at `output_1`; an inverted wedge is passed
/// the other way round. (This holds as long as the stored ports are not themselves marked as
/// inverted, which setting a port's aperture or coating on an inverted wedge does.)
pub proof fn lemma_wedge_passage(w: Wedge)
    requires
        w.wf(),
        !w.attr().stored_ports().is_inverted(),
    ensures
        w.in_port() == if w.attr().spec_inverted() { "output_1"@ } else { "input_1"@ },
        w.out_port() == if w.attr().spec_inverted() { "input_1"@ } else { "output_1"@ },
{
}

/// The property names of a wedge differ from each other.
proof fn lemma_distinct_names()
    ensures
        "center thickness"@ != "inverted"@,
        "refractive index"@ != "inverted"@,
        "refractive index"@ != "center thickness"@,
        "wedge"@ != "inverted"@,
        "wedge"@ != "center thickness"@,
        "wedge"@ != "refractive index"@,
{
    reveal_strlit("inverted");
    reveal_strlit("center thickness");
    reveal_strlit("refractive index");
    reveal_strlit("wedge");
    assert("center thickness"@[0] != "inverted"@[0]);
    assert("refractive index"@[0] != "inverted"@[0]);
    assert("refractive index"@[0] != "center thickness"@[0]);
    assert("wedge"@[0] != "inverted"@[0]);
    assert("wedge"@[0] != "center thickness"@[0]);
    assert("wedge"@[0] != "refractive index"@[0]);
}

impl Default for Wedge {
    /// A wedge with a center thickness of 10 mm, a refractive index of 1.5 and no wedge angle.
    fn default() -> (w: Self)
        ensures
            w.wf(),
            w.attr().spec_name() == "wedge"@,
            !w.attr().spec_inverted(),
            w.prop("center thickness"@) == Proptype::Length(DEFAULT_CENTER_THICKNESS),
            w.prop("refractive index"@) == Proptype::RefractiveIndex(DEFAULT_REFRACTIVE_INDEX),
            w.prop("wedge"@) == Proptype::Angle(0),
            !w.attr().stored_ports().is_inverted(),
    {
        Wedge::new_default()
    }
}

} // verus!
