//! A reference to an optical node as it is stored in a group, together with the scenery-wide
//! resources the node sees.
use vstd::prelude::*;
use crate::node_attr::NodeAttr;
use crate::scenery::SceneryResources;

verus! {

/// An optical node (its attributes) and the scenery-wide resources it was given.
#[derive(Debug)]
pub struct OpticRef {
    optical_ref: NodeAttr,
    global_conf: Option<SceneryResources>,
}

/// The debug text of a reference to a node of the given name and type.
pub open spec fn optic_ref_text(name: Seq<char>, node_type: Seq<char>) -> Seq<char> {
    "OpticRef { optical_ref: RefCell { value: '"@ + name + "' ("@ + node_type + ") } }"@
}

impl OpticRef {
    /// The node.
    pub closed spec fn spec_node(self) -> NodeAttr {
        self.optical_ref
    }

    /// The scenery-wide resources given to the node.
    pub closed spec fn spec_global_conf(self) -> Option<SceneryResources> {
        self.global_conf
    }

    /// Creates a reference to a node, giving it the scenery-wide resources.
    pub fn new(node: NodeAttr, global_conf: Option<SceneryResources>) -> (r: Self)
        ensures
            r.spec_node() == node,
            r.spec_global_conf() == global_conf,
    {
        OpticRef { optical_ref: node, global_conf }
    }

    /// The identifier of the node.
    pub fn uuid(&self) -> (id: u128)
        ensures
            id == self.spec_node().spec_uuid(),
    {
        self.optical_ref.uuid()
    }

    /// Gives the node new scenery-wide resources; the node stays as it is.
    pub fn update_global_config(&mut self, global_conf: Option<SceneryResources>)
        ensures
            final(self).spec_global_conf() == global_conf,
            final(self).spec_node() == old(self).spec_node(),
    {
        self.global_conf = global_conf;
    }

    /// The node.
    pub fn optical_ref(&self) -> (n: &NodeAttr)
        ensures
            *n == self.spec_node(),
    {
        &self.optical_ref
    }

    /// The scenery-wide resources given to the node.
    pub fn global_conf(&self) -> (c: Option<SceneryResources>)
        ensures
            c == self.spec_global_conf(),
    {
        self.global_conf
    }

    /// The debug text: `OpticRef { optical_ref: RefCell { value: '<name>' (<type>) } }`.
    pub fn debug_text(&self) -> (s: String)
        ensures
            s@ == optic_ref_text(self.spec_node().spec_name(), self.spec_node().spec_node_type()),
    {
        let mut s = "OpticRef { optical_ref: RefCell { value: '".to_owned();
        s.append(self.optical_ref.name());
        s.append("' (");
        s.append(self.optical_ref.node_type());
        s.append(") } }");
        s
    }
}

} // verus!
