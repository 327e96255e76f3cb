//! The property system of optical nodes.
//!
//! Properties store node specific parameters (such as a name, a thickness, a splitting
//! ratio, ...). A property has to be created once (with a description and an initial value)
//! before it can be set; a set value must be of the same type as the created one.
use vstd::prelude::*;
use crate::error::{OpmResult, OpossumError};
use crate::name_map::{NameMap, entry_keys, entry_values};
use crate::optic_port::Aperture;
use crate::optic_ports::OpticPorts;

verus! {

/// The value of a property.
///
/// Physical quantities are `f64` values in SI base units, carried here as their raw IEEE-754 bit
/// patterns.
#[derive(Debug, Clone, PartialEq)]
pub enum Proptype {
    /// A string.
    String(String),
    /// An integer.
    I32(i32),
    /// A float (bit pattern).
    F64(u64),
    /// A boolean.
    Bool(bool),
    /// A node identifier (the 128 bits of a UUID).
    Uuid(u128),
    /// The ports of a node.
    OpticPorts(OpticPorts),
    /// An aperture.
    Aperture(Aperture),
    /// A length (bit pattern, meters).
    Length(u64),
    /// An optional length (bit pattern, meters).
    LengthOption(Option<u64>),
    /// An energy (bit pattern, joules).
    Energy(u64),
    /// An angle (bit pattern, radians).
    Angle(u64),
    /// A fluence (bit pattern, J/m²).
    Fluence(u64),
    /// A value in units of a wavelength, and the wavelength (bit patterns).
    WfLambda(u64, u64),
    /// A two-dimensional vector (bit patterns).
    Vec2(u64, u64),
    /// A three-dimensional vector (bit patterns).
    Vec3(u64, u64, u64),
    /// A constant refractive index (bit pattern).
    RefractiveIndex(u64),
}

/// The variant of a property value; values may only be replaced by values of the same variant.
pub open spec fn kind(p: Proptype) -> int {
    match p {
        Proptype::String(_) => 0,
        Proptype::I32(_) => 1,
        Proptype::F64(_) => 2,
        Proptype::Bool(_) => 3,
        Proptype::Uuid(_) => 4,
        Proptype::OpticPorts(_) => 5,
        Proptype::Aperture(_) => 6,
        Proptype::Length(_) => 7,
        Proptype::LengthOption(_) => 8,
        Proptype::Energy(_) => 9,
        Proptype::Angle(_) => 10,
        Proptype::Fluence(_) => 11,
        Proptype::WfLambda(_, _) => 12,
        Proptype::Vec2(_, _) => 13,
        Proptype::Vec3(_, _, _) => 14,
        Proptype::RefractiveIndex(_) => 15,
    }
}

/// Two values have the same kind exactly when they are of the same variant: a value may only
/// be replaced by one of its own variant (a fluence by a fluence, never by an energy).
pub proof fn lemma_kind_is_variant(a: Proptype, b: Proptype)
    ensures
        kind(a) == kind(b) <==> {
            ||| a is String && b is String
            ||| a is I32 && b is I32
            ||| a is F64 && b is F64
            ||| a is Bool && b is Bool
            ||| a is Uuid && b is Uuid
            ||| a is OpticPorts && b is OpticPorts
            ||| a is Aperture && b is Aperture
            ||| a is Length && b is Length
            ||| a is LengthOption && b is LengthOption
            ||| a is Energy && b is Energy
            ||| a is Angle && b is Angle
            ||| a is Fluence && b is Fluence
            ||| a is WfLambda && b is WfLambda
            ||| a is Vec2 && b is Vec2
            ||| a is Vec3 && b is Vec3
            ||| a is RefractiveIndex && b is RefractiveIndex
        },
{
}

impl Proptype {
    /// The variant of this value (see [`kind`]).
    pub fn kind(&self) -> (k: u8)
        ensures
            k == kind(*self),
    {
        match self {
            Proptype::String(_) => 0,
            Proptype::I32(_) => 1,
            Proptype::F64(_) => 2,
            Proptype::Bool(_) => 3,
            Proptype::Uuid(_) => 4,
            Proptype::OpticPorts(_) => 5,
            Proptype::Aperture(_) => 6,
            Proptype::Length(_) => 7,
            Proptype::LengthOption(_) => 8,
            Proptype::Energy(_) => 9,
            Proptype::Angle(_) => 10,
            Proptype::Fluence(_) => 11,
            Proptype::WfLambda(_, _) => 12,
            Proptype::Vec2(_, _) => 13,
            Proptype::Vec3(_, _, _) => 14,
            Proptype::RefractiveIndex(_) => 15,
        }
    }
}

/// A property: a value and a description.
#[derive(Debug, Clone, PartialEq)]
pub struct Property {
    prop: Proptype,
    description: String,
}

impl From<bool> for Proptype {
    /// A boolean value.
    fn from(value: bool) -> (p: Self) {
        Proptype::Bool(value)
    }
}

impl vstd::std_specs::convert::FromSpecImpl<bool> for Proptype {
    open spec fn obeys_from_spec() -> bool {
        true
    }

    open spec fn from_spec(v: bool) -> Proptype {
        Proptype::Bool(v)
    }
}

impl From<String> for Proptype {
    /// A string value.
    fn from(value: String) -> (p: Self) {
        Proptype::String(value)
    }
}

impl vstd::std_specs::convert::FromSpecImpl<String> for Proptype {
    open spec fn obeys_from_spec() -> bool {
        true
    }

    open spec fn from_spec(v: String) -> Proptype {
        Proptype::String(v)
    }
}

impl From<i32> for Proptype {
    /// An integer value.
    fn from(value: i32) -> (p: Self) {
        Proptype::I32(value)
    }
}

impl vstd::std_specs::convert::FromSpecImpl<i32> for Proptype {
    open spec fn obeys_from_spec() -> bool {
        true
    }

    open spec fn from_spec(v: i32) -> Proptype {
        Proptype::I32(v)
    }
}

impl Property {
    /// The value of this property.
    pub closed spec fn spec_prop(self) -> Proptype {
        self.prop
    }

    /// The description of this property.
    pub closed spec fn spec_description(self) -> Seq<char> {
        self.description@
    }

    /// Creates a property with the given value and description.
    pub fn new(prop: Proptype, description: String) -> (p: Self)
        ensures
            p.spec_prop() == prop,
            p.spec_description() == description@,
    {
        Self { prop, description }
    }

    /// The value of this property.
    pub fn prop(&self) -> (p: &Proptype)
        ensures
            *p == self.spec_prop(),
    {
        &self.prop
    }

    /// The description of this property.
    pub fn description(&self) -> (d: &str)
        ensures
            d@ == self.spec_description(),
    {
        self.description.as_str()
    }

    /// The value of this property, taken out of it.
    pub fn into_prop(self) -> (p: Proptype)
        ensures
            p == self.spec_prop(),
    {
        self.prop
    }

    /// Sets the value of this property. The new value must be of the same variant as the
    /// current one.
    pub fn set_value(&mut self, prop: Proptype) -> (r: OpmResult<()>)
        ensures
            r is Ok <==> kind(prop) == kind(old(self).spec_prop()),
            r is Ok ==> final(self).spec_prop() == prop,
            r is Err ==> final(self).spec_prop() == old(self).spec_prop(),
            final(self).spec_description() == old(self).spec_description(),
            r matches Err(e) ==> e is Properties,
    {
        if self.prop.kind() != prop.kind() {
            return Err(OpossumError::Properties("incompatible value types".to_owned()));
        }
        self.prop = prop;
        Ok(())
    }
}

/// A set of properties, by name.
#[derive(Debug, Clone, PartialEq)]
pub struct Properties {
    props: NameMap<Property>,
}

impl Properties {
    /// The properties by name.
    pub closed spec fn view(self) -> Map<Seq<char>, Property> {
        self.props.view()
    }

    /// The property names in ascending order.
    pub closed spec fn names_view(self) -> Seq<Seq<char>> {
        self.props.keys()
    }

    /// Well-formedness of the underlying table.
    pub closed spec fn wf(self) -> bool {
        self.props.wf()
    }

    /// The value of the property of the given name (meaningful if it exists).
    pub open spec fn value_of(self, name: Seq<char>) -> Proptype {
        self.view()[name].spec_prop()
    }

    /// The names listed are those of the map.
    pub proof fn lemma_names(self)
        requires
            self.wf(),
        ensures
            forall|k: Seq<char>| self.names_view().contains(k) <==> self.view().contains_key(k),
            self.names_view().len() == self.view().dom().len(),
    {
        self.props.lemma_all_entries();
        assert(self.view().dom() =~= self.names_view().to_set());
        self.names_view().unique_seq_to_set();
    }

    /// Creates an empty set of properties.
    pub fn new() -> (p: Self)
        ensures
            p.wf(),
            p.view() == Map::<Seq<char>, Property>::empty(),
    {
        Properties { props: NameMap::new() }
    }

    /// Creates a new property with the given name, description and initial value.
    ///
    /// Fails, leaving the properties unchanged, if a property of that name was already created.
    pub fn create(&mut self, name: &str, description: &str, value: Proptype) -> (r: OpmResult<()>)
        requires
            old(self).wf(),
        ensures
            final(self).wf(),
            r is Ok <==> !old(self).view().contains_key(name@),
            r is Ok ==> final(self).view().dom() == old(self).view().dom().insert(name@)
                && final(self).view().remove(name@) == old(self).view().remove(name@)
                && final(self).view()[name@].spec_prop() == value
                && final(self).view()[name@].spec_description() == description@,
            r is Err ==> final(self).view() == old(self).view(),
            r matches Err(e) ==> e is Properties,
    {
        if self.props.contains_key(name) {
            let mut msg = "property ".to_owned();
            msg.append(name);
            msg.append(" already created");
            return Err(OpossumError::Properties(msg));
        }
        let p = Property::new(value, description.to_owned());
        let ghost old_view = self.view();
        self.props.insert(name.to_owned(), p);
        assert(self.view().dom() =~= old_view.dom().insert(name@));
        assert(self.view().remove(name@) =~= old_view.remove(name@));
        Ok(())
    }

    /// The number of properties.
    pub fn nr_of_props(&self) -> (n: usize)
        requires
            self.wf(),
        ensures
            n == self.view().dom().len(),
    {
        proof { self.lemma_names(); }
        self.props.len()
    }

    /// `true` iff there is no property.
    pub fn is_empty(&self) -> (b: bool)
        requires
            self.wf(),
        ensures
            b == self.view().dom().is_empty(),
    {
        proof {
            self.lemma_names();
            if self.names_view().len() > 0 {
                assert(self.view().contains_key(self.names_view()[0]));
            }
        }
        self.props.is_empty()
    }

    /// `true` iff a property of the given name exists.
    pub fn contains(&self, key: &str) -> (b: bool)
        requires
            self.wf(),
        ensures
            b == self.view().contains_key(key@),
    {
        self.props.contains_key(key)
    }

    /// The names of the properties, in ascending order.
    pub fn names(&self) -> (v: Vec<String>)
        ensures
            v@.map_values(|k: String| k@) == self.names_view(),
    {
        self.props.key_list()
    }

    /// Sets the value of the property of the given name.
    ///
    /// Fails, leaving the properties unchanged, if the property does not exist or the new value
    /// is of another variant than the current one.
    pub fn set(&mut self, name: &str, value: Proptype) -> (r: OpmResult<()>)
        requires
            old(self).wf(),
        ensures
            final(self).wf(),
            r is Ok <==> old(self).view().contains_key(name@)
                && kind(value) == kind(old(self).value_of(name@)),
            r is Ok ==> final(self).view().dom() == old(self).view().dom()
                && final(self).view().remove(name@) == old(self).view().remove(name@)
                && final(self).value_of(name@) == value
                && final(self).view()[name@].spec_description() == old(self).view()[name@].spec_description(),
            r is Err ==> final(self).view() == old(self).view(),
            r matches Err(e) ==> e is Properties,
    {
        match self.props.find(name) {
            None => {
                let mut msg = "property ".to_owned();
                msg.append(name);
                msg.append(" does not exist");
                Err(OpossumError::Properties(msg))
            },
            Some(i) => {
                proof { self.props.lemma_entry(i as int); }
                let current = self.props.value_at(i);
                if current.prop.kind() != value.kind() {
                    return Err(OpossumError::Properties("incompatible value types".to_owned()));
                }
                let p = Property::new(value, current.description.clone());
                let ghost old_view = self.view();
                self.props.set_value_at(i, p);
                assert(self.view().dom() =~= old_view.dom());
                assert(self.view().remove(name@) =~= old_view.remove(name@));
                Ok(())
            },
        }
    }

    /// Updates these properties from another set: every property of `new_properties` whose name
    /// exists here and whose value is of the same variant is set; all others are ignored.
    pub fn update(&mut self, new_properties: Self)
        requires
            old(self).wf(),
            new_properties.wf(),
        ensures
            final(self).wf(),
            final(self).view().dom() == old(self).view().dom(),
            forall|k: Seq<char>| #[trigger] old(self).view().contains_key(k) ==>
                final(self).view()[k].spec_description() == old(self).view()[k].spec_description()
                && final(self).value_of(k) == updated_value(old(self).value_of(k), new_properties.view(), k),
    {
        let ghost start = self.view();
        let ghost src = new_properties.view();
        let ghost ks = new_properties.names_view();
        proof {
            new_properties.lemma_names();
            new_properties.props.lemma_all_entries();
        }
        let entries = new_properties.props.into_entries();
        let mut entries = entries;
        let ghost all = entries@;
        let mut n = entries.len();
        assert(entries@.take(n as int) =~= entries@);
        while n > 0
            invariant
                self.wf(),
                n == entries@.len(),
                n <= all.len(),
                entries@ == all.take(n as int),
                entry_keys(all) == ks,
                all.len() == ks.len(),
                entry_values(all).len() == ks.len(),
                forall|j: int| 0 <= j < ks.len() ==> src.contains_key(#[trigger] ks[j])
                    && src[ks[j]] == entry_values(all)[j],
                crate::text_order::strictly_sorted(ks),
                forall|k: Seq<char>| src.contains_key(k) ==> ks.contains(k),
                self.view().dom() == start.dom(),
                forall|k: Seq<char>| #[trigger] start.contains_key(k) ==>
                    self.view()[k].spec_description() == start[k].spec_description()
                    && self.value_of(k) == updated_value(start[k].spec_prop(),
                        src.restrict(Set::new(|x: Seq<char>| exists|j: int| n <= j < ks.len() && ks[j] == x)), k),
            decreases n,
        {
            let (name, prop) = entries.pop().unwrap();
            n = n - 1;
            let ghost before = self.view();
            assert(all[n as int] == (name, prop));
            assert(ks[n as int] == name@);
            let res = self.set(name.as_str(), prop.prop);
            proof {
                let s0 = Set::new(|x: Seq<char>| exists|j: int| n + 1 <= j < ks.len() && ks[j] == x);
                let s1 = Set::new(|x: Seq<char>| exists|j: int| n <= j < ks.len() && ks[j] == x);
                assert forall|x: Seq<char>| s1.contains(x) == (s0.contains(x) || x == name@) by {
                    if s1.contains(x) {
                        let j = choose|j: int| n <= j < ks.len() && ks[j] == x;
                        if j > n {
                            assert(s0.contains(x));
                        }
                    }
                    if s0.contains(x) {
                        let j = choose|j: int| n + 1 <= j < ks.len() && ks[j] == x;
                        assert(s1.contains(x));
                    }
                    if x == name@ {
                        assert(ks[n as int] == x);
                    }
                }
                assert(!s0.contains(name@)) by {
                    if s0.contains(name@) {
                        let j = choose|j: int| n + 1 <= j < ks.len() && ks[j] == name@;
                        crate::text_order::lemma_sorted_unique(ks, j, n as int);
                    }
                }
                assert(src[name@].spec_prop() == prop.prop);
                assert forall|k: Seq<char>| #[trigger] start.contains_key(k) implies
                    self.view()[k].spec_description() == start[k].spec_description()
                    && self.value_of(k) == updated_value(start[k].spec_prop(), src.restrict(s1), k) by {
                    if k != name@ {
                        if res is Ok {
                            assert(self.view().remove(name@)[k] == self.view()[k]);
                            assert(before.remove(name@)[k] == before[k]);
                        }
                        assert(self.view()[k] == before[k]);
                    }
                }
            }
        }
        proof {
            let s = Set::new(|x: Seq<char>| exists|j: int| 0 <= j < ks.len() && ks[j] == x);
            assert forall|x: Seq<char>| src.contains_key(x) implies s.contains(x) by {
                assert(ks.contains(x));
                let j = choose|j: int| 0 <= j < ks.len() && ks[j] == x;
            }
            assert(src.restrict(s) =~= src);
        }
    }

    /// The value of the property of the given name.
    pub fn get(&self, name: &str) -> (r: OpmResult<&Proptype>)
        requires
            self.wf(),
        ensures
            r is Ok <==> self.view().contains_key(name@),
            r matches Ok(p) ==> *p == self.value_of(name@),
            r matches Err(e) ==> e is Properties,
    {
        match self.props.get(name) {
            Some(p) => Ok(p.prop()),
            None => {
                let mut msg = "property ".to_owned();
                msg.append(name);
                msg.append(" does not exist");
                Err(OpossumError::Properties(msg))
            },
        }
    }

    /// The value of a boolean property.
    ///
    /// Fails if the property does not exist (`Properties` error) or is not a boolean (`Other`
    /// error).
    pub fn get_bool(&self, name: &str) -> (r: OpmResult<bool>)
        requires
            self.wf(),
        ensures
            r is Ok <==> self.view().contains_key(name@) && self.value_of(name@) is Bool,
            r matches Ok(b) ==> self.value_of(name@) == Proptype::Bool(b),
            !self.view().contains_key(name@) ==> (r matches Err(e) && e is Properties),
            self.view().contains_key(name@) && !(self.value_of(name@) is Bool) ==> (r matches Err(e) && e is Other),
    {
        match self.props.get(name) {
            Some(p) => match p.prop() {
                Proptype::Bool(b) => Ok(*b),
                _ => Err(OpossumError::Other("not a bool property".to_owned())),
            },
            None => {
                let mut msg = "property ".to_owned();
                msg.append(name);
                msg.append(" does not exist");
                Err(OpossumError::Properties(msg))
            },
        }
    }
}

impl Properties {
    /// The properties as (name, property) entries, in ascending order of the names.
    pub fn into_entries(self) -> (v: Vec<(String, Property)>)
        requires
            self.wf(),
        ensures
            v@.len() == self.names_view().len(),
            forall|j: int| 0 <= j < v@.len() ==> (#[trigger] v@[j]).0@ == self.names_view()[j]
                && v@[j].1 == self.view()[self.names_view()[j]],
            self.names_view().no_duplicates(),
            crate::text_order::strictly_sorted(self.names_view()),
            forall|k: Seq<char>| self.names_view().contains(k) <==> self.view().contains_key(k),
    {
        proof { self.props.lemma_all_entries(); }
        let v = self.props.into_entries();
        proof {
            assert forall|j: int| 0 <= j < v@.len() implies (#[trigger] v@[j]).0@ == self.names_view()[j]
                && v@[j].1 == self.view()[self.names_view()[j]] by {
                assert(entry_keys(v@)[j] == v@[j].0@);
                assert(entry_values(v@)[j] == v@[j].1);
            }
        }
        v
    }

    /// The value of the string property `node_type`.
    ///
    /// Fails (`Properties` error) if there is no such property or it is not a string.
    pub fn node_type(&self) -> (r: OpmResult<&str>)
        requires
            self.wf(),
        ensures
            r is Ok <==> self.view().contains_key("node_type"@) && self.value_of("node_type"@) is String,
            r matches Ok(t) ==> t@ == string_value(self.value_of("node_type"@)),
            r matches Err(e) ==> e is Properties,
    {
        match self.get("node_type") {
            Ok(Proptype::String(t)) => Ok(t.as_str()),
            _ => Err(OpossumError::Properties("Property: \"node_type\" not set!".to_owned())),
        }
    }

    /// The value of the string property `name`, or, if there is none, that of `node_type`.
    ///
    /// Fails (`Properties` error) if neither is a string property.
    pub fn name(&self) -> (r: OpmResult<&str>)
        requires
            self.wf(),
        ensures
            self.view().contains_key("name"@) && self.value_of("name"@) is String ==>
                (r matches Ok(t) && t@ == string_value(self.value_of("name"@))),
            !(self.view().contains_key("name"@) && self.value_of("name"@) is String) ==> {
                &&& r is Ok <==> self.view().contains_key("node_type"@) && self.value_of("node_type"@) is String
                &&& r matches Ok(t) ==> t@ == string_value(self.value_of("node_type"@))
            },
            r matches Err(e) ==> e is Properties,
    {
        match self.get("name") {
            Ok(Proptype::String(n)) => Ok(n.as_str()),
            _ => self.node_type(),
        }
    }

    /// The value of the boolean property `inverted` (see [`Properties::get_bool`]).
    pub fn inverted(&self) -> (r: OpmResult<bool>)
        requires
            self.wf(),
        ensures
            r is Ok <==> self.view().contains_key("inverted"@) && self.value_of("inverted"@) is Bool,
            r matches Ok(b) ==> self.value_of("inverted"@) == Proptype::Bool(b),
    {
        self.get_bool("inverted")
    }
}

impl Default for Properties {
    /// No properties.
    fn default() -> (p: Self)
        ensures
            p.wf(),
            p.view() == Map::<Seq<char>, Property>::empty(),
    {
        Properties::new()
    }
}

/// The text of a string value (empty for other values).
pub open spec fn string_value(p: Proptype) -> Seq<char> {
    match p {
        Proptype::String(s) => s@,
        _ => Seq::empty(),
    }
}

/// The value of the property `k` after an update from `src`: the value of `src` if `src` holds a
/// property `k` of the same variant, else the current value.
pub open spec fn updated_value(current: Proptype, src: Map<Seq<char>, Property>, k: Seq<char>) -> Proptype {
    if src.contains_key(k) && kind(src[k].spec_prop()) == kind(current) {
        src[k].spec_prop()
    } else {
        current
    }
}

} // verus!
