//! The light connection between two optical nodes: an edge of the optical graph.
use vstd::prelude::*;
use crate::error::{OpmResult, OpossumError};
use crate::float_bits::{bits_is_finite, is_finite};

verus! {

/// A connection from an output port of one node to an input port of another node.
///
/// The propagation distance is an `f64` length (meters) carried as its bit pattern. The light
/// data that travels along the connection during an analysis is held outside this crate; the
/// connection carries the key under which it is found.
#[derive(Debug, Clone, PartialEq)]
pub struct Light {
    src_port: String,
    target_port: String,
    distance: u64,
    data: Option<u64>,
}

/// The abstract value of a connection: source port, target port, distance, data key.
pub type LightView = (Seq<char>, Seq<char>, u64, Option<u64>);

impl View for Light {
    type V = LightView;

    closed spec fn view(&self) -> LightView {
        (self.src_port@, self.target_port@, self.distance, self.data)
    }
}

impl Light {
    /// Creates a new connection without data. Fails if the distance is not finite.
    pub fn new(src_port: &str, target_port: &str, distance: u64) -> (r: OpmResult<Self>)
        ensures
            r is Ok <==> is_finite(distance),
            r matches Ok(l) ==> l@ == (src_port@, target_port@, distance, None::<u64>),
            r matches Err(e) ==> e is Other,
    {
        if !bits_is_finite(distance) {
            return Err(OpossumError::Other("distance must be finite".to_owned()));
        }
        Ok(Light {
            src_port: src_port.to_owned(),
            target_port: target_port.to_owned(),
            distance,
            data: None,
        })
    }

    /// A connection between unnamed ports at distance `+0.0`, without data.
    pub(crate) fn detached() -> (l: Self)
        ensures
            l@ == (Seq::<char>::empty(), Seq::<char>::empty(), 0u64, None::<u64>),
    {
        Light { src_port: String::new(), target_port: String::new(), distance: 0, data: None }
    }

    /// The name of the source (output) port.
    pub fn src_port(&self) -> (p: &str)
        ensures
            p@ == self@.0,
    {
        self.src_port.as_str()
    }

    /// The name of the target (input) port.
    pub fn target_port(&self) -> (p: &str)
        ensures
            p@ == self@.1,
    {
        self.target_port.as_str()
    }

    /// The propagation distance (bit pattern of the length in meters).
    pub fn distance(&self) -> (d: u64)
        ensures
            d == self@.2,
    {
        self.distance
    }

    /// The key of the light data carried, if any.
    pub fn data(&self) -> (d: Option<u64>)
        ensures
            d == self@.3,
    {
        self.data
    }

    /// Sets the key of the light data carried.
    pub fn set_data(&mut self, data: Option<u64>)
        ensures
            final(self)@ == (old(self)@.0, old(self)@.1, old(self)@.2, data),
    {
        self.data = data;
    }

    /// Inverts the direction of the connection: the source and the target port are swapped.
    pub fn inverse(&mut self)
        ensures
            final(self)@ == inverse_view(old(self)@),
    {
        std::mem::swap(&mut self.src_port, &mut self.target_port);
    }
}

/// A connection with source and target port swapped.
pub open spec fn inverse_view(l: LightView) -> LightView {
    (l.1, l.0, l.2, l.3)
}

/// Inverting a connection twice gives back the connection.
pub proof fn lemma_inverse_twice(l: LightView)
    ensures
        inverse_view(inverse_view(l)) == l,
{
}

} // verus!
