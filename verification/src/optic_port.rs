//! A single optical port: the aperture and the coating of an interface of an optical element.
use vstd::prelude::*;

verus! {

/// Parameters of a circular aperture: radius and center, each an `f64` quantity (in meters)
/// carried as its raw IEEE-754 bit pattern.
#[derive(Clone, Copy, Debug, PartialEq, Eq)]
pub struct CircleConfig {
    /// Bit pattern of the radius.
    pub radius: u64,
    /// Bit patterns of the x and y coordinate of the center.
    pub center: (u64, u64),
}

/// The aperture of an optical port.
#[derive(Clone, Copy, Debug, PartialEq, Eq)]
pub enum Aperture {
    /// No aperture: all light passes (listed as `None`).
    NoAperture,
    /// A binary (hard-edged) circular aperture.
    BinaryCircle(CircleConfig),
}

/// The coating of an optical port.
#[derive(Clone, Copy, Debug, PartialEq, Eq)]
pub enum CoatingType {
    /// An ideal anti-reflection coating (no reflection).
    IdealAR,
    /// A constant reflectivity, an `f64` fraction carried as its raw IEEE-754 bit pattern.
    ConstantR { reflectivity: u64 },
}

/// The text by which an aperture is listed.
pub open spec fn aperture_text(a: Aperture) -> Seq<char> {
    match a {
        Aperture::NoAperture => "None"@,
        Aperture::BinaryCircle(_) => "BinaryCircle"@,
    }
}

/// The text by which a coating is listed.
pub open spec fn coating_text(c: CoatingType) -> Seq<char> {
    match c {
        CoatingType::IdealAR => "IdealAR"@,
        CoatingType::ConstantR { .. } => "ConstantR"@,
    }
}

impl Aperture {
    /// The text by which this aperture is listed (its variant name).
    pub fn text(&self) -> (s: String)
        ensures
            s@ == aperture_text(*self),
    {
        match self {
            Aperture::NoAperture => "None".to_owned(),
            Aperture::BinaryCircle(_) => "BinaryCircle".to_owned(),
        }
    }
}

impl CoatingType {
    /// The text by which this coating is listed (its variant name).
    pub fn text(&self) -> (s: String)
        ensures
            s@ == coating_text(*self),
    {
        match self {
            CoatingType::IdealAR => "IdealAR".to_owned(),
            CoatingType::ConstantR { .. } => "ConstantR".to_owned(),
        }
    }
}

/// An optical port: the aperture and the coating of one interface of an optical element.
#[derive(Clone, Copy, Debug, PartialEq, Eq)]
pub struct OpticPort {
    aperture: Aperture,
    coating: CoatingType,
}

impl View for OpticPort {
    /// The aperture and the coating of the port.
    type V = (Aperture, CoatingType);

    closed spec fn view(&self) -> (Aperture, CoatingType) {
        (self.aperture, self.coating)
    }
}

impl OpticPort {
    /// The aperture of this port.
    pub open spec fn spec_aperture(self) -> Aperture {
        self@.0
    }

    /// The coating of this port.
    pub open spec fn spec_coating(self) -> CoatingType {
        self@.1
    }

    /// Creates a new port with the given aperture and coating.
    pub fn new(aperture: Aperture, coating: CoatingType) -> (p: Self)
        ensures
            p.spec_aperture() == aperture,
            p.spec_coating() == coating,
    {
        Self { aperture, coating }
    }

    /// A port without aperture and with an ideal anti-reflection coating.
    pub fn default_port() -> (p: Self)
        ensures
            p@ == (Aperture::NoAperture, CoatingType::IdealAR),
            p.spec_aperture() == Aperture::NoAperture,
            p.spec_coating() == CoatingType::IdealAR,
    {
        Self { aperture: Aperture::NoAperture, coating: CoatingType::IdealAR }
    }

    /// Sets the aperture of this port.
    pub fn set_aperture(&mut self, aperture: Aperture)
        ensures
            final(self).spec_aperture() == aperture,
            final(self).spec_coating() == old(self).spec_coating(),
    {
        self.aperture = aperture;
    }

    /// Sets the coating of this port.
    pub fn set_coating(&mut self, coating: CoatingType)
        ensures
            final(self).spec_coating() == coating,
            final(self).spec_aperture() == old(self).spec_aperture(),
    {
        self.coating = coating;
    }

    /// The aperture of this port.
    pub fn aperture(&self) -> (a: &Aperture)
        ensures
            *a == self.spec_aperture(),
    {
        &self.aperture
    }

    /// The coating of this port.
    pub fn coating(&self) -> (c: &CoatingType)
        ensures
            *c == self.spec_coating(),
    {
        &self.coating
    }

    /// The debug text of this port: `OpticPort { aperture: <aperture>, coating: <coating> }`.
    pub fn debug_text(&self) -> (s: String)
        ensures
            s@ == port_text(*self),
    {
        let mut s = "OpticPort { aperture: ".to_owned();
        s.append(self.aperture.text().as_str());
        s.append(", coating: ");
        s.append(self.coating.text().as_str());
        s.append(" }");
        s
    }
}

/// The debug text of a port.
pub open spec fn port_text(p: OpticPort) -> Seq<char> {
    "OpticPort { aperture: "@ + aperture_text(p.spec_aperture()) + ", coating: "@
        + coating_text(p.spec_coating()) + " }"@
}

impl Default for OpticPort {
    fn default() -> (p: Self)
        ensures
            p.spec_aperture() == Aperture::NoAperture,
            p.spec_coating() == CoatingType::IdealAR,
    {
        Self::default_port()
    }
}

} // verus!
