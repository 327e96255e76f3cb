//! Configuration values of plots: backends, axis labels and color gradients.
use vstd::prelude::*;

verus! {

/// The plotting backend to be used.
#[derive(Clone, Copy, Debug, PartialEq, Eq, Structural)]
pub enum PltBackEnd {
    /// Bitmap backend: `.png`, `.bmp`, `.jpg` files.
    Bitmap,
    /// SVG backend: `.svg` files.
    SVG,
    /// Buffered backend: the image data goes to an image buffer.
    Buf,
}

impl Default for PltBackEnd {
    /// The bitmap backend.
    fn default() -> (b: Self)
        ensures
            b == PltBackEnd::Bitmap,
    {
        PltBackEnd::Bitmap
    }
}

/// The position of an axis label.
#[derive(Clone, Copy, Debug, PartialEq, Eq, Structural)]
pub enum LabelPos {
    /// On the top (x axis only).
    Top,
    /// On the bottom (x axis only).
    Bottom,
    /// On the left (y axis only).
    Left,
    /// On the right (y axis only).
    Right,
}

impl Default for LabelPos {
    /// On the left.
    fn default() -> (p: Self)
        ensures
            p == LabelPos::Left,
    {
        LabelPos::Left
    }
}

/// The description of an axis label: its text and its position.
#[derive(Debug, Clone)]
pub struct LabelDescription {
    label: String,
    label_pos: LabelPos,
}

impl LabelDescription {
    /// The text of the label.
    pub closed spec fn spec_label(self) -> Seq<char> {
        self.label@
    }

    /// The position of the label.
    pub closed spec fn spec_label_pos(self) -> LabelPos {
        self.label_pos
    }

    /// Creates a label description with the given text and position.
    pub fn new(label: &str, label_pos: LabelPos) -> (d: Self)
        ensures
            d.spec_label() == label@,
            d.spec_label_pos() == label_pos,
    {
        LabelDescription { label: label.to_owned(), label_pos }
    }

    /// Sets the position of the label; the text stays.
    pub fn set_label_pos(&mut self, pos: LabelPos)
        ensures
            final(self).spec_label_pos() == pos,
            final(self).spec_label() == old(self).spec_label(),
    {
        self.label_pos = pos;
    }

    /// Sets the text of the label; the position stays.
    pub fn set_label(&mut self, txt: &str)
        ensures
            final(self).spec_label() == txt@,
            final(self).spec_label_pos() == old(self).spec_label_pos(),
    {
        self.label = txt.to_owned();
    }

    /// The text of the label.
    pub fn label(&self) -> (s: &str)
        ensures
            s@ == self.spec_label(),
    {
        self.label.as_str()
    }

    /// The position of the label.
    pub fn label_pos(&self) -> (p: LabelPos)
        ensures
            p == self.spec_label_pos(),
    {
        self.label_pos
    }
}

/// The color gradient type of the `colorous` crate.
#[verifier::external_type_specification]
#[verifier::external_body]
pub struct ExGradient(colorous::Gradient);

/// The `Turbo` color gradient of the `colorous` crate (`colorous::TURBO`).
///
/// Nothing is stated of the value: a gradient is opaque here.
#[verifier::external_body]
fn turbo() -> colorous::Gradient {
    colorous::TURBO
}

/// The color gradient of a color bar.
#[derive(Debug, Clone, Copy)]
pub struct CGradient {
    gradient: colorous::Gradient,
}

impl CGradient {
    /// The gradient.
    pub closed spec fn spec_gradient(self) -> colorous::Gradient {
        self.gradient
    }

    /// The gradient.
    pub fn get_gradient(&self) -> (g: colorous::Gradient)
        ensures
            g == self.spec_gradient(),
    {
        self.gradient
    }
}

impl Default for CGradient {
    /// The `Turbo` gradient.
    fn default() -> Self {
        CGradient { gradient: turbo() }
    }
}

/// A color bar: a color gradient and the description of its label.
#[derive(Debug)]
pub struct ColorBar {
    cmap: colorous::Gradient,
    label: LabelDescription,
}

impl ColorBar {
    /// The color gradient.
    pub closed spec fn spec_cmap(self) -> colorous::Gradient {
        self.cmap
    }

    /// The text of the label.
    pub closed spec fn spec_label(self) -> Seq<char> {
        self.label.spec_label()
    }

    /// The position of the label.
    pub closed spec fn spec_label_pos(self) -> LabelPos {
        self.label.spec_label_pos()
    }

    /// Creates a color bar with the given gradient, label text and label position.
    pub fn new(cmap: colorous::Gradient, label: &str, label_pos: LabelPos) -> (c: Self)
        ensures
            c.spec_cmap() == cmap,
            c.spec_label() == label@,
            c.spec_label_pos() == label_pos,
    {
        ColorBar { cmap, label: LabelDescription::new(label, label_pos) }
    }

    /// Creates the default color bar: the `Turbo` gradient and an empty label on the right.
    pub fn new_default() -> (c: Self)
        ensures
            c.spec_label() == Seq::<char>::empty(),
            c.spec_label_pos() == LabelPos::Right,
    {
        proof { reveal_strlit(""); }
        ColorBar { cmap: turbo(), label: LabelDescription::new("", LabelPos::Right) }
    }

    /// Sets the position of the label.
    pub fn set_pos(&mut self, pos: LabelPos)
        ensures
            final(self).spec_label_pos() == pos,
            final(self).spec_label() == old(self).spec_label(),
            final(self).spec_cmap() == old(self).spec_cmap(),
    {
        self.label.set_label_pos(pos);
    }

    /// Sets the text of the label.
    pub fn set_label(&mut self, txt: &str)
        ensures
            final(self).spec_label() == txt@,
            final(self).spec_label_pos() == old(self).spec_label_pos(),
            final(self).spec_cmap() == old(self).spec_cmap(),
    {
        self.label.set_label(txt);
    }

    /// The gradient.
    pub fn cmap(&self) -> (g: colorous::Gradient)
        ensures
            g == self.spec_cmap(),
    {
        self.cmap
    }

    /// The description of the label.
    pub fn label(&self) -> (l: &LabelDescription)
        ensures
            l.spec_label() == self.spec_label(),
            l.spec_label_pos() == self.spec_label_pos(),
    {
        &self.label
    }
}

impl Default for ColorBar {
    /// The `Turbo` gradient and an empty label on the right.
    fn default() -> (c: Self)
        ensures
            c.spec_label() == Seq::<char>::empty(),
            c.spec_label_pos() == LabelPos::Right,
    {
        ColorBar::new_default()
    }
}

} // verus!
