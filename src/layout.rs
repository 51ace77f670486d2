use vstd::prelude::*;

use crate::node::Position;

verus! {

/// How much room a widget takes along an axis.
#[derive(Clone, Copy, Debug, PartialEq, Eq, Structural)]
pub enum Size {
    Auto,
    Fixed(u16),
    Fill,
}

impl Default for Size {
    fn default() -> (r: Self)
        ensures
            r == Size::Fill,
    {
        Size::Fill
    }
}

/// Position and size along one axis.
#[derive(Clone, Copy, Debug, PartialEq, Eq, Structural)]
pub struct Sizing {
    pub position: Position,
    pub size: Size,
}

impl Default for Sizing {
    fn default() -> (r: Self)
        ensures
            r == (Sizing { position: Position::Start, size: Size::Fill }),
    {
        Sizing { position: Position::Start, size: Size::Fill }
    }
}

impl Sizing {
    /// The same sizing, centred.
    pub fn centred(&self) -> (r: Sizing)
        ensures
            r == (Sizing { position: Position::Centre, ..*self }),
    {
        Sizing { position: Position::Centre, size: self.size }
    }

    /// The same position with `size`.
    pub fn size(&self, size: Size) -> (r: Sizing)
        ensures
            r == (Sizing { size, ..*self }),
    {
        Sizing { position: self.position, size }
    }
}

/// Sizing along both axes.
#[derive(Clone, Copy, Debug, PartialEq, Eq, Structural)]
pub struct Layout {
    pub horizontal: Sizing,
    pub vertical: Sizing,
}

impl Default for Layout {
    fn default() -> (r: Self)
        ensures
            r.horizontal == (Sizing { position: Position::Start, size: Size::Fill }),
            r.vertical == (Sizing { position: Position::Start, size: Size::Fill }),
    {
        Layout { horizontal: Sizing::default(), vertical: Sizing::default() }
    }
}

impl Layout {
    /// The same layout with `horizontal` across.
    pub fn horizontal(&self, horizontal: Sizing) -> (r: Layout)
        ensures
            r == (Layout { horizontal, ..*self }),
    {
        Layout { horizontal, vertical: self.vertical }
    }

    /// The same layout with `vertical` down.
    pub fn vertical(&self, vertical: Sizing) -> (r: Layout)
        ensures
            r == (Layout { vertical, ..*self }),
    {
        Layout { horizontal: self.horizontal, vertical }
    }

    /// The same layout, centred along both axes.
    pub fn centred(&self) -> (r: Layout)
        ensures
            r.horizontal == self.horizontal.centred_spec(),
            r.vertical == self.vertical.centred_spec(),
    {
        Layout { horizontal: self.horizontal.centred(), vertical: self.vertical.centred() }
    }
}

impl Sizing {
    /// This sizing, centred.
    pub open spec fn centred_spec(self) -> Sizing {
        Sizing { position: Position::Centre, size: self.size }
    }
}

} // verus!
