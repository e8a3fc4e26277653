//! The widget tree: flow containers and labelled, coloured leaves.
use vstd::prelude::*;
use crate::metrics::Face;

verus! {

/// The direction in which a flow container stacks its children. It fixes the
/// axis (`Up` and `Down` are vertical, `Left` and `Right` horizontal) and the
/// order: the first child goes at the bottom for `Up`, at the top for `Down`,
/// at the right for `Left` and at the left for `Right`.
#[derive(Clone, Copy, Debug, PartialEq, Eq, Structural)]
pub enum Direction {
    Up,
    Down,
    Left,
    Right,
}

/// An opaque colour, one byte per channel.
#[derive(Clone, Copy, Debug, PartialEq, Eq, Structural)]
pub struct Rgb {
    pub r: u8,
    pub g: u8,
    pub b: u8,
}

/// A coloured box with a text label set in one of the two faces.
#[derive(Clone, Debug)]
pub struct Leaf {
    pub color: Rgb,
    pub label: String,
    pub face: Face,
}

/// A node of the widget tree.
#[derive(Debug)]
pub enum Widget {
    Flow(Direction, Vec<Widget>),
    Leaf(Leaf),
}

impl Direction {
    /// `Up` and `Down` stack along the vertical axis.
    pub open spec fn spec_is_vertical(self) -> bool {
        self is Up || self is Down
    }

    /// `Up` and `Left` place the first child at the far end of the main axis.
    pub open spec fn spec_is_reversed(self) -> bool {
        self is Up || self is Left
    }

    pub fn is_vertical(&self) -> (r: bool)
        ensures
            r == self.spec_is_vertical(),
    {
        match self {
            Direction::Up | Direction::Down => true,
            Direction::Left | Direction::Right => false,
        }
    }

    pub fn is_reversed(&self) -> (r: bool)
        ensures
            r == self.spec_is_reversed(),
    {
        match self {
            Direction::Up | Direction::Left => true,
            Direction::Down | Direction::Right => false,
        }
    }
}

impl Rgb {
    pub fn new(r: u8, g: u8, b: u8) -> (c: Rgb)
        ensures
            c == (Rgb { r, g, b }),
    {
        Rgb { r, g, b }
    }
}

impl Widget {
    /// A flow container over the given children, in order.
    pub fn flow(dir: Direction, children: Vec<Widget>) -> (w: Widget)
        ensures
            w == Widget::Flow(dir, children),
    {
        Widget::Flow(dir, children)
    }

    /// A leaf whose label is set in the regular face.
    pub fn leaf(color: Rgb, label: &str) -> (w: Widget)
        ensures
            w matches Widget::Leaf(l) && l.color == color && l.label@ == label@ && l.face
                == Face::Regular,
    {
        Widget::Leaf(Leaf { color, label: label.to_owned(), face: Face::Regular })
    }

    /// A leaf whose label is set in the given face.
    pub fn leaf_in(color: Rgb, label: &str, face: Face) -> (w: Widget)
        ensures
            w matches Widget::Leaf(l) && l.color == color && l.label@ == label@ && l.face == face,
    {
        Widget::Leaf(Leaf { color, label: label.to_owned(), face })
    }
}

} // verus!
