//! The cells a canvas is made of, and how two cells that meet are merged.

use vstd::prelude::*;

verus! {

/// A display colour, one byte per channel.
#[derive(Clone, Copy, Debug, PartialEq, Eq, Structural)]
pub struct Color {
    pub red: u8,
    pub green: u8,
    pub blue: u8,
}

/// The role of one canvas cell, before a theme turns it into a glyph.
///
/// The variants are listed from lowest to highest precedence; `rank` states
/// that order explicitly.
#[derive(Clone, Copy, Debug, PartialEq, Eq, Structural)]
pub enum PlaceHolder {
    /// Empty space.
    Empty,
    /// Empty space within a balloon.
    Padding,
    /// Left side of a pointer shaft.
    ArrowLeft,
    /// Right side of a pointer shaft.
    ArrowRight,
    /// Top wall of a balloon.
    North,
    /// Right wall of a balloon.
    East,
    /// Bottom wall of a balloon.
    South,
    /// Left wall of a balloon.
    West,
    /// Top right corner.
    NorthEast,
    /// Bottom right corner.
    SouthEast,
    /// Bottom left corner.
    SouthWest,
    /// Top left corner.
    NorthWest,
    /// Where the bottom wall turns into the left side of the pointer.
    TransitionLeft,
    /// Where the bottom wall turns into the right side of the pointer.
    TransitionRight,
    /// A left transition that falls on a corner.
    TransitionLeftEdge,
    /// A right transition that falls on a corner.
    TransitionRightEdge,
    /// A top wall crossed by the left side of a pointer.
    ArrowOverlayNorthLeft,
    /// A top wall crossed by the right side of a pointer.
    ArrowOverlayNorthRight,
    /// A bottom wall crossed by the left side of a pointer.
    ArrowOverlaySouthLeft,
    /// A bottom wall crossed by the right side of a pointer.
    ArrowOverlaySouthRight,
    /// One character of a label, in the colour of its group.
    Text(char, Color),
}

impl Color {
    /// Lexicographic order on (red, green, blue).
    pub open spec fn precedes(self, other: Color) -> bool {
        self.red < other.red || (self.red == other.red && (self.green < other.green || (self.green
            == other.green && self.blue <= other.blue)))
    }

    /// Whether `self` comes before or equals `other`.
    pub fn is_at_most(&self, other: &Color) -> (r: bool)
        ensures
            r == self.precedes(*other),
    {
        self.red < other.red || (self.red == other.red && (self.green < other.green || (self.green
            == other.green && self.blue <= other.blue)))
    }
}

impl PlaceHolder {
    /// The precedence class of a cell: a higher rank is drawn over a lower one.
    pub open spec fn rank(self) -> nat {
        match self {
            PlaceHolder::Empty => 0,
            PlaceHolder::Padding => 1,
            PlaceHolder::ArrowLeft => 2,
            PlaceHolder::ArrowRight => 3,
            PlaceHolder::North => 4,
            PlaceHolder::East => 5,
            PlaceHolder::South => 6,
            PlaceHolder::West => 7,
            PlaceHolder::NorthEast => 8,
            PlaceHolder::SouthEast => 9,
            PlaceHolder::SouthWest => 10,
            PlaceHolder::NorthWest => 11,
            PlaceHolder::TransitionLeft => 12,
            PlaceHolder::TransitionRight => 13,
            PlaceHolder::TransitionLeftEdge => 14,
            PlaceHolder::TransitionRightEdge => 15,
            PlaceHolder::ArrowOverlayNorthLeft => 16,
            PlaceHolder::ArrowOverlayNorthRight => 17,
            PlaceHolder::ArrowOverlaySouthLeft => 18,
            PlaceHolder::ArrowOverlaySouthRight => 19,
            PlaceHolder::Text(_, _) => 20,
        }
    }

    /// The total order on cells: by rank, and two text cells by character and
    /// then by colour.
    pub open spec fn precedes(self, other: PlaceHolder) -> bool {
        match (self, other) {
            (PlaceHolder::Text(c, color), PlaceHolder::Text(d, other_color)) => (c as u32) < (
            d as u32) || (c == d && color.precedes(other_color)),
            _ => self.rank() <= other.rank(),
        }
    }

    /// The one of two cells that comes last in the order.
    pub open spec fn upper(self, other: PlaceHolder) -> PlaceHolder {
        if self.precedes(other) {
            other
        } else {
            self
        }
    }

    /// The one of two cells that comes first in the order.
    pub open spec fn lower(self, other: PlaceHolder) -> PlaceHolder {
        if self.precedes(other) {
            self
        } else {
            other
        }
    }

    /// What a cell shows where `self` and `other` meet.
    ///
    /// A wall that crosses a pointer shaft becomes a junction. Empty space
    /// gives way to anything. Padding covers whatever else it meets.
    /// Otherwise the cell that comes last in the order is kept.
    pub open spec fn merge(self, other: PlaceHolder) -> PlaceHolder {
        let front = self.upper(other);
        let back = self.lower(other);
        if front == PlaceHolder::North && back == PlaceHolder::ArrowLeft {
            PlaceHolder::ArrowOverlayNorthLeft
        } else if front == PlaceHolder::North && back == PlaceHolder::ArrowRight {
            PlaceHolder::ArrowOverlayNorthRight
        } else if front == PlaceHolder::South && back == PlaceHolder::ArrowLeft {
            PlaceHolder::ArrowOverlaySouthLeft
        } else if front == PlaceHolder::South && back == PlaceHolder::ArrowRight {
            PlaceHolder::ArrowOverlaySouthRight
        } else if back == PlaceHolder::Empty {
            front
        } else if back == PlaceHolder::Padding {
            PlaceHolder::Padding
        } else {
            front
        }
    }

    /// The rank as a number.
    pub fn level(&self) -> (r: u8)
        ensures
            r == self.rank(),
    {
        match self {
            PlaceHolder::Empty => 0,
            PlaceHolder::Padding => 1,
            PlaceHolder::ArrowLeft => 2,
            PlaceHolder::ArrowRight => 3,
            PlaceHolder::North => 4,
            PlaceHolder::East => 5,
            PlaceHolder::South => 6,
            PlaceHolder::West => 7,
            PlaceHolder::NorthEast => 8,
            PlaceHolder::SouthEast => 9,
            PlaceHolder::SouthWest => 10,
            PlaceHolder::NorthWest => 11,
            PlaceHolder::TransitionLeft => 12,
            PlaceHolder::TransitionRight => 13,
            PlaceHolder::TransitionLeftEdge => 14,
            PlaceHolder::TransitionRightEdge => 15,
            PlaceHolder::ArrowOverlayNorthLeft => 16,
            PlaceHolder::ArrowOverlayNorthRight => 17,
            PlaceHolder::ArrowOverlaySouthLeft => 18,
            PlaceHolder::ArrowOverlaySouthRight => 19,
            PlaceHolder::Text(_, _) => 20,
        }
    }

    /// Whether `self` comes before or equals `other` in the order.
    pub fn is_at_most(&self, other: &PlaceHolder) -> (r: bool)
        ensures
            r == self.precedes(*other),
    {
        match (self, other) {
            (PlaceHolder::Text(c, color), PlaceHolder::Text(d, other_color)) => {
                let left: u32 = *c as u32;
                let right: u32 = *d as u32;
                left < right || (left == right && color.is_at_most(other_color))
            },
            _ => self.level() <= other.level(),
        }
    }

    /// Merges two cells that fall on the same canvas position.
    pub fn overlay(&self, another: &PlaceHolder) -> (r: PlaceHolder)
        ensures
            r == self.merge(*another),
    {
        let (front, back) = if self.is_at_most(another) {
            (*another, *self)
        } else {
            (*self, *another)
        };
        match (front, back) {
            (PlaceHolder::North, PlaceHolder::ArrowLeft) => PlaceHolder::ArrowOverlayNorthLeft,
            (PlaceHolder::North, PlaceHolder::ArrowRight) => PlaceHolder::ArrowOverlayNorthRight,
            (PlaceHolder::South, PlaceHolder::ArrowLeft) => PlaceHolder::ArrowOverlaySouthLeft,
            (PlaceHolder::South, PlaceHolder::ArrowRight) => PlaceHolder::ArrowOverlaySouthRight,
            (PlaceHolder::Empty, _) => back,
            (_, PlaceHolder::Empty) => front,
            (PlaceHolder::Padding, _) => front,
            (_, PlaceHolder::Padding) => back,
            _ => front,
        }
    }
}

impl Default for PlaceHolder {
    /// Empty space.
    fn default() -> (r: PlaceHolder)
        ensures
            r == PlaceHolder::Empty,
    {
        PlaceHolder::Empty
    }
}

/// The order never leaves two cells unrelated.
pub proof fn lemma_order_total(a: PlaceHolder, b: PlaceHolder)
    ensures
        a.precedes(b) || b.precedes(a),
{
}

/// Two cells that precede each other are the same cell.
pub proof fn lemma_order_antisymmetric(a: PlaceHolder, b: PlaceHolder)
    requires
        a.precedes(b),
        b.precedes(a),
    ensures
        a == b,
{
}

/// The order is transitive.
pub proof fn lemma_order_transitive(a: PlaceHolder, b: PlaceHolder, c: PlaceHolder)
    requires
        a.precedes(b),
        b.precedes(c),
    ensures
        a.precedes(c),
{
}

/// Merging does not depend on which cell is given first.
pub proof fn lemma_merge_commutative(a: PlaceHolder, b: PlaceHolder)
    ensures
        a.merge(b) == b.merge(a),
{
    lemma_order_total(a, b);
    if a.precedes(b) && b.precedes(a) {
        lemma_order_antisymmetric(a, b);
    }
}

/// A cell merged with itself is unchanged.
pub proof fn lemma_merge_idempotent(a: PlaceHolder)
    ensures
        a.merge(a) == a,
{
}

/// Empty space merged with a cell gives that cell.
pub proof fn lemma_merge_empty(a: PlaceHolder)
    ensures
        a.merge(PlaceHolder::Empty) == a,
        PlaceHolder::Empty.merge(a) == a,
{
}

/// Padding merged with any cell but empty space gives padding.
pub proof fn lemma_merge_padding(a: PlaceHolder)
    requires
        a != PlaceHolder::Empty,
    ensures
        a.merge(PlaceHolder::Padding) == PlaceHolder::Padding,
        PlaceHolder::Padding.merge(a) == PlaceHolder::Padding,
{
}

} // verus!
