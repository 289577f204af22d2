//! Geometry and alignment value types.
//!
//! Physical sizes and points live in a width/height frame.  Layouting works
//! in a generalized main/cross frame given by a pair of directions: the main
//! axis is the one along which lines stack, the cross axis the one along
//! which boxes are placed within a line.  Each direction records which
//! physical axis it runs along and whether it traverses it with positive or
//! negative polarity.

use vstd::prelude::*;

verus! {

/// Every extent handed to the layouters must lie in `0 ..= extent_limit()`.
/// The bound leaves enough headroom that all internal sums and differences
/// of extents stay well inside `i64`.
pub open spec fn extent_limit() -> int {
    0x4000_0000
}

/// A physical coordinate axis.
#[derive(Clone, Copy, Debug, PartialEq, Eq, Structural)]
pub enum Axis {
    Horizontal,
    Vertical,
}

/// A direction along one physical axis.
#[derive(Clone, Copy, Debug, PartialEq, Eq, Structural)]
pub enum Dir {
    LeftToRight,
    RightToLeft,
    TopToBottom,
    BottomToTop,
}

impl Dir {
    /// The physical axis this direction runs along.
    pub open spec fn spec_axis(self) -> Axis {
        match self {
            Dir::LeftToRight => Axis::Horizontal,
            Dir::RightToLeft => Axis::Horizontal,
            Dir::TopToBottom => Axis::Vertical,
            Dir::BottomToTop => Axis::Vertical,
        }
    }

    /// Whether this direction traverses its axis with positive polarity.
    pub open spec fn spec_is_positive(self) -> bool {
        match self {
            Dir::LeftToRight => true,
            Dir::TopToBottom => true,
            Dir::RightToLeft => false,
            Dir::BottomToTop => false,
        }
    }

    /// The physical axis this direction runs along.
    pub fn axis(self) -> (r: Axis)
        ensures
            r == self.spec_axis(),
    {
        match self {
            Dir::LeftToRight => Axis::Horizontal,
            Dir::RightToLeft => Axis::Horizontal,
            Dir::TopToBottom => Axis::Vertical,
            Dir::BottomToTop => Axis::Vertical,
        }
    }

    /// Whether this direction traverses its axis with positive polarity.
    pub fn is_positive(self) -> (r: bool)
        ensures
            r == self.spec_is_positive(),
    {
        match self {
            Dir::LeftToRight => true,
            Dir::TopToBottom => true,
            Dir::RightToLeft => false,
            Dir::BottomToTop => false,
        }
    }
}

/// The pair of layout directions: one for the main axis, one for the cross
/// axis.  A well-formed pair covers both physical axes.
#[derive(Clone, Copy, Debug, PartialEq, Eq, Structural)]
pub struct Dirs {
    pub main: Dir,
    pub cross: Dir,
}

/// The two directions must run along different physical axes.
pub open spec fn wf_dirs(d: Dirs) -> bool {
    d.main.spec_axis() != d.cross.spec_axis()
}

/// An alignment along one generalized axis.
#[derive(Clone, Copy, Debug, PartialEq, Eq, Structural)]
pub enum Align {
    Start,
    Center,
    End,
}

impl Align {
    /// The position of this alignment in the `Start < Center < End` order.
    pub open spec fn spec_rank(self) -> int {
        match self {
            Align::Start => 0,
            Align::Center => 1,
            Align::End => 2,
        }
    }

    /// The position of this alignment in the `Start < Center < End` order.
    pub fn rank(self) -> (r: u8)
        ensures
            r as int == self.spec_rank(),
    {
        match self {
            Align::Start => 0,
            Align::Center => 1,
            Align::End => 2,
        }
    }
}

/// The greater of two alignments in the `Start < Center < End` order.
pub open spec fn align_max(a: Align, b: Align) -> Align {
    if a.spec_rank() >= b.spec_rank() {
        a
    } else {
        b
    }
}

/// An alignment pair: one alignment for the main axis, one for the cross
/// axis.
#[derive(Clone, Copy, Debug, PartialEq, Eq, Structural)]
pub struct Aligns {
    pub main: Align,
    pub cross: Align,
}

impl Default for Aligns {
    /// The default alignment is `Start` on both axes.
    fn default() -> (r: Self)
        ensures
            r == (Aligns { main: Align::Start, cross: Align::Start }),
    {
        Aligns { main: Align::Start, cross: Align::Start }
    }
}

/// A physical size in integer layout units.
#[derive(Clone, Copy, Debug, PartialEq, Eq, Structural)]
pub struct Size {
    pub width: i64,
    pub height: i64,
}

/// A size fit to enter the layouters: both extents in `0 ..= extent_limit()`.
pub open spec fn wf_size(s: Size) -> bool {
    &&& 0 <= s.width <= extent_limit()
    &&& 0 <= s.height <= extent_limit()
}

/// The extent of `s` along the main axis of `d`.
pub open spec fn main_extent(s: Size, d: Dirs) -> int {
    if d.main.spec_axis() == Axis::Horizontal {
        s.width as int
    } else {
        s.height as int
    }
}

/// The extent of `s` along the cross axis of `d`.
pub open spec fn cross_extent(s: Size, d: Dirs) -> int {
    if d.cross.spec_axis() == Axis::Horizontal {
        s.width as int
    } else {
        s.height as int
    }
}

impl Size {
    pub fn new(width: i64, height: i64) -> (r: Size)
        ensures
            r == (Size { width, height }),
    {
        Size { width, height }
    }

    /// The extent along the given physical axis.
    pub fn get(self, axis: Axis) -> (r: i64)
        ensures
            axis == Axis::Horizontal ==> r == self.width,
            axis == Axis::Vertical ==> r == self.height,
    {
        match axis {
            Axis::Horizontal => self.width,
            Axis::Vertical => self.height,
        }
    }

    /// Whether a box of size `other` fits into `self` on both axes.
    pub fn fits(self, other: Size) -> (r: bool)
        ensures
            r == (self.width >= other.width && self.height >= other.height),
    {
        self.width >= other.width && self.height >= other.height
    }

    /// Convert a physical size to the generalized frame of `d`: the result's
    /// width is the cross extent, its height the main extent.
    pub fn generalized(self, d: Dirs) -> (r: Size)
        requires
            wf_dirs(d),
        ensures
            r.width as int == cross_extent(self, d),
            r.height as int == main_extent(self, d),
    {
        if matches!(d.main.axis(), Axis::Horizontal) {
            Size { width: self.height, height: self.width }
        } else {
            self
        }
    }

    /// Convert a generalized size (width = cross extent, height = main
    /// extent) back to the physical frame of `d`.
    pub fn specialized(self, d: Dirs) -> (r: Size)
        requires
            wf_dirs(d),
        ensures
            cross_extent(r, d) == self.width as int,
            main_extent(r, d) == self.height as int,
    {
        if matches!(d.main.axis(), Axis::Horizontal) {
            Size { width: self.height, height: self.width }
        } else {
            self
        }
    }
}

/// A physical point in integer layout units.
#[derive(Clone, Copy, Debug, PartialEq, Eq, Structural)]
pub struct Point {
    pub x: i64,
    pub y: i64,
}

impl Point {
    pub fn new(x: i64, y: i64) -> (r: Point)
        ensures
            r == (Point { x, y }),
    {
        Point { x, y }
    }
}

/// The physical position of a child of extent `child` placed at generalized
/// offset `off` inside a container of extent `container`, for an axis
/// traversed with the given polarity.  Negative polarity mirrors the
/// placement.
pub open spec fn axis_pos(positive: bool, container: int, off: int, child: int) -> int {
    if positive {
        off
    } else {
        container - off - child
    }
}

/// The generalized offset of a child of extent `child` aligned inside a
/// container of extent `container`.
pub open spec fn align_offset(a: Align, container: int, child: int) -> int {
    match a {
        Align::Start => 0,
        Align::Center => center_offset(container - child),
        Align::End => container - child,
    }
}

/// Half of `d`, rounded towards zero.
pub open spec fn center_offset(d: int) -> int {
    if d >= 0 {
        d / 2
    } else {
        -((-d) / 2)
    }
}

/// A spacing request: hard spacing is materialized immediately (clamped to
/// the available room), soft spacing is a prioritized candidate that
/// collapses against adjacent soft requests.  A numerically lower level
/// means a higher priority.  Level 2 is the conventional level used for
/// spacing between lines.
#[derive(Clone, Copy, Debug, PartialEq, Eq, Structural)]
pub enum SpacingKind {
    Hard,
    Soft(u32),
}

/// The pending-spacing state of a run or space.  It decides how the next
/// spacing request is handled: soft spacing is only accepted while the state
/// is `Cleared`, or while it is `Soft` with a strictly lower priority.
#[derive(Clone, Copy, Debug, PartialEq, Eq, Structural)]
pub enum LastSpacing {
    /// Hard spacing was just applied (or the line/space was just begun):
    /// soft spacing requests are dropped.
    Hard,
    /// A soft spacing amount at the given level is cached, waiting to be
    /// consumed by the next box or hard spacing.
    Soft(i64, u32),
    /// A box was just placed: any soft spacing request is accepted.
    Cleared,
}

/// Whether a soft spacing request at `level` overwrites the pending state
/// `last`.
pub open spec fn soft_consumes(last: LastSpacing, level: u32) -> bool {
    match last {
        LastSpacing::Cleared => true,
        LastSpacing::Soft(_, prev) => level < prev,
        LastSpacing::Hard => false,
    }
}

/// An already-sized rectangular content unit with a list of positioned
/// children.  The layouters treat the children of incoming boxes as opaque;
/// they only read a box's size and wrap finished lines and spaces into new
/// boxes of this type.
pub struct BoxLayout {
    /// The physical size of the box.
    pub size: Size,
    /// The positioned children of the box.
    pub elements: Vec<(Point, BoxLayout)>,
}

impl BoxLayout {
    /// An empty box of the given size.
    pub fn new(size: Size) -> (r: BoxLayout)
        ensures
            r.size == size,
            r.elements@ == Seq::<(Point, BoxLayout)>::empty(),
    {
        BoxLayout { size, elements: Vec::new() }
    }

    /// Add a child at the given position.
    pub fn push_layout(&mut self, pos: Point, child: BoxLayout)
        ensures
            final(self).size == old(self).size,
            final(self).elements@ == old(self).elements@.push((pos, child)),
    {
        self.elements.push((pos, child));
    }
}

} // verus!
