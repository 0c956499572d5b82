use vstd::prelude::*;
use crate::geometry::Geometry;

verus! {

/// A size along one axis.
#[derive(Debug, Clone, Copy, PartialEq, Eq, Structural)]
pub enum Dimension {
    /// Sized by the content.
    Auto,
    /// A fixed number of pixels.
    Length(u32),
    /// The whole of the parent's size.
    Full,
}

/// Space kept inside a box's border, in pixels.
#[derive(Debug, Clone, Copy, PartialEq, Eq, Structural)]
pub struct Edges {
    pub left: u32,
    pub right: u32,
    pub top: u32,
    pub bottom: u32,
}

/// A flexbox style descriptor, handed to the layout engine.
#[derive(Debug, Clone, Copy, PartialEq, Eq, Structural)]
pub struct Style {
    /// Children flow top to bottom (otherwise left to right).
    pub vertical: bool,
    /// Children are centred on the cross axis.
    pub center_items: bool,
    /// Children are centred on the main axis (otherwise packed at its start).
    pub center_content: bool,
    pub width: Dimension,
    pub height: Dimension,
    pub padding: Edges,
    /// Space between consecutive children along the main axis.
    pub gap: u32,
}

impl Style {
    /// The engine's default style: a row, sized by content, with no spacing.
    pub open spec fn spec_plain() -> Style {
        Style {
            vertical: false,
            center_items: false,
            center_content: false,
            width: Dimension::Auto,
            height: Dimension::Auto,
            padding: Edges { left: 0, right: 0, top: 0, bottom: 0 },
            gap: 0,
        }
    }

    pub fn plain() -> (s: Style)
        ensures
            s == Style::spec_plain(),
    {
        Style {
            vertical: false,
            center_items: false,
            center_content: false,
            width: Dimension::Auto,
            height: Dimension::Auto,
            padding: Edges { left: 0, right: 0, top: 0, bottom: 0 },
            gap: 0,
        }
    }

    /// A leaf of fixed size.
    pub open spec fn spec_fixed(width: u32, height: u32) -> Style {
        Style {
            width: Dimension::Length(width),
            height: Dimension::Length(height),
            ..Style::spec_plain()
        }
    }

    pub fn fixed(width: u32, height: u32) -> (s: Style)
        ensures
            s == Style::spec_fixed(width, height),
    {
        Style { width: Dimension::Length(width), height: Dimension::Length(height), ..Style::plain() }
    }
}

/// One registered box: its style, its children's handles, and the box the
/// engine placed it in, relative to its parent.
pub struct LayoutNode {
    pub style: Style,
    pub children: Vec<usize>,
    pub placement: Geometry,
}

/// The handle-based side of the layout engine: boxes are registered with a
/// style and their children, and addressed by the handle returned.
pub struct LayoutContext {
    nodes: Vec<LayoutNode>,
}

impl LayoutContext {
    /// Number of registered boxes; the handles are `0..len()`.
    pub closed spec fn len(&self) -> nat {
        self.nodes@.len()
    }

    pub closed spec fn style_of(&self, h: int) -> Style {
        self.nodes@[h].style
    }

    pub closed spec fn children_of(&self, h: int) -> Seq<usize> {
        self.nodes@[h].children@
    }

    pub closed spec fn placement_of(&self, h: int) -> Geometry {
        self.nodes@[h].placement
    }

    /// `self` holds every box of `earlier` unchanged, and maybe more.
    pub open spec fn extends(&self, earlier: &LayoutContext) -> bool {
        &&& earlier.len() <= self.len()
        &&& forall|h: int| 0 <= h < earlier.len() ==> #[trigger] self.style_of(h) == earlier.style_of(h)
        &&& forall|h: int|
            0 <= h < earlier.len() ==> #[trigger] self.children_of(h) == earlier.children_of(h)
        &&& forall|h: int|
            0 <= h < earlier.len() ==> #[trigger] self.placement_of(h) == earlier.placement_of(h)
    }

    pub fn new() -> (c: LayoutContext)
        ensures
            c.len() == 0,
    {
        LayoutContext { nodes: Vec::new() }
    }

    pub fn node_count(&self) -> (r: usize)
        ensures
            r == self.len(),
    {
        self.nodes.len()
    }

    /// Registers a box over already registered children; its placement is
    /// empty until the engine's result is written back.
    pub fn register(&mut self, style: Style, children: Vec<usize>) -> (h: usize)
        requires
            forall|i: int| 0 <= i < children@.len() ==> #[trigger] children@[i] < old(self).len(),
        ensures
            h == old(self).len(),
            final(self).len() == old(self).len() + 1,
            final(self).extends(old(self)),
            final(self).style_of(h as int) == style,
            final(self).children_of(h as int) == children@,
            final(self).placement_of(h as int) == (Geometry { x: 0, y: 0, width: 0, height: 0 }),
    {
        let h = self.nodes.len();
        self.nodes.push(LayoutNode { style, children, placement: Geometry::sized(0, 0) });
        h
    }

    /// Records where the engine placed a box, relative to its parent.
    pub fn set_placement(&mut self, h: usize, placement: Geometry)
        requires
            h < old(self).len(),
        ensures
            final(self).len() == old(self).len(),
            final(self).placement_of(h as int) == placement,
            forall|k: int|
                0 <= k < old(self).len() ==> #[trigger] final(self).style_of(k) == old(self).style_of(k),
            forall|k: int|
                0 <= k < old(self).len() ==> #[trigger] final(self).children_of(k) == old(
                    self,
                ).children_of(k),
            forall|k: int|
                0 <= k < old(self).len() && k != h ==> #[trigger] final(self).placement_of(k) == old(
                    self,
                ).placement_of(k),
    {
        let node = &mut self.nodes[h];
        node.placement = placement;
    }

    /// Where the engine placed a box, relative to its parent.
    pub fn placement(&self, h: usize) -> (g: Geometry)
        requires
            h < self.len(),
        ensures
            g == self.placement_of(h as int),
    {
        self.nodes[h].placement
    }

    pub fn style(&self, h: usize) -> (s: Style)
        requires
            h < self.len(),
        ensures
            s == self.style_of(h as int),
    {
        self.nodes[h].style
    }

    pub fn children(&self, h: usize) -> (c: &Vec<usize>)
        requires
            h < self.len(),
        ensures
            c@ == self.children_of(h as int),
    {
        &self.nodes[h].children
    }
}

} // verus!
