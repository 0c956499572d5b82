use vstd::prelude::*;
use crate::geometry::{Geometry, clamp_i32, saturating_sum};

verus! {

/// Largest number of vertices one frame's queue holds.
pub const VERTEX_CAPACITY: usize = 16384;

/// Largest number of indices one frame's queue holds.
pub const INDEX_CAPACITY: usize = 24576;

/// Largest number of primitives one frame's queue holds: four vertices and
/// six indices each.
pub const PRIMITIVE_CAPACITY: usize = 4096;

/// An RGBA colour, one byte per channel.
#[derive(Debug, Clone, Copy, PartialEq, Eq, Structural)]
pub struct Color {
    pub r: u8,
    pub g: u8,
    pub b: u8,
    pub a: u8,
}

/// Which shape the fragment stage draws inside a quad.
#[derive(Debug, Clone, Copy, PartialEq, Eq, Structural)]
pub enum Shape {
    Rect,
    RoundedRect,
    Circle,
}

impl Shape {
    pub open spec fn spec_selector(self) -> u8 {
        match self {
            Shape::Rect => 0,
            Shape::RoundedRect => 1,
            Shape::Circle => 2,
        }
    }

    /// The numeric shape selector carried by each vertex.
    pub fn selector(&self) -> (r: u8)
        ensures
            r == self.spec_selector(),
    {
        match self {
            Shape::Rect => 0,
            Shape::RoundedRect => 1,
            Shape::Circle => 2,
        }
    }
}

/// One shape to draw: where, in which colour, with which corner radius.
#[derive(Debug, Clone, Copy, PartialEq, Eq, Structural)]
pub struct Primitive {
    pub geometry: Geometry,
    pub color: Color,
    pub radius: u32,
    pub shape: Shape,
}

/// A corner of a primitive's quad, with everything the quad's four vertices
/// share.
#[derive(Debug, Clone, Copy, PartialEq, Eq, Structural)]
pub struct Vertex {
    pub x: i32,
    pub y: i32,
    pub color: Color,
    pub rect: Geometry,
    pub corner_radius: u32,
    pub shape: Shape,
}

/// Corner `k` of the quad of `p`: top left, top right, bottom left, bottom
/// right.
pub open spec fn corner(p: Primitive, k: int) -> Vertex {
    let g = p.geometry;
    Vertex {
        x: if k == 1 || k == 3 {
            clamp_i32(g.x + g.width) as i32
        } else {
            g.x
        },
        y: if k == 2 || k == 3 {
            clamp_i32(g.y + g.height) as i32
        } else {
            g.y
        },
        color: p.color,
        rect: g,
        corner_radius: p.radius,
        shape: p.shape,
    }
}

pub open spec fn quad_vertices(p: Primitive) -> Seq<Vertex> {
    seq![corner(p, 0), corner(p, 1), corner(p, 2), corner(p, 3)]
}

/// The two triangles of the quad whose first vertex is `base`.
pub open spec fn quad_indices(base: int) -> Seq<u16> {
    seq![
        base as u16,
        (base + 1) as u16,
        (base + 2) as u16,
        (base + 2) as u16,
        (base + 1) as u16,
        (base + 3) as u16,
    ]
}

pub open spec fn vertices_of(ps: Seq<Primitive>) -> Seq<Vertex>
    decreases ps.len(),
{
    if ps.len() == 0 {
        Seq::empty()
    } else {
        vertices_of(ps.drop_last()) + quad_vertices(ps.last())
    }
}

pub open spec fn indices_of(ps: Seq<Primitive>) -> Seq<u16>
    decreases ps.len(),
{
    if ps.len() == 0 {
        Seq::empty()
    } else {
        indices_of(ps.drop_last()) + quad_indices(4 * (ps.len() - 1))
    }
}

/// What a full queue keeps of `ps` followed by `extra`: the primitives that
/// still fit, in order; the rest is dropped.
pub open spec fn kept_after(ps: Seq<Primitive>, extra: Seq<Primitive>) -> Seq<Primitive> {
    let room = PRIMITIVE_CAPACITY - ps.len();
    if room <= 0 {
        ps
    } else if extra.len() <= room {
        ps + extra
    } else {
        ps + extra.take(room)
    }
}

/// One frame's batch of primitives, as GPU-ready vertices and indices.
///
/// The buffers have a fixed capacity: a primitive pushed into a full queue is
/// dropped, and the push reports it.
pub struct RenderQueue {
    vertices: Vec<Vertex>,
    indices: Vec<u16>,
    prims: Ghost<Seq<Primitive>>,
}

impl RenderQueue {
    /// The primitives accepted since the last clear, in push order.
    pub closed spec fn primitives(&self) -> Seq<Primitive> {
        self.prims@
    }

    pub closed spec fn vertex_seq(&self) -> Seq<Vertex> {
        self.vertices@
    }

    pub closed spec fn index_seq(&self) -> Seq<u16> {
        self.indices@
    }

    pub open spec fn wf(&self) -> bool {
        &&& self.primitives().len() <= PRIMITIVE_CAPACITY
        &&& self.vertex_seq() == vertices_of(self.primitives())
        &&& self.index_seq() == indices_of(self.primitives())
    }

    pub fn new() -> (q: RenderQueue)
        ensures
            q.wf(),
            q.primitives() == Seq::<Primitive>::empty(),
    {
        RenderQueue { vertices: Vec::new(), indices: Vec::new(), prims: Ghost(Seq::empty()) }
    }

    pub fn vertices(&self) -> (r: &Vec<Vertex>)
        ensures
            r@ == self.vertex_seq(),
    {
        &self.vertices
    }

    pub fn indices(&self) -> (r: &Vec<u16>)
        ensures
            r@ == self.index_seq(),
    {
        &self.indices
    }

    /// Number of primitives accepted since the last clear.
    pub fn len(&self) -> (r: usize)
        requires
            self.wf(),
        ensures
            r == self.primitives().len(),
    {
        proof {
            lemma_sizes(self.primitives());
        }
        self.vertices.len() / 4
    }

    pub fn push_rect(&mut self, geometry: Geometry, color: Color) -> (accepted: bool)
        requires
            old(self).wf(),
        ensures
            final(self).wf(),
            accepted == (old(self).primitives().len() < PRIMITIVE_CAPACITY),
            final(self).primitives() == kept_after(
                old(self).primitives(),
                seq![Primitive { geometry, color, radius: 0, shape: Shape::Rect }],
            ),
    {
        self.push_primitive(Primitive { geometry, color, radius: 0, shape: Shape::Rect })
    }

    pub fn push_rounded_rect(&mut self, geometry: Geometry, color: Color, radius: u32) -> (accepted:
        bool)
        requires
            old(self).wf(),
        ensures
            final(self).wf(),
            accepted == (old(self).primitives().len() < PRIMITIVE_CAPACITY),
            final(self).primitives() == kept_after(
                old(self).primitives(),
                seq![Primitive { geometry, color, radius, shape: Shape::RoundedRect }],
            ),
    {
        self.push_primitive(Primitive { geometry, color, radius, shape: Shape::RoundedRect })
    }

    pub fn push_circle(&mut self, geometry: Geometry, color: Color) -> (accepted: bool)
        requires
            old(self).wf(),
        ensures
            final(self).wf(),
            accepted == (old(self).primitives().len() < PRIMITIVE_CAPACITY),
            final(self).primitives() == kept_after(
                old(self).primitives(),
                seq![Primitive { geometry, color, radius: 0, shape: Shape::Circle }],
            ),
    {
        self.push_primitive(Primitive { geometry, color, radius: 0, shape: Shape::Circle })
    }

    /// Appends the quad of `p` (four vertices, two triangles) if the queue
    /// has room for it; drops it otherwise.
    pub fn push_primitive(&mut self, p: Primitive) -> (accepted: bool)
        requires
            old(self).wf(),
        ensures
            final(self).wf(),
            accepted == (old(self).primitives().len() < PRIMITIVE_CAPACITY),
            final(self).primitives() == kept_after(old(self).primitives(), seq![p]),
    {
        proof {
            lemma_sizes(self.primitives());
        }
        if self.vertices.len() >= VERTEX_CAPACITY {
            return false;
        }
        let g = p.geometry;
        let right = saturating_sum(g.x, g.width);
        let bottom = saturating_sum(g.y, g.height);
        let start = self.vertices.len() as u16;
        let ghost ps = self.prims@;
        self.vertices.push(
            Vertex { x: g.x, y: g.y, color: p.color, rect: g, corner_radius: p.radius, shape: p.shape },
        );
        self.vertices.push(
            Vertex { x: right, y: g.y, color: p.color, rect: g, corner_radius: p.radius, shape: p.shape },
        );
        self.vertices.push(
            Vertex { x: g.x, y: bottom, color: p.color, rect: g, corner_radius: p.radius, shape: p.shape },
        );
        self.vertices.push(
            Vertex {
                x: right,
                y: bottom,
                color: p.color,
                rect: g,
                corner_radius: p.radius,
                shape: p.shape,
            },
        );
        self.indices.push(start);
        self.indices.push(start + 1);
        self.indices.push(start + 2);
        self.indices.push(start + 2);
        self.indices.push(start + 1);
        self.indices.push(start + 3);
        self.prims = Ghost(ps.push(p));
        proof {
            let ps2 = ps.push(p);
            assert(ps2.drop_last() =~= ps);
            assert(self.vertices@ =~= vertices_of(ps2));
            assert(self.indices@ =~= indices_of(ps2));
            assert(seq![p].take(1) =~= seq![p]);
        }
        true
    }

    /// Empties the queue for the next frame.
    pub fn clear(&mut self)
        ensures
            final(self).wf(),
            final(self).primitives() == Seq::<Primitive>::empty(),
    {
        self.vertices.clear();
        self.indices.clear();
        self.prims = Ghost(Seq::empty());
    }
}

/// The buffers of `ps` hold four vertices and six indices per primitive.
pub proof fn lemma_sizes(ps: Seq<Primitive>)
    ensures
        vertices_of(ps).len() == 4 * ps.len(),
        indices_of(ps).len() == 6 * ps.len(),
    decreases ps.len(),
{
    if ps.len() > 0 {
        lemma_sizes(ps.drop_last());
    }
}

/// The queue's buffers never exceed their capacity.
pub proof fn law_capacity(q: &RenderQueue)
    requires
        q.wf(),
    ensures
        q.vertex_seq().len() <= VERTEX_CAPACITY,
        q.index_seq().len() <= INDEX_CAPACITY,
{
    lemma_sizes(q.primitives());
}

/// Primitive `i` owns vertices `4i..4i+4`, its corners in order, and
/// indices `6i..6i+6`, which reference only those four vertices.
pub proof fn law_quad_layout(ps: Seq<Primitive>)
    requires
        ps.len() <= PRIMITIVE_CAPACITY,
    ensures
        vertices_of(ps).len() == 4 * ps.len(),
        indices_of(ps).len() == 6 * ps.len(),
        forall|i: int, k: int|
            0 <= i < ps.len() && 0 <= k < 4 ==> #[trigger] vertices_of(ps)[4 * i + k] == corner(
                ps[i],
                k,
            ),
        forall|i: int, j: int|
            0 <= i < ps.len() && 0 <= j < 6 ==> 4 * i <= #[trigger] indices_of(ps)[6 * i + j] < 4 * i
                + 4,
    decreases ps.len(),
{
    lemma_sizes(ps);
    if ps.len() > 0 {
        let n = ps.len() - 1;
        let prev = ps.drop_last();
        law_quad_layout(prev);
        lemma_sizes(prev);
        assert forall|i: int, k: int| 0 <= i < ps.len() && 0 <= k < 4 implies #[trigger] vertices_of(
            ps,
        )[4 * i + k] == corner(ps[i], k) by {
            if i < n {
                assert(prev[i] == ps[i]);
                assert(vertices_of(ps)[4 * i + k] == vertices_of(prev)[4 * i + k]);
            } else {
                assert(vertices_of(ps)[4 * i + k] == quad_vertices(ps.last())[k]);
            }
        }
        assert forall|i: int, j: int| 0 <= i < ps.len() && 0 <= j < 6 implies 4 * i
            <= #[trigger] indices_of(ps)[6 * i + j] < 4 * i + 4 by {
            if i < n {
                assert(indices_of(ps)[6 * i + j] == indices_of(prev)[6 * i + j]);
            } else {
                assert(indices_of(ps)[6 * i + j] == quad_indices(4 * n)[j]);
            }
        }
    }
}

/// Once the queue is full, everything pushed is dropped.
pub proof fn law_full_queue_drops(ps: Seq<Primitive>, extra: Seq<Primitive>)
    requires
        ps.len() == PRIMITIVE_CAPACITY,
    ensures
        kept_after(ps, extra) == ps,
{
}

/// Pushing `a` and then `b` keeps what pushing `a + b` keeps.
pub proof fn lemma_kept_after_concat(ps: Seq<Primitive>, a: Seq<Primitive>, b: Seq<Primitive>)
    requires
        ps.len() <= PRIMITIVE_CAPACITY,
    ensures
        kept_after(kept_after(ps, a), b) == kept_after(ps, a + b),
        kept_after(ps, a).len() <= PRIMITIVE_CAPACITY,
{
    let room = PRIMITIVE_CAPACITY - ps.len();
    if room <= 0 {
    } else if a.len() + b.len() <= room {
        assert(kept_after(kept_after(ps, a), b) =~= kept_after(ps, a + b));
    } else if a.len() <= room {
        assert(kept_after(kept_after(ps, a), b) =~= kept_after(ps, a + b));
    } else {
        assert(kept_after(kept_after(ps, a), b) =~= kept_after(ps, a + b));
    }
}

/// Pushing nothing keeps the queue as it is.
pub proof fn lemma_kept_after_empty(ps: Seq<Primitive>)
    requires
        ps.len() <= PRIMITIVE_CAPACITY,
    ensures
        kept_after(ps, Seq::empty()) == ps,
{
    assert(ps + Seq::<Primitive>::empty() =~= ps);
}

/// A request to shape a text: the text node's layout handle, its content,
/// font size, and the box the text is laid out in.
pub struct ShapeRequest {
    pub handle: usize,
    pub text: String,
    pub font_size: u32,
    pub width: i32,
    pub height: i32,
}

/// A shaped text's place on screen: the text node's layout handle and the
/// bounds the glyphs are drawn in.
#[derive(Debug, Clone, Copy, PartialEq, Eq, Structural)]
pub struct TextArea {
    pub handle: usize,
    pub left: i32,
    pub top: i32,
    pub right: i32,
    pub bottom: i32,
}

/// What one frame's prepare pass fills: the batched primitives, and the
/// texts whose content changed since they were last shaped.
pub struct RenderContext {
    pub render_queue: RenderQueue,
    /// Outlines of composite and text boxes are drawn too.
    pub debug: bool,
    pub shape_requests: Vec<ShapeRequest>,
}

impl RenderContext {
    pub fn new(debug: bool) -> (c: RenderContext)
        ensures
            c.render_queue.wf(),
            c.render_queue.primitives() == Seq::<Primitive>::empty(),
            c.debug == debug,
            c.shape_requests@ == Seq::<ShapeRequest>::empty(),
    {
        RenderContext { render_queue: RenderQueue::new(), debug, shape_requests: Vec::new() }
    }

    /// Starts a frame: empties the queue; pending shape requests are kept
    /// until their owner takes them.
    pub fn begin_frame(&mut self)
        ensures
            final(self).render_queue.wf(),
            final(self).render_queue.primitives() == Seq::<Primitive>::empty(),
            final(self).debug == old(self).debug,
            final(self).shape_requests@ == old(self).shape_requests@,
    {
        self.render_queue.clear();
    }
}

} // verus!
