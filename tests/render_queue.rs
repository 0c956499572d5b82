use noxkit::geometry::Geometry;
use noxkit::render::{
    Color, Primitive, RenderContext, RenderQueue, Shape, INDEX_CAPACITY, PRIMITIVE_CAPACITY,
    VERTEX_CAPACITY,
};

fn red() -> Color {
    Color { r: 255, g: 0, b: 0, a: 255 }
}

#[test]
fn three_rects_make_twelve_vertices_and_eighteen_indices() {
    let mut q = RenderQueue::new();
    for i in 0..3 {
        let g = Geometry { x: 10 * i, y: 5 * i, width: 4, height: 6 };
        assert!(q.push_rect(g, red()));
    }
    assert_eq!(q.vertices().len(), 12);
    assert_eq!(q.indices().len(), 18);
    assert_eq!(q.len(), 3);
    for i in 0..3usize {
        for j in 0..6 {
            let idx = q.indices()[6 * i + j] as usize;
            assert!(4 * i <= idx && idx < 4 * i + 4);
        }
    }
}

#[test]
fn quad_corners_and_triangles() {
    let mut q = RenderQueue::new();
    q.push_rounded_rect(Geometry { x: 1, y: 2, width: 30, height: 40 }, red(), 5);
    let v = q.vertices();
    assert_eq!((v[0].x, v[0].y), (1, 2));
    assert_eq!((v[1].x, v[1].y), (31, 2));
    assert_eq!((v[2].x, v[2].y), (1, 42));
    assert_eq!((v[3].x, v[3].y), (31, 42));
    for vert in v.iter() {
        assert_eq!(vert.corner_radius, 5);
        assert_eq!(vert.shape, Shape::RoundedRect);
        assert_eq!(vert.rect, Geometry { x: 1, y: 2, width: 30, height: 40 });
        assert_eq!(vert.color, red());
    }
    assert_eq!(q.indices(), &vec![0u16, 1, 2, 2, 1, 3]);
}

#[test]
fn shape_selectors() {
    assert_eq!(Shape::Rect.selector(), 0);
    assert_eq!(Shape::RoundedRect.selector(), 1);
    assert_eq!(Shape::Circle.selector(), 2);
    let mut q = RenderQueue::new();
    q.push_circle(Geometry::sized(2, 2), red());
    q.push_rect(Geometry::sized(2, 2), red());
    assert_eq!(q.vertices()[0].shape, Shape::Circle);
    assert_eq!(q.vertices()[0].corner_radius, 0);
    assert_eq!(q.vertices()[4].shape, Shape::Rect);
    assert_eq!(q.indices()[6], 4);
}

#[test]
fn pushes_beyond_capacity_are_dropped() {
    let mut q = RenderQueue::new();
    for i in 0..PRIMITIVE_CAPACITY {
        assert!(q.push_rect(Geometry { x: i as i32, y: 0, width: 1, height: 1 }, red()));
    }
    assert_eq!(q.vertices().len(), VERTEX_CAPACITY);
    assert_eq!(q.indices().len(), INDEX_CAPACITY);
    assert!(!q.push_rect(Geometry::sized(1, 1), red()));
    assert!(!q.push_circle(Geometry::sized(1, 1), red()));
    assert!(!q.push_rounded_rect(Geometry::sized(1, 1), red(), 3));
    assert_eq!(q.vertices().len(), 16384);
    assert_eq!(q.indices().len(), 24576);
    assert_eq!(*q.indices().last().unwrap(), 16383);
}

#[test]
fn clear_empties_the_queue() {
    let mut q = RenderQueue::new();
    q.push_primitive(Primitive {
        geometry: Geometry::sized(3, 3),
        color: red(),
        radius: 0,
        shape: Shape::Rect,
    });
    q.clear();
    assert_eq!(q.len(), 0);
    assert!(q.vertices().is_empty());
    assert!(q.indices().is_empty());
    q.push_rect(Geometry::sized(1, 1), red());
    assert_eq!(q.indices()[0], 0);
}

#[test]
fn begin_frame_clears_the_queue() {
    let mut ctx = RenderContext::new(true);
    ctx.render_queue.push_rect(Geometry::sized(1, 1), red());
    ctx.begin_frame();
    assert_eq!(ctx.render_queue.len(), 0);
    assert!(ctx.debug);
}
