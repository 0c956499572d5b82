use noxkit::driver::{Action, FrameDriver, Input};
use noxkit::geometry::{Event, Geometry};
use noxkit::layout::{Dimension, LayoutContext, Style};
use noxkit::render::{RenderContext, Shape, TextArea};
use noxkit::widgets::{Button, Circle, Column, Rect, RoundedRect, Text, Widget};

fn blue() -> noxkit::render::Color {
    noxkit::render::Color { r: 0, g: 0, b: 255, a: 255 }
}

fn button_of(w: &Widget) -> &Button {
    match w {
        Widget::Column(c) => match &c.children[0] {
            Widget::Button(b) => b,
            _ => panic!("not a button"),
        },
        _ => panic!("not a column"),
    }
}

/// A column holding one button, laid out with the column over the window
/// and the button's box at (10, 10), 50 by 20.
fn one_button(action: usize) -> (Widget, LayoutContext) {
    let mut w = Widget::Column(Column::new(vec![Widget::Button(Button::new(
        "Go".to_string(),
        action,
    ))]));
    let mut ctx = LayoutContext::new();
    let root = w.layout(&mut ctx);
    assert_eq!(root, 2);
    ctx.set_placement(0, Geometry { x: 5, y: 5, width: 40, height: 10 });
    ctx.set_placement(1, Geometry { x: 10, y: 10, width: 50, height: 20 });
    ctx.set_placement(2, Geometry { x: 0, y: 0, width: 200, height: 200 });
    (w, ctx)
}

fn deliver(w: &mut Widget, ctx: &LayoutContext, root: Geometry, a: Action) -> Vec<usize> {
    let mut clicked = Vec::new();
    if let Action::Dispatch(events) = a {
        for ev in events.iter() {
            w.handle_event(ev, ctx, root, &mut clicked);
        }
    } else {
        panic!("expected events");
    }
    clicked
}

#[test]
fn press_inside_then_release_outside() {
    let (mut w, ctx) = one_button(7);
    let mut d = FrameDriver::new(200, 200);
    let root = d.root_geometry();
    let a = d.step(Input::CursorMoved { x: 20, y: 15 });
    assert!(deliver(&mut w, &ctx, root, a).is_empty());
    assert!(button_of(&w).hovered());
    let a = d.step(Input::MouseButton { pressed: true });
    assert_eq!(deliver(&mut w, &ctx, root, a), vec![7]);
    assert!(button_of(&w).pressed());
    let a = d.step(Input::CursorMoved { x: 150, y: 150 });
    assert!(deliver(&mut w, &ctx, root, a).is_empty());
    assert!(!button_of(&w).hovered());
    assert!(button_of(&w).pressed());
    let a = d.step(Input::MouseButton { pressed: false });
    assert!(deliver(&mut w, &ctx, root, a).is_empty());
    assert!(!button_of(&w).pressed());
}

#[test]
fn press_outside_does_not_press_or_click() {
    let (mut w, ctx) = one_button(3);
    let root = Geometry::sized(200, 200);
    let mut clicked = Vec::new();
    w.handle_event(&Event::MouseDown { x: 61, y: 15 }, &ctx, root, &mut clicked);
    w.handle_event(&Event::MouseClick { x: 61, y: 15 }, &ctx, root, &mut clicked);
    assert!(clicked.is_empty());
    assert!(!button_of(&w).pressed());
}

#[test]
fn click_ignores_press_state_and_hits_edges() {
    let (mut w, ctx) = one_button(4);
    let root = Geometry::sized(200, 200);
    let mut clicked = Vec::new();
    w.handle_event(&Event::MouseClick { x: 60, y: 30 }, &ctx, root, &mut clicked);
    w.handle_event(&Event::MouseClick { x: 10, y: 10 }, &ctx, root, &mut clicked);
    assert_eq!(clicked, vec![4, 4]);
    assert!(!button_of(&w).pressed());
}

#[test]
fn overlapping_buttons_all_receive_the_event() {
    let mut w = Widget::Column(Column::new(vec![
        Widget::Button(Button::new("A".to_string(), 1)),
        Widget::Button(Button::new("B".to_string(), 2)),
    ]));
    let mut ctx = LayoutContext::new();
    assert_eq!(w.layout(&mut ctx), 4);
    for h in 0..5 {
        ctx.set_placement(h, Geometry { x: 0, y: 0, width: 100, height: 100 });
    }
    let mut clicked = Vec::new();
    w.handle_event(&Event::MouseClick { x: 50, y: 50 }, &ctx, Geometry::sized(100, 100), &mut clicked);
    assert_eq!(clicked, vec![1, 2]);
}

#[test]
fn event_geometry_is_relative_to_parent() {
    let (mut w, mut ctx) = one_button(9);
    ctx.set_placement(2, Geometry { x: 100, y: 100, width: 200, height: 200 });
    let root = Geometry::sized(400, 400);
    let mut clicked = Vec::new();
    w.handle_event(&Event::MouseClick { x: 20, y: 15 }, &ctx, root, &mut clicked);
    assert!(clicked.is_empty());
    w.handle_event(&Event::MouseClick { x: 120, y: 115 }, &ctx, root, &mut clicked);
    assert_eq!(clicked, vec![9]);
}

#[test]
fn text_prepared_twice_is_shaped_once() {
    let mut t = Text::new("hello".to_string());
    let mut lc = LayoutContext::new();
    let h = t.layout(&mut lc);
    lc.set_placement(h, Geometry { x: 2, y: 3, width: 80, height: 24 });
    let mut rc = RenderContext::new(false);
    let parent = Geometry::sized(100, 100);
    t.prepare(&mut rc, &lc, parent);
    t.prepare(&mut rc, &lc, parent);
    assert_eq!(rc.shape_requests.len(), 1);
    assert_eq!(rc.shape_requests[0].text, "hello");
    assert_eq!(rc.shape_requests[0].handle, h);
    assert_eq!(rc.shape_requests[0].font_size, 16);
    assert_eq!((rc.shape_requests[0].width, rc.shape_requests[0].height), (80, 24));
    t.set_text("world".to_string());
    t.prepare(&mut rc, &lc, parent);
    assert_eq!(rc.shape_requests.len(), 2);
    assert_eq!(rc.shape_requests[1].text, "world");
    t.prepare(&mut rc, &lc, parent);
    assert_eq!(rc.shape_requests.len(), 2);
    t.set_text("world".to_string());
    t.prepare(&mut rc, &lc, parent);
    assert_eq!(rc.shape_requests.len(), 2);
    assert_eq!(rc.render_queue.len(), 0);
}

#[test]
fn leaves_push_one_primitive_each() {
    let mut w = Widget::Column(Column::new(vec![
        Widget::Rect(Rect::new(blue())),
        Widget::Circle(Circle::new(blue())),
        Widget::RoundedRect(RoundedRect::new(blue(), 20)),
    ]));
    let mut lc = LayoutContext::new();
    assert_eq!(w.layout(&mut lc), 3);
    lc.set_placement(0, Geometry { x: 0, y: 0, width: 100, height: 100 });
    lc.set_placement(1, Geometry { x: 0, y: 116, width: 50, height: 50 });
    lc.set_placement(2, Geometry { x: 0, y: 182, width: 100, height: 50 });
    lc.set_placement(3, Geometry { x: 16, y: 24, width: 300, height: 300 });
    let mut rc = RenderContext::new(false);
    w.prepare(&mut rc, &lc, Geometry::sized(300, 300));
    let v = rc.render_queue.vertices();
    assert_eq!(v.len(), 12);
    assert_eq!(v[0].shape, Shape::Rect);
    assert_eq!(v[0].rect, Geometry { x: 16, y: 24, width: 100, height: 100 });
    assert_eq!(v[4].shape, Shape::Circle);
    assert_eq!(v[4].rect, Geometry { x: 16, y: 140, width: 50, height: 50 });
    assert_eq!(v[8].shape, Shape::RoundedRect);
    assert_eq!(v[8].corner_radius, 20);
    assert!(rc.shape_requests.is_empty());
}

#[test]
fn debug_mode_adds_outlines() {
    let mut w = Widget::Column(Column::new(vec![Widget::Text(Text::new("t".to_string()))]));
    let mut lc = LayoutContext::new();
    w.layout(&mut lc);
    lc.set_placement(0, Geometry { x: 0, y: 0, width: 10, height: 10 });
    lc.set_placement(1, Geometry { x: 0, y: 0, width: 30, height: 20 });
    let mut rc = RenderContext::new(true);
    w.prepare(&mut rc, &lc, Geometry::sized(30, 20));
    assert_eq!(rc.render_queue.len(), 8);
    let v = rc.render_queue.vertices();
    assert_eq!(v[0].color, noxkit::render::Color { r: 0, g: 255, b: 0, a: 255 });
    assert_eq!(v[16].color, noxkit::render::Color { r: 255, g: 0, b: 0, a: 255 });
    assert_eq!(v[16].rect, Geometry { x: 0, y: 0, width: 30, height: 1 });
    assert_eq!(v[20].rect, Geometry { x: 0, y: 19, width: 30, height: 1 });
    assert_eq!(v[24].rect, Geometry { x: 0, y: 0, width: 1, height: 20 });
    assert_eq!(v[28].rect, Geometry { x: 29, y: 0, width: 1, height: 20 });
}

#[test]
fn button_fill_follows_state() {
    let (mut w, lc) = one_button(1);
    let root = Geometry::sized(200, 200);
    let mut rc = RenderContext::new(false);
    w.prepare(&mut rc, &lc, root);
    let idle = rc.render_queue.vertices()[0].color;
    assert_eq!(idle, noxkit::render::Color { r: 63, g: 81, b: 181, a: 255 });
    assert_eq!(rc.render_queue.vertices()[0].corner_radius, 8);
    assert_eq!(rc.render_queue.vertices()[0].rect, Geometry { x: 10, y: 10, width: 50, height: 20 });
    assert_eq!(rc.shape_requests.len(), 1);
    assert_eq!(rc.shape_requests[0].font_size, 14);
    let mut clicked = Vec::new();
    w.handle_event(&Event::MouseMove { x: 20, y: 20 }, &lc, root, &mut clicked);
    rc.begin_frame();
    w.prepare(&mut rc, &lc, root);
    assert_eq!(rc.render_queue.vertices()[0].color, noxkit::render::Color { r: 77, g: 97, b: 199, a: 255 });
    w.handle_event(&Event::MouseDown { x: 20, y: 20 }, &lc, root, &mut clicked);
    rc.begin_frame();
    w.prepare(&mut rc, &lc, root);
    assert_eq!(rc.render_queue.vertices()[0].color, noxkit::render::Color { r: 48, g: 63, b: 159, a: 255 });
    assert_eq!(rc.shape_requests.len(), 1);
}

#[test]
fn collect_reports_shaped_texts_only() {
    let mut w = Widget::Column(Column::new(vec![
        Widget::Text(Text::new("a".to_string())),
        Widget::Button(Button::new("b".to_string(), 0)),
    ]));
    let mut lc = LayoutContext::new();
    assert_eq!(w.layout(&mut lc), 3);
    lc.set_placement(0, Geometry { x: 1, y: 2, width: 10, height: 5 });
    lc.set_placement(1, Geometry { x: 3, y: 3, width: 8, height: 4 });
    lc.set_placement(2, Geometry { x: 20, y: 30, width: 40, height: 20 });
    lc.set_placement(3, Geometry { x: 100, y: 100, width: 300, height: 300 });
    let root = Geometry::sized(500, 500);
    let mut areas = Vec::new();
    w.collect_text_areas(&lc, root, &mut areas);
    assert!(areas.is_empty());
    let mut rc = RenderContext::new(false);
    w.prepare(&mut rc, &lc, root);
    w.collect_text_areas(&lc, root, &mut areas);
    assert_eq!(
        areas,
        vec![
            TextArea { handle: 0, left: 101, top: 102, right: 111, bottom: 107 },
            TextArea { handle: 1, left: 123, top: 133, right: 131, bottom: 137 },
        ]
    );
}

#[test]
fn layout_registers_children_before_parent() {
    let mut w = Widget::Column(Column::new(vec![
        Widget::Rect(Rect::new(blue())),
        Widget::Button(Button::new("b".to_string(), 0)),
        Widget::Circle(Circle::new(blue())),
        Widget::RoundedRect(RoundedRect::new(blue(), 3)),
    ]));
    let mut lc = LayoutContext::new();
    assert!(!w.is_laid_out(&lc));
    let root = w.layout(&mut lc);
    assert_eq!(root, 5);
    assert_eq!(lc.node_count(), 6);
    assert!(w.is_laid_out(&lc));
    assert_eq!(lc.children(5), &vec![0, 2, 3, 4]);
    assert_eq!(lc.children(2), &vec![1]);
    assert!(lc.children(1).is_empty());
    assert_eq!(lc.style(0), Style::fixed(100, 100));
    assert_eq!(lc.style(3), Style::fixed(50, 50));
    assert_eq!(lc.style(4), Style::fixed(100, 50));
    assert_eq!(lc.style(1), Style::plain());
    let col = lc.style(5);
    assert!(col.vertical && col.center_items && !col.center_content);
    assert_eq!(col.width, Dimension::Full);
    assert_eq!((col.padding.left, col.padding.top, col.gap), (16, 24, 16));
    let btn = lc.style(2);
    assert!(!btn.vertical && btn.center_items && btn.center_content);
    assert_eq!((btn.padding.left, btn.padding.top), (24, 10));
    assert!(!w.is_laid_out(&LayoutContext::new()));
}

#[test]
fn constructor_functions_match_new() {
    let t = noxkit::widgets::Text("x".to_string());
    assert_eq!(t.text, "x");
    assert_eq!(t.font_size, 16);
    let b = noxkit::widgets::Button("y".to_string(), 5);
    assert_eq!((b.text.as_str(), b.on_click), ("y", 5));
    assert!(!b.hovered() && !b.pressed());
    assert_eq!(noxkit::widgets::Rect(blue()).color, blue());
    assert_eq!(noxkit::widgets::Circle(blue()).color, blue());
    let r = noxkit::widgets::RoundedRect(blue(), 9);
    assert_eq!((r.color, r.radius), (blue(), 9));
}

#[test]
fn frame_holds_only_this_frames_primitives() {
    let (mut w, lc) = one_button(2);
    let root = Geometry::sized(200, 200);
    let mut rc = RenderContext::new(false);
    rc.render_queue.push_rect(Geometry::sized(1, 1), blue());
    let areas = w.frame(&mut rc, &lc, root);
    assert_eq!(rc.render_queue.len(), 1);
    assert_eq!(rc.render_queue.vertices()[0].shape, Shape::RoundedRect);
    assert_eq!(rc.shape_requests.len(), 1);
    assert_eq!(areas, vec![TextArea { handle: 0, left: 15, top: 15, right: 55, bottom: 25 }]);
    let again = w.frame(&mut rc, &lc, root);
    assert_eq!(again, areas);
    assert_eq!(rc.shape_requests.len(), 1);
    assert_eq!(rc.render_queue.len(), 1);
}
