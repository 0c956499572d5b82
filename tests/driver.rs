use noxkit::driver::{Action, FrameDriver, Input};
use noxkit::geometry::{Event, Geometry};

fn events(a: Action) -> Vec<Event> {
    match a {
        Action::Dispatch(e) => e,
        _ => panic!("expected events"),
    }
}

#[test]
fn first_redraw_renders_then_nothing_is_due() {
    let mut d = FrameDriver::new(640, 480);
    assert_eq!(d.root_geometry(), Geometry { x: 0, y: 0, width: 640, height: 480 });
    assert!(matches!(d.step(Input::RedrawRequested), Action::Render));
    assert!(matches!(d.step(Input::RedrawRequested), Action::Ignore));
}

#[test]
fn press_synthesizes_a_click_at_the_cursor() {
    let mut d = FrameDriver::new(10, 10);
    events(d.step(Input::CursorMoved { x: 3, y: 4 }));
    assert_eq!(
        events(d.step(Input::MouseButton { pressed: true })),
        vec![Event::MouseDown { x: 3, y: 4 }, Event::MouseClick { x: 3, y: 4 }]
    );
    assert_eq!(events(d.step(Input::MouseButton { pressed: false })), vec![Event::MouseUp { x: 3, y: 4 }]);
    assert!(matches!(d.step(Input::RedrawRequested), Action::Render));
}

#[test]
fn resize_relayouts_unless_empty() {
    let mut d = FrameDriver::new(10, 10);
    assert!(matches!(d.step(Input::RedrawRequested), Action::Render));
    assert!(matches!(d.step(Input::Resized { width: 0, height: 5 }), Action::Ignore));
    assert!(matches!(d.step(Input::RedrawRequested), Action::Ignore));
    assert!(matches!(d.step(Input::Resized { width: 30, height: 20 }), Action::Relayout));
    assert_eq!(d.root_geometry(), Geometry::sized(30, 20));
    assert!(matches!(d.step(Input::RedrawRequested), Action::Render));
    assert!(matches!(d.step(Input::CloseRequested), Action::Exit));
}

#[test]
fn cursor_move_is_delivered_as_a_move() {
    let mut d = FrameDriver::new(10, 10);
    assert_eq!(events(d.step(Input::CursorMoved { x: -2, y: 7 })), vec![Event::MouseMove { x: -2, y: 7 }]);
}
