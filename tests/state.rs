use noxkit::state::{create_computed, create_memo, create_signal, update_and_recompute, Computed, Signal};

#[test]
fn signal_starts_with_its_value() {
    let s = Signal::new(5);
    assert_eq!(s.get(), 5);
}

#[test]
fn update_applies_each_function_in_turn() {
    let mut s = create_signal(1);
    s.update(|v| v + 2);
    s.update(|v| v * 10);
    s.update(|v| v - 4);
    assert_eq!(s.get(), 26);
}

#[test]
fn update_notifies_every_listener_once_in_order() {
    let mut s = create_signal(String::from("a"));
    s.subscribe(3);
    s.subscribe(1);
    s.subscribe(2);
    let first = s.update(|v| format!("{}b", v));
    assert_eq!(first, vec![3, 1, 2]);
    assert_eq!(s.get(), "ab");
    let second = s.update(|v| format!("{}c", v));
    assert_eq!(second, vec![3, 1, 2]);
    assert_eq!(s.get(), "abc");
}

#[test]
fn update_without_listeners_notifies_nobody() {
    let mut s = create_signal(0u8);
    let notified = s.update(|v| v + 1);
    assert!(notified.is_empty());
    assert_eq!(s.get(), 1);
}

#[test]
fn notify_lists_the_subscribers() {
    let mut s = Signal::new(0);
    assert!(s.notify().is_empty());
    s.subscribe(9);
    s.subscribe(9);
    assert_eq!(s.notify(), vec![9, 9]);
}

#[test]
fn computed_holds_the_function_result() {
    let c = Computed::new(|| 6 * 7);
    assert_eq!(c.get(), 42);
    let d = create_computed(|| String::from("x"));
    assert_eq!(d.get(), "x");
}

#[test]
fn memo_derives_from_the_dependency_now() {
    let mut s = create_signal(4);
    let m = create_memo(&mut s, 11, |v: &i32| v * 3);
    assert_eq!(m.get(), 12);
    assert_eq!(m.listener(), 11);
    assert_eq!(s.notify(), vec![11]);
}

#[test]
fn memo_follows_each_update() {
    let mut s = create_signal(1);
    let mut m = create_memo(&mut s, 0, |v: &i32| v + 100);
    for step in 1..4 {
        let notified = update_and_recompute(&mut s, &mut m, |v| v * 2);
        assert_eq!(notified, vec![0]);
        assert_eq!(m.get(), (1 << step) + 100);
    }
}

#[test]
fn memo_is_recomputed_by_the_update() {
    let mut s = create_signal(1);
    let mut m = create_memo(&mut s, 5, |x: &i32| x * 2);
    assert_eq!(m.get(), 2);
    update_and_recompute(&mut s, &mut m, |n| n + 4);
    assert_eq!(s.get(), 5);
    assert_eq!(m.get(), 10);
}

#[test]
fn memo_reacts_to_its_listener_handle() {
    let mut s = create_signal(2);
    let mut m = create_memo(&mut s, 5, |v: &i32| v * v);
    s.subscribe(8);
    let notified = update_and_recompute(&mut s, &mut m, |v| v + 1);
    assert_eq!(notified, vec![5, 8]);
    assert_eq!(m.get(), 9);
    m.on_notify(&s);
    assert_eq!(m.get(), 9);
}
