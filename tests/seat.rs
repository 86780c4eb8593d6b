use hobbit_wm::{
    axis_frame, key_filter, AxisInput, AxisOutput, AxisSource, Compositor, CompositorError,
    FilterResult, Point, Rect, Size, KEY_T,
};

/// A compositor with a 1920x1080 output and two committed windows of client
/// 10 and client 20: surface 0 at (100,100) sized 300x200, surface 1 at
/// (1000,500) sized 100x100, in that stacking order.
fn two_windows() -> Compositor {
    let mut c = Compositor::new();
    c.on_resize(Rect { x: 0, y: 0, w: 1920, h: 1080 });
    let a = c.create_surface(10).unwrap();
    let b = c.create_surface(20).unwrap();
    for (s, size, loc) in [(a, Size { w: 300, h: 200 }, Point { x: 100, y: 100 }), (b, Size { w: 100, h: 100 }, Point { x: 1000, y: 500 })] {
        c.new_toplevel(s).unwrap();
        c.on_commit(s);
        c.attach(s, Some(s as u64), size).unwrap();
        c.on_commit(s);
        let w = c.space.elements[c.space.position(s).unwrap()].window;
        c.space.map_element(w, loc, false);
    }
    c
}

#[test]
fn motion_into_window_finds_root_surface() {
    let mut c = two_windows();
    let m = c.pointer_motion_absolute(8192, 13107, 1).unwrap();
    assert_eq!(m.location, Point { x: 240, y: 215 });
    assert!(100 <= m.location.x && m.location.x < 400 && 100 <= m.location.y && m.location.y < 300);
    let hit = m.under.unwrap();
    assert_eq!(hit.surface, 0);
    assert_eq!(hit.local, Point { x: 140, y: 115 });
    assert_eq!(c.seat.pointer_focus, Some(0));
}

#[test]
fn motion_over_nothing_clears_pointer_focus() {
    let mut c = two_windows();
    c.pointer_motion_absolute(8192, 13107, 1).unwrap();
    let m = c.pointer_motion_absolute(0, 0, 2).unwrap();
    assert_eq!(m.under, None);
    assert_eq!(c.seat.pointer_focus, None);
}

#[test]
fn motion_without_output_is_not_found() {
    let mut c = Compositor::new();
    assert_eq!(c.pointer_motion_absolute(1, 1, 1), Err(CompositorError::NotFound));
}

#[test]
fn subsurface_is_found_above_its_parent() {
    let mut c = two_windows();
    let sub = c.create_surface(10).unwrap();
    c.new_subsurface(sub, 0, Point { x: 10, y: 20 }, false).unwrap();
    c.attach(sub, Some(9), Size { w: 50, h: 50 }).unwrap();
    c.on_commit(sub);
    let hit = c.surface_under(Point { x: 130, y: 140 }).unwrap();
    assert_eq!(hit.surface, sub);
    assert_eq!(hit.local, Point { x: 20, y: 20 });
    let hit = c.surface_under(Point { x: 300, y: 250 }).unwrap();
    assert_eq!(hit.surface, 0);
}

#[test]
fn press_on_window_raises_activates_and_focuses() {
    let mut c = two_windows();
    c.pointer_motion_absolute(8192, 13107, 1).unwrap();
    let out = c.pointer_button(true, 5);
    assert!(out.focus_changed);
    assert_eq!(out.configure, vec![1, 0]);
    let top = c.space.element_under(Point { x: 240, y: 215 }).unwrap();
    assert_eq!(top.window.surface, 0);
    assert_eq!(c.space.elements.last().unwrap().window.surface, 0);
    assert!(c.space.elements[1].window.activated);
    assert!(!c.space.elements[0].window.activated);
    assert_eq!(c.seat.keyboard_focus, Some(0));
    assert_eq!(c.seat.selection_client, Some(10));
}

#[test]
fn press_on_nothing_clears_focus_and_selection() {
    let mut c = two_windows();
    c.pointer_motion_absolute(8192, 13107, 1).unwrap();
    c.pointer_button(true, 5);
    c.pointer_motion_absolute(0, 0, 2).unwrap();
    let out = c.pointer_button(true, 5);
    assert!(out.focus_changed);
    assert_eq!(c.seat.keyboard_focus, None);
    assert_eq!(c.seat.selection_client, None);
    assert!(c.space.elements.iter().all(|e| !e.window.activated));
    assert_eq!(out.configure.len(), 2);
}

#[test]
fn release_and_grab_skip_focus() {
    let mut c = two_windows();
    c.pointer_motion_absolute(8192, 13107, 1).unwrap();
    let out = c.pointer_button(false, 6);
    assert!(!out.focus_changed);
    assert!(out.configure.is_empty());
    c.seat.pointer_grabbed = true;
    let out = c.pointer_button(true, 5);
    assert!(!out.focus_changed);
    assert_eq!(c.seat.keyboard_focus, None);
}

#[test]
fn events_carry_their_serials() {
    let mut c = two_windows();
    assert_eq!(c.keyboard_key(0x61, true, false, 41).serial, 41);
    assert_eq!(c.pointer_button(false, 42).serial, 42);
    assert_eq!(c.pointer_motion_absolute(0, 0, 43).unwrap().serial, 43);
}

#[test]
fn ctrl_t_is_intercepted() {
    assert_eq!(key_filter(KEY_T, true, true), FilterResult::Intercept);
    assert_eq!(key_filter(KEY_T, false, true), FilterResult::Forward);
    assert_eq!(key_filter(KEY_T, true, false), FilterResult::Forward);
    let mut c = two_windows();
    c.set_keyboard_focus(Some(1));
    let k = c.keyboard_key(KEY_T, true, true, 3);
    assert_eq!(k.filter, FilterResult::Intercept);
    assert_eq!(k.deliver_to, None);
    let k = c.keyboard_key(0x61, true, true, 4);
    assert_eq!(k.deliver_to, Some(1));
}

#[test]
fn finger_zero_stops_vertical_axis() {
    let f = axis_frame(
        AxisSource::Finger,
        5,
        AxisInput { amount: Some(512), v120: None },
        AxisInput { amount: Some(0), v120: None },
    );
    assert_eq!(f.vertical, AxisOutput { value: None, v120: None, stop: true });
    assert_eq!(f.horizontal, AxisOutput { value: Some(512), v120: None, stop: false });
}

#[test]
fn wheel_steps_become_distance() {
    let f = axis_frame(
        AxisSource::Wheel,
        7,
        AxisInput { amount: None, v120: None },
        AxisInput { amount: None, v120: Some(120) },
    );
    assert_eq!(f.vertical, AxisOutput { value: Some(3840), v120: Some(120), stop: false });
    assert_eq!(f.horizontal, AxisOutput { value: None, v120: None, stop: false });
    assert_eq!(f.time, 7);
}

#[test]
fn wheel_zero_does_not_stop() {
    let f = axis_frame(
        AxisSource::Wheel,
        0,
        AxisInput { amount: Some(0), v120: None },
        AxisInput { amount: Some(0), v120: None },
    );
    assert!(!f.vertical.stop && !f.horizontal.stop);
}

#[test]
fn absolute_position_scales_into_output() {
    let o = Rect { x: 100, y: 50, w: 1000, h: 500 };
    assert_eq!(hobbit_wm::absolute_position(o, 0, 0), Point { x: 100, y: 50 });
    assert_eq!(hobbit_wm::absolute_position(o, 65536, 65536), Point { x: 1100, y: 550 });
    assert_eq!(hobbit_wm::absolute_position(o, 32768, 16384), Point { x: 600, y: 175 });
}
