use hobbit_wm::{popup_target, Compositor, CompositorError, Point, Positioner, Rect, Size};

fn positioner(anchor_rect: Rect) -> Positioner {
    Positioner {
        rect_size: Size { w: 200, h: 100 },
        anchor_rect,
        anchor_edges: 8,
        gravity: 8,
        constraint_adjustment: 1,
        offset: Point { x: 0, y: 0 },
    }
}

/// A compositor with a 1920x1080 output and a window, surface 0, at `loc`.
fn with_window(loc: Point) -> Compositor {
    let mut c = Compositor::new();
    c.on_resize(Rect { x: 0, y: 0, w: 1920, h: 1080 });
    let s = c.create_surface(1).unwrap();
    c.new_toplevel(s).unwrap();
    let w = c.space.elements[0].window;
    c.space.map_element(w, loc, false);
    c
}

#[test]
fn popup_target_moves_output_into_anchor_space() {
    let output = Rect { x: 0, y: 0, w: 1920, h: 1080 };
    let t = popup_target(output, Point { x: 50, y: 10 }, Point { x: 100, y: 100 });
    assert_eq!(t, Rect { x: -150, y: -110, w: 1920, h: 1080 });
}

#[test]
fn nested_popup_target_subtracts_anchor_offset_and_window() {
    let mut c = with_window(Point { x: 100, y: 100 });
    let menu = c.create_surface(1).unwrap();
    c.new_popup(menu, 0, positioner(Rect { x: 0, y: 0, w: 1, h: 1 }), Rect { x: 50, y: 10, w: 200, h: 100 }).unwrap();
    c.on_commit(menu);
    let sub = c.create_surface(1).unwrap();
    c.new_popup(sub, menu, positioner(Rect { x: 0, y: 0, w: 1, h: 1 }), Rect { x: 0, y: 0, w: 20, h: 20 }).unwrap();
    assert_eq!(c.unconstrain_target(0), Some(Rect { x: -100, y: -100, w: 1920, h: 1080 }));
    assert_eq!(c.unconstrain_target(1), Some(Rect { x: -150, y: -110, w: 1920, h: 1080 }));
}

#[test]
fn popup_parent_may_be_created_later() {
    let mut c = Compositor::new();
    c.on_resize(Rect { x: 0, y: 0, w: 1920, h: 1080 });
    let p = c.create_surface(1).unwrap();
    let parent = c.create_surface(1).unwrap();
    c.new_toplevel(parent).unwrap();
    let g = Rect { x: 5, y: 5, w: 20, h: 20 };
    assert_eq!(c.new_popup(p, parent, positioner(Rect { x: 0, y: 0, w: 1, h: 1 }), g), Ok(()));
    assert_eq!(c.popups.len(), 1);
    assert_eq!(c.unconstrain_target(0), Some(Rect { x: 0, y: 0, w: 1920, h: 1080 }));
}

#[test]
fn popup_of_unmapped_root_is_inert() {
    let mut c = Compositor::new();
    c.on_resize(Rect { x: 0, y: 0, w: 1920, h: 1080 });
    let parent = c.create_surface(1).unwrap();
    let p = c.create_surface(1).unwrap();
    c.new_popup(p, parent, positioner(Rect { x: 100, y: 100, w: 20, h: 20 }), Rect { x: -90, y: 10, w: 200, h: 100 }).unwrap();
    assert_eq!(c.unconstrain_target(0), None);
    assert_eq!(c.popups[0].geometry, Rect { x: -90, y: 10, w: 200, h: 100 });
}

#[test]
fn popup_without_output_is_inert() {
    let mut c = Compositor::new();
    let s = c.create_surface(1).unwrap();
    c.new_toplevel(s).unwrap();
    let p = c.create_surface(1).unwrap();
    c.new_popup(p, s, positioner(Rect { x: 0, y: 0, w: 1, h: 1 }), Rect { x: 0, y: 0, w: 1, h: 1 }).unwrap();
    assert_eq!(c.unconstrain_target(0), None);
}

#[test]
fn unconstrain_twice_gives_same_rectangle() {
    let mut c = with_window(Point { x: 300, y: 200 });
    let p = c.create_surface(1).unwrap();
    c.new_popup(p, 0, positioner(Rect { x: 1700, y: 900, w: 30, h: 30 }), Rect { x: 1730, y: 930, w: 200, h: 100 }).unwrap();
    let first = c.unconstrain_target(0).unwrap();
    c.set_popup_geometry(0, Rect { x: 1300, y: 600, w: 200, h: 100 });
    assert_eq!(c.unconstrain_target(0), Some(first));
    assert_eq!(first, Rect { x: -300, y: -200, w: 1920, h: 1080 });
}

#[test]
fn resize_changes_popup_target() {
    let mut c = with_window(Point { x: 10, y: 0 });
    let p = c.create_surface(1).unwrap();
    c.new_popup(p, 0, positioner(Rect { x: 900, y: 10, w: 10, h: 10 }), Rect { x: 910, y: 20, w: 200, h: 100 }).unwrap();
    let targets = c.on_resize(Rect { x: 0, y: 0, w: 1000, h: 800 });
    assert_eq!(targets, vec![Some(Rect { x: -10, y: 0, w: 1000, h: 800 })]);
    assert_eq!(c.unconstrain_target(0), Some(Rect { x: -10, y: 0, w: 1000, h: 800 }));
}

#[test]
fn reposition_of_untracked_surface_is_not_found() {
    let mut c = with_window(Point { x: 0, y: 0 });
    let pos = positioner(Rect { x: 0, y: 0, w: 1, h: 1 });
    assert_eq!(c.reposition_request(0, pos, Rect { x: 0, y: 0, w: 1, h: 1 }), Err(CompositorError::NotFound));
}

#[test]
fn reposition_takes_new_positioner() {
    let mut c = with_window(Point { x: 0, y: 0 });
    let p = c.create_surface(1).unwrap();
    c.new_popup(p, 0, positioner(Rect { x: 10, y: 10, w: 10, h: 10 }), Rect { x: 20, y: 20, w: 200, h: 100 }).unwrap();
    let second = positioner(Rect { x: 50, y: 60, w: 10, h: 10 });
    assert_eq!(c.reposition_request(p, second, Rect { x: 60, y: 70, w: 200, h: 100 }), Ok(0));
    assert_eq!(c.popups[0].positioner, second);
    assert_eq!(c.popups[0].geometry, Rect { x: 60, y: 70, w: 200, h: 100 });
}
