use hobbit_wm::{CommitOutcome, Compositor, CompositorError, Point, Positioner, Rect, Size};

#[test]
fn first_commit_configures_once_and_promotes_nothing() {
    let mut c = Compositor::new();
    let s = c.create_surface(1).unwrap();
    c.new_toplevel(s).unwrap();
    c.attach(s, Some(5), Size { w: 40, h: 30 }).unwrap();
    let r = c.on_commit(s);
    assert!(r.configure_toplevel);
    assert_eq!(c.surfaces.surfaces[s].current.buffer, None);
    let r = c.on_commit(s);
    assert!(!r.configure_toplevel);
    assert_eq!(c.surfaces.surfaces[s].current.buffer, Some(5));
    assert_eq!(r.dirty_window, Some(s));
    assert_eq!(c.space.elements[0].window.size, Size { w: 40, h: 30 });
    let r = c.on_commit(s);
    assert!(!r.configure_toplevel);
}

#[test]
fn commit_of_unknown_surface_does_nothing() {
    let mut c = Compositor::new();
    let r = c.on_commit(3);
    assert_eq!(r, CommitOutcome { configure_toplevel: false, configure_popup: false, dirty_window: None });
}

#[test]
fn commit_of_plain_surface_applies_without_window() {
    let mut c = Compositor::new();
    let s = c.create_surface(1).unwrap();
    c.attach(s, Some(2), Size { w: 1, h: 1 }).unwrap();
    let r = c.on_commit(s);
    assert_eq!(r.dirty_window, None);
    assert!(!r.configure_toplevel);
    assert_eq!(c.surfaces.surfaces[s].current.buffer, Some(2));
}

#[test]
fn sync_subsurface_waits_for_parent() {
    let mut c = Compositor::new();
    let root = c.create_surface(1).unwrap();
    c.new_toplevel(root).unwrap();
    c.on_commit(root);
    let sub = c.create_surface(1).unwrap();
    c.new_subsurface(sub, root, Point { x: 1, y: 1 }, true).unwrap();
    let inner = c.create_surface(1).unwrap();
    c.new_subsurface(inner, sub, Point { x: 1, y: 1 }, false).unwrap();
    c.attach(sub, Some(7), Size { w: 5, h: 5 }).unwrap();
    c.attach(inner, Some(8), Size { w: 2, h: 2 }).unwrap();
    let r = c.on_commit(sub);
    assert_eq!(r.dirty_window, None);
    assert_eq!(c.surfaces.surfaces[sub].current.buffer, None);
    c.on_commit(inner);
    assert_eq!(c.surfaces.surfaces[inner].current.buffer, None);
    let r = c.on_commit(root);
    assert_eq!(r.dirty_window, Some(root));
    assert_eq!(c.surfaces.surfaces[sub].current.buffer, Some(7));
    assert_eq!(c.surfaces.surfaces[inner].current.buffer, Some(8));
}

#[test]
fn desync_subsurface_marks_window_dirty() {
    let mut c = Compositor::new();
    let root = c.create_surface(1).unwrap();
    c.new_toplevel(root).unwrap();
    c.on_commit(root);
    let sub = c.create_surface(1).unwrap();
    c.new_subsurface(sub, root, Point { x: 0, y: 0 }, false).unwrap();
    c.attach(sub, Some(4), Size { w: 5, h: 5 }).unwrap();
    let r = c.on_commit(sub);
    assert_eq!(r.dirty_window, Some(root));
    assert_eq!(c.surfaces.surfaces[sub].current.buffer, Some(4));
}

#[test]
fn popup_gets_initial_configure_once() {
    let mut c = Compositor::new();
    c.on_resize(Rect { x: 0, y: 0, w: 800, h: 600 });
    let root = c.create_surface(1).unwrap();
    c.new_toplevel(root).unwrap();
    let p = c.create_surface(1).unwrap();
    let pos = Positioner {
        rect_size: Size { w: 50, h: 40 },
        anchor_rect: Rect { x: 10, y: 10, w: 10, h: 10 },
        anchor_edges: 5,
        gravity: 8,
        constraint_adjustment: 0,
        offset: Point { x: 0, y: 0 },
    };
    let g = Rect { x: 10, y: 10, w: 50, h: 40 };
    c.new_popup(p, root, pos, g).unwrap();
    assert_eq!(c.new_popup(p, root, pos, g), Err(CompositorError::ProtocolViolation));
    let r = c.on_commit(p);
    assert!(r.configure_popup);
    assert_eq!(c.surfaces.surfaces[p].offset, Point { x: 10, y: 10 });
    let r = c.on_commit(p);
    assert!(!r.configure_popup);
}

#[test]
fn destroy_unmaps_and_clears_focus() {
    let mut c = Compositor::new();
    c.on_resize(Rect { x: 0, y: 0, w: 800, h: 600 });
    let root = c.create_surface(4).unwrap();
    c.new_toplevel(root).unwrap();
    c.set_keyboard_focus(Some(root));
    assert_eq!(c.seat.selection_client, Some(4));
    let p = c.create_surface(4).unwrap();
    let pos = Positioner {
        rect_size: Size { w: 5, h: 5 },
        anchor_rect: Rect { x: 0, y: 0, w: 1, h: 1 },
        anchor_edges: 0,
        gravity: 0,
        constraint_adjustment: 0,
        offset: Point { x: 0, y: 0 },
    };
    c.new_popup(p, root, pos, Rect { x: 0, y: 0, w: 5, h: 5 }).unwrap();
    assert_eq!(c.redraw_tick(), vec![root]);
    assert_eq!(c.popups.len(), 1);
    assert_eq!(c.destroy_surface(root), Ok(()));
    assert_eq!(c.destroy_surface(99), Err(CompositorError::NotFound));
    assert!(c.space.elements.is_empty());
    assert_eq!(c.seat.keyboard_focus, None);
    assert_eq!(c.seat.selection_client, None);
    assert_eq!(c.redraw_tick(), Vec::<usize>::new());
    assert!(c.popups.is_empty());
}

#[test]
fn attach_to_unknown_surface_is_not_found() {
    let mut c = Compositor::new();
    assert_eq!(c.attach(0, None, Size { w: 1, h: 1 }), Err(CompositorError::NotFound));
}

#[test]
fn surface_table_walks_to_root() {
    let mut c = Compositor::new();
    let root = c.create_surface(1).unwrap();
    let a = c.create_surface(1).unwrap();
    let b = c.create_surface(1).unwrap();
    c.new_subsurface(a, root, Point { x: 5, y: 6 }, false).unwrap();
    c.new_subsurface(b, a, Point { x: -2, y: 10 }, true).unwrap();
    assert_eq!(c.surfaces.root(b), root);
    assert_eq!(c.surfaces.offset_in_root(b), Some(Point { x: 3, y: 16 }));
    assert_eq!(c.surfaces.offset_in_root(root), Some(Point { x: 0, y: 0 }));
    assert!(c.surfaces.is_sync(b));
    assert!(!c.surfaces.is_sync(a));
}
