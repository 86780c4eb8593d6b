use hobbit_wm::{Compositor, CompositorError, LookupError, Point, Rect, Size, Space, Window};

fn window(surface: usize, w: i32, h: i32) -> Window {
    Window { surface, size: Size { w, h }, activated: false }
}

fn order(s: &Space) -> Vec<usize> {
    s.elements.iter().map(|e| e.window.surface).collect()
}

#[test]
fn map_twice_keeps_one_entry() {
    let mut s = Space::new();
    s.map_element(window(1, 10, 10), Point { x: 0, y: 0 }, false);
    s.map_element(window(2, 10, 10), Point { x: 5, y: 5 }, false);
    s.map_element(window(1, 10, 10), Point { x: 7, y: 8 }, false);
    assert_eq!(order(&s), vec![2, 1]);
    assert_eq!(s.elements[1].loc, Point { x: 7, y: 8 });
}

#[test]
fn raise_moves_to_top_and_keeps_others() {
    let mut s = Space::new();
    for i in 1..=4 {
        s.map_element(window(i, 10, 10), Point { x: 0, y: 0 }, false);
    }
    s.raise_element(2, false);
    assert_eq!(order(&s), vec![1, 3, 4, 2]);
    s.raise_element(9, false);
    assert_eq!(order(&s), vec![1, 3, 4, 2]);
}

#[test]
fn raise_topmost_changes_nothing() {
    let mut s = Space::new();
    for i in 1..=3 {
        s.map_element(window(i, 10, 10), Point { x: i as i32, y: 0 }, false);
    }
    let before = s.elements.clone();
    s.raise_element(3, false);
    assert_eq!(s.elements, before);
}

#[test]
fn activating_map_deactivates_others() {
    let mut s = Space::new();
    s.map_element(window(1, 10, 10), Point { x: 0, y: 0 }, true);
    s.map_element(window(2, 10, 10), Point { x: 0, y: 0 }, true);
    assert!(!s.elements[0].window.activated);
    assert!(s.elements[1].window.activated);
}

#[test]
fn element_under_prefers_topmost() {
    let mut s = Space::new();
    s.map_element(window(1, 100, 100), Point { x: 0, y: 0 }, false);
    s.map_element(window(2, 100, 100), Point { x: 50, y: 50 }, false);
    assert_eq!(s.element_under(Point { x: 60, y: 60 }).unwrap().window.surface, 2);
    assert_eq!(s.element_under(Point { x: 10, y: 10 }).unwrap().window.surface, 1);
    assert_eq!(s.element_under(Point { x: 150, y: 150 }), None);
    assert_eq!(s.element_under(Point { x: 149, y: 149 }).unwrap().window.surface, 2);
}

#[test]
fn geometry_lookups() {
    let mut s = Space::new();
    assert_eq!(s.output_geometry(), Err(LookupError::NotFound));
    s.map_output(Rect { x: 0, y: 0, w: 1920, h: 1080 });
    assert_eq!(s.output_geometry(), Ok(Rect { x: 0, y: 0, w: 1920, h: 1080 }));
    s.map_element(window(4, 30, 20), Point { x: 1, y: 2 }, false);
    assert_eq!(s.element_geometry(4), Ok(Rect { x: 1, y: 2, w: 30, h: 20 }));
    assert_eq!(s.element_geometry(5), Err(LookupError::NotFound));
}

#[test]
fn unmap_removes_window() {
    let mut s = Space::new();
    s.map_element(window(1, 10, 10), Point { x: 0, y: 0 }, false);
    s.map_element(window(2, 10, 10), Point { x: 0, y: 0 }, false);
    s.unmap_element(1);
    assert_eq!(order(&s), vec![2]);
}

#[test]
fn toplevel_role_twice_is_violation() {
    let mut c = Compositor::new();
    let s = c.create_surface(3).unwrap();
    assert_eq!(c.new_toplevel(s), Ok(()));
    assert_eq!(c.new_toplevel(s), Err(CompositorError::ProtocolViolation));
    assert_eq!(c.new_toplevel(7), Err(CompositorError::ProtocolViolation));
    assert_eq!(c.space.elements.len(), 1);
    assert_eq!(c.space.elements[0].loc, Point { x: 0, y: 0 });
}

#[test]
fn subsurface_parent_may_be_created_later() {
    let mut c = Compositor::new();
    let a = c.create_surface(1).unwrap();
    let b = c.create_surface(1).unwrap();
    assert_eq!(c.new_subsurface(a, b, Point { x: 3, y: 4 }, true), Ok(()));
    assert_eq!(c.surfaces.surfaces[a].parent, Some(b));
    assert_eq!(c.surfaces.root(a), b);
}

#[test]
fn subsurface_cycle_is_violation() {
    let mut c = Compositor::new();
    let a = c.create_surface(1).unwrap();
    let b = c.create_surface(1).unwrap();
    let x = c.create_surface(1).unwrap();
    c.new_subsurface(b, a, Point { x: 0, y: 0 }, false).unwrap();
    c.new_subsurface(x, b, Point { x: 0, y: 0 }, false).unwrap();
    assert_eq!(c.new_subsurface(a, x, Point { x: 0, y: 0 }, false), Err(CompositorError::ProtocolViolation));
    assert_eq!(c.new_subsurface(a, a, Point { x: 0, y: 0 }, false), Err(CompositorError::ProtocolViolation));
    assert_eq!(c.surfaces.surfaces[a].parent, None);
}

#[test]
fn destroyed_slot_is_reused() {
    let mut c = Compositor::new();
    let a = c.create_surface(1).unwrap();
    let b = c.create_surface(2).unwrap();
    c.destroy_surface(a).unwrap();
    let n = c.create_surface(3).unwrap();
    assert_eq!(n, a);
    assert_eq!(c.surfaces.surfaces.len(), 2);
    assert!(c.surfaces.surfaces[n].alive);
    assert_eq!(c.surfaces.surfaces[n].client, 3);
    let _ = b;
}

#[test]
fn named_parent_slot_is_not_reused() {
    let mut c = Compositor::new();
    let p = c.create_surface(1).unwrap();
    let s = c.create_surface(1).unwrap();
    c.new_subsurface(s, p, Point { x: 0, y: 0 }, false).unwrap();
    c.destroy_surface(p).unwrap();
    let n = c.create_surface(1).unwrap();
    assert_eq!(n, 2);
}

#[test]
fn subsurface_setters() {
    let mut c = Compositor::new();
    let p = c.create_surface(1).unwrap();
    let s = c.create_surface(1).unwrap();
    c.new_subsurface(s, p, Point { x: 0, y: 0 }, true).unwrap();
    assert_eq!(c.set_subsurface_sync(s, false), Ok(()));
    assert!(!c.surfaces.surfaces[s].sync);
    assert_eq!(c.set_subsurface_position(s, Point { x: 7, y: 9 }), Ok(()));
    assert_eq!(c.surfaces.offset_in_root(s), Some(Point { x: 7, y: 9 }));
    assert_eq!(c.set_subsurface_sync(p, true), Err(CompositorError::NotFound));
    assert_eq!(c.set_subsurface_position(9, Point { x: 0, y: 0 }), Err(CompositorError::NotFound));
}
