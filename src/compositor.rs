use vstd::prelude::*;

use crate::geometry::{Point, Rect, Size};
use crate::geometry::{coord_ok, COORD_MAX};
use crate::seat::{absolute_position, absolute_position_spec, key_filter, FilterResult, KEY_T};
use crate::positioner::{popup_target, Positioner};
use crate::space::{surfaces, holds_surface, position_in, raised_at, top_under, Element, Space, SurfaceId, Window};
use crate::surface::{
    committed, effectively_sync, fresh_surface, has_parent, par, reaches, reusable, root_of,
    root_offset, Role, Surface, SurfaceTable, MAX_SURFACES,
};

verus! {

/// Why a request was refused.
#[derive(Clone, Copy, Debug, PartialEq, Eq, Structural)]
pub enum CompositorError {
    /// The client broke the protocol's role or ordering rules; its
    /// connection is to be closed.
    ProtocolViolation,
    /// The request named something that is not mapped or has no output.
    NotFound,
}

/// A popup that the compositor tracks: its surface, what its client asked of
/// its placement, and the rectangle it is to be configured with, relative to
/// its parent.
#[derive(Clone, Copy, Debug, PartialEq, Eq, Structural)]
pub struct Popup {
    pub surface: SurfaceId,
    pub positioner: Positioner,
    pub geometry: Rect,
}

/// The seat: keyboard focus, which client owns the selection, and the
/// pointer.
#[derive(Clone, Copy, Debug, PartialEq, Eq, Structural)]
pub struct Seat {
    pub keyboard_focus: Option<SurfaceId>,
    pub selection_client: Option<u64>,
    pub pointer_location: Point,
    pub pointer_focus: Option<SurfaceId>,
    pub pointer_grabbed: bool,
}

/// What the pointer-button handler did, for the caller to pass on to clients.
#[derive(Debug)]
pub struct ButtonOutcome {
    /// Serial of the button event.
    pub serial: u32,
    /// Whether the press ran focus-follows-click.
    pub focus_changed: bool,
    /// Windows that are to be sent their pending configure, bottom first.
    pub configure: Vec<SurfaceId>,
}

/// What a commit asks the caller to send.
#[derive(Clone, Copy, Debug, PartialEq, Eq, Structural)]
pub struct CommitOutcome {
    /// The toplevel's initial configure is to be sent.
    pub configure_toplevel: bool,
    /// The popup's initial configure is to be sent.
    pub configure_popup: bool,
    /// The window, known by its root surface, that the commit marks dirty.
    pub dirty_window: Option<SurfaceId>,
}

/// A surface found under a point, and the point in that surface's own
/// coordinates.
#[derive(Clone, Copy, Debug, PartialEq, Eq, Structural)]
pub struct SurfaceHit {
    pub surface: SurfaceId,
    pub local: Point,
}

/// What the absolute-motion handler did.
#[derive(Clone, Copy, Debug, PartialEq, Eq, Structural)]
pub struct MotionOutcome {
    /// The pointer's new location on screen.
    pub location: Point,
    /// The surface under the pointer and the pointer's location in it.
    pub under: Option<SurfaceHit>,
    pub serial: u32,
}

/// What the keyboard handler did.
#[derive(Clone, Copy, Debug, PartialEq, Eq, Structural)]
pub struct KeyOutcome {
    pub serial: u32,
    pub filter: FilterResult,
    /// The surface that the key event is to be delivered to.
    pub deliver_to: Option<SurfaceId>,
}

/// Surface `j` is a live surface of the tree rooted at `root` whose current
/// rectangle, placed relative to the root, contains the point `(lx, ly)`.
pub open spec fn surface_hit(t: Seq<Surface>, d: Seq<nat>, root: int, lx: int, ly: int, j: int) -> bool {
    &&& 0 <= j < t.len()
    &&& t[j].alive
    &&& root_of(t, d, j) == root
    &&& match root_offset(t, d, j) {
        Some(o) => o.0 <= lx < o.0 + t[j].current.size.w && o.1 <= ly < o.1 + t[j].current.size.h,
        None => false,
    }
}

/// The last surface below index `n` that `surface_hit` accepts, or -1: later
/// surfaces are painted above earlier ones.
pub open spec fn top_surface_hit(t: Seq<Surface>, d: Seq<nat>, root: int, lx: int, ly: int, n: int) -> int
    decreases n,
{
    if n <= 0 {
        -1
    } else if surface_hit(t, d, root, lx, ly, n - 1) {
        n - 1
    } else {
        top_surface_hit(t, d, root, lx, ly, n - 1)
    }
}

/// The index that `top_surface_hit` finds is -1 or one that `surface_hit`
/// accepts.
pub proof fn lemma_top_surface_hit_range(t: Seq<Surface>, d: Seq<nat>, root: int, lx: int, ly: int, n: int)
    ensures
        -1 <= top_surface_hit(t, d, root, lx, ly, n) < if n > 0 { n } else { 0 },
        top_surface_hit(t, d, root, lx, ly, n) >= 0 ==> surface_hit(t, d, root, lx, ly, top_surface_hit(t, d, root, lx, ly, n)),
    decreases n,
{
    if n > 0 {
        lemma_top_surface_hit_range(t, d, root, lx, ly, n - 1);
    }
}

/// Whether popup `p` is kept at the end of a frame: its surface and its
/// parent are alive and its root is a mapped window.
pub open spec fn popup_alive(t: Seq<Surface>, d: Seq<nat>, s: Seq<Element>, p: Popup) -> bool {
    &&& p.surface < t.len()
    &&& t[p.surface as int].alive
    &&& match t[p.surface as int].parent {
        Some(q) => q < t.len() && t[q as int].alive,
        None => false,
    }
    &&& holds_surface(s, root_of(t, d, p.surface as int) as usize)
}

/// Whether some tracked popup has `surface` as its surface.
pub open spec fn tracks_popup(p: Seq<Popup>, surface: SurfaceId) -> bool {
    exists|k: int| 0 <= k < p.len() && p[k].surface == surface
}

/// The client that owns surface `f`, if there is one.
pub open spec fn client_of(t: Seq<Surface>, f: Option<SurfaceId>) -> Option<u64> {
    match f {
        Some(i) => if i < t.len() {
            Some(t[i as int].client)
        } else {
            None
        },
        None => None,
    }
}

/// The target rectangle for popup `p` given the surface table, the stack and
/// the output; see `Compositor::target`.
pub open spec fn target_of(t: Seq<Surface>, d: Seq<nat>, s: Seq<Element>, output: Option<Rect>, p: Popup) -> Option<Rect> {
    let root = root_of(t, d, p.surface as int);
    match (position_in(s, root as usize), output, t[p.surface as int].parent) {
        (Some(wi), Some(o), Some(q)) => {
            let loc = s[wi].loc;
            match root_offset(t, d, q as int) {
                Some(a) => Some(
                    Rect {
                        x: (o.x - a.0 - loc.x) as i32,
                        y: (o.y - a.1 - loc.y) as i32,
                        w: o.w,
                        h: o.h,
                    },
                ),
                None => None,
            }
        },
        _ => None,
    }
}

/// The index that `top_under` finds is -1 or an index below `n`.
pub proof fn lemma_top_under_range(s: Seq<Element>, p: Point, n: int)
    requires
        0 <= n <= s.len(),
    ensures
        -1 <= top_under(s, p, n) < n,
        top_under(s, p, n) >= 0 ==> s[top_under(s, p, n)].geometry_spec().contains_spec(p),
    decreases n,
{
    if n > 0 {
        lemma_top_under_range(s, p, n - 1);
    }
}

/// Two tables that agree on roles, parents and sync flags agree on roots
/// and on which surfaces wait for their parents.
proof fn lemma_tree_same(a: Seq<Surface>, b: Seq<Surface>, d: Seq<nat>, i: int)
    requires
        a.len() == b.len(),
        forall|j: int| 0 <= j < a.len() ==> (#[trigger] b[j]).role == a[j].role && b[j].parent
            == a[j].parent && b[j].sync == a[j].sync,
    ensures
        effectively_sync(a, d, i) == effectively_sync(b, d, i),
        root_of(a, d, i) == root_of(b, d, i),
    decreases d[i],
{
    if 0 <= i < a.len() {
        assert(b[i].parent == a[i].parent);
        if has_parent(a, d, i) {
            lemma_tree_same(a, b, d, par(a, i));
        }
    }
}

/// A popup's target rectangle is a function of the surface table, the
/// stack, the output and the popup's own surface: computing it again with
/// those unchanged gives the same rectangle, whatever geometry the popups
/// were given meanwhile.
pub proof fn lemma_target_stable(a: &Compositor, b: &Compositor, k: int)
    requires
        0 <= k < a.popups@.len(),
        0 <= k < b.popups@.len(),
        a.surfaces@ == b.surfaces@,
        a.surfaces.depth@ == b.surfaces.depth@,
        a.space.elements@ == b.space.elements@,
        a.space.output == b.space.output,
        a.popups@[k].surface == b.popups@[k].surface,
    ensures
        a.target(k) == b.target(k),
{
}

/// A press that hits a window leaves that window topmost under the pointer:
/// the hit test finds it first, it is the activated window, and every other
/// window is deactivated.
pub proof fn lemma_press_on_window(s: Seq<Element>, p: Point)
    requires
        top_under(s, p, s.len() as int) >= 0,
    ensures
        ({
            let t = top_under(s, p, s.len() as int);
            let r = raised_at(s, t, true);
            &&& r.len() == s.len()
            &&& top_under(r, p, r.len() as int) == r.len() - 1
            &&& r[r.len() - 1].window.surface == s[t].window.surface
            &&& r[r.len() - 1].window.activated
            &&& forall|k: int| 0 <= k < r.len() - 1 ==> !(#[trigger] r[k]).window.activated
        }),
{
    lemma_top_under_range(s, p, s.len() as int);
    crate::space::lemma_raised_hit_is_top(s, top_under(s, p, s.len() as int), p);
}

/// The whole state of the compositor core.
pub struct Compositor {
    pub surfaces: SurfaceTable,
    pub space: Space,
    pub popups: Vec<Popup>,
    pub seat: Seat,
}

impl Compositor {
    /// Every window and popup names a live surface of the table: windows
    /// toplevel surfaces, popups popup surfaces; keyboard and pointer focus
    /// are live surfaces.
    pub open spec fn wf(&self) -> bool {
        &&& self.surfaces.wf()
        &&& self.space.wf()
        &&& forall|i: int|
            0 <= i < self.space.elements@.len() ==> {
                let s = (#[trigger] self.space.elements@[i]).window.surface;
                &&& s < self.surfaces@.len()
                &&& self.surfaces@[s as int].role == Role::Toplevel
                &&& self.surfaces@[s as int].alive
            }
        &&& forall|i: int|
            0 <= i < self.popups@.len() ==> {
                let p = #[trigger] self.popups@[i];
                &&& p.surface < self.surfaces@.len()
                &&& self.surfaces@[p.surface as int].role == Role::Popup
                &&& self.surfaces@[p.surface as int].alive
            }
        &&& match self.seat.keyboard_focus {
            Some(f) => f < self.surfaces@.len() && self.surfaces@[f as int].alive,
            None => true,
        }
        &&& match self.seat.pointer_focus {
            Some(f) => f < self.surfaces@.len() && self.surfaces@[f as int].alive,
            None => true,
        }
        &&& self.seat.pointer_location.wf()
    }

    /// An empty compositor: no surfaces, no windows, no output.
    pub fn new() -> (r: Compositor)
        ensures
            r.wf(),
            r.surfaces@.len() == 0,
            r.space.elements@.len() == 0,
            r.space.output == None::<Rect>,
            r.popups@.len() == 0,
            r.seat == (Seat {
                keyboard_focus: None,
                selection_client: None,
                pointer_location: Point { x: 0, y: 0 },
                pointer_focus: None,
                pointer_grabbed: false,
            }),
    {
        Compositor {
            surfaces: SurfaceTable::new(),
            space: Space::new(),
            popups: Vec::new(),
            seat: Seat {
                keyboard_focus: None,
                selection_client: None,
                pointer_location: Point { x: 0, y: 0 },
                pointer_focus: None,
                pointer_grabbed: false,
            },
        }
    }

    /// Moves keyboard focus to `focus` and hands the selection to the client
    /// that owns it, or to no client when focus is cleared.
    pub fn set_keyboard_focus(&mut self, focus: Option<SurfaceId>)
        requires
            old(self).wf(),
            match focus {
                Some(f) => f < old(self).surfaces@.len() && old(self).surfaces@[f as int].alive,
                None => true,
            },
        ensures
            final(self).wf(),
            final(self).seat == (Seat {
                keyboard_focus: focus,
                selection_client: client_of(old(self).surfaces@, focus),
                ..old(self).seat
            }),
            final(self).surfaces == old(self).surfaces,
            final(self).space == old(self).space,
            final(self).popups == old(self).popups,
    {
        self.seat.keyboard_focus = focus;
        self.seat.selection_client = match focus {
            Some(f) => Some(self.surfaces.surfaces[f].client),
            None => None,
        };
    }

    /// A pointer button event. A press outside a pointer grab runs
    /// focus-follows-click at the pointer's location: on a window, that window
    /// is raised and activated, every other one deactivated, and keyboard
    /// focus moves to it; on no window, every window is deactivated and
    /// keyboard focus is cleared. Either way every window is then to be sent
    /// its pending configure. The button event itself is always delivered,
    /// with `serial`.
    pub fn pointer_button(&mut self, pressed: bool, serial: u32) -> (r: ButtonOutcome)
        requires
            old(self).wf(),
        ensures
            final(self).wf(),
            r.serial == serial,
            final(self).surfaces == old(self).surfaces,
            final(self).popups == old(self).popups,
            final(self).space.output == old(self).space.output,
            ({
                let runs = pressed && !old(self).seat.pointer_grabbed;
                let s = old(self).space.elements@;
                let p = old(self).seat.pointer_location;
                let t = top_under(s, p, s.len() as int);
                &&& r.focus_changed == runs
                &&& !runs ==> final(self).space == old(self).space && final(self).seat == old(self).seat
                    && r.configure@.len() == 0
                &&& runs ==> r.configure@ == surfaces(final(self).space.elements@)
                &&& runs && t >= 0 ==> {
                    &&& final(self).space.elements@ == raised_at(s, t, true)
                    &&& final(self).seat == (Seat {
                        keyboard_focus: Some(s[t].window.surface),
                        selection_client: client_of(old(self).surfaces@, Some(s[t].window.surface)),
                        ..old(self).seat
                    })
                }
                &&& runs && t < 0 ==> {
                    &&& final(self).space.elements@ == s.map_values(|x: Element| x.deactivated())
                    &&& final(self).seat == (Seat {
                        keyboard_focus: None,
                        selection_client: None,
                        ..old(self).seat
                    })
                }
            }),
    {
        if pressed && !self.seat.pointer_grabbed {
            let ghost s = self.space.elements@;
            let ghost t = top_under(s, self.seat.pointer_location, s.len() as int);
            proof { lemma_top_under_range(s, self.seat.pointer_location, s.len() as int); }
            match self.space.element_under(self.seat.pointer_location) {
                Some(e) => {
                    proof {
                        self.space.lemma_unique_pos(e.window.surface, t);
                        crate::space::lemma_raised_index(s, t, true);
                    }
                    self.space.raise_element(e.window.surface, true);
                    self.set_keyboard_focus(Some(e.window.surface));
                },
                None => {
                    self.space.deactivate_all();
                    self.set_keyboard_focus(None);
                },
            }
            let configure = self.window_surfaces();
            ButtonOutcome { serial, focus_changed: true, configure }
        } else {
            ButtonOutcome { serial, focus_changed: false, configure: Vec::new() }
        }
    }

    /// Index of the tracked popup whose surface is `surface`.
    pub fn find_popup(&self, surface: SurfaceId) -> (r: Option<usize>)
        ensures
            match r {
                Some(k) => k < self.popups@.len() && self.popups@[k as int].surface == surface
                    && forall|j: int| 0 <= j < k ==> self.popups@[j].surface != surface,
                None => !tracks_popup(self.popups@, surface),
            },
    {
        let mut k: usize = 0;
        while k < self.popups.len()
            invariant
                k <= self.popups@.len(),
                forall|j: int| 0 <= j < k ==> self.popups@[j].surface != surface,
            decreases self.popups@.len() - k,
        {
            if self.popups[k].surface == surface {
                return Some(k);
            }
            k = k + 1;
        }
        None
    }

    /// A new surface for `client`, with no role, in a reusable slot if there
    /// is one (see `reusable`), else in a new one; `None` when no slot is
    /// reusable and the surface table is full.
    pub fn create_surface(&mut self, client: u64) -> (r: Option<SurfaceId>)
        requires
            old(self).wf(),
        ensures
            final(self).wf(),
            final(self).space == old(self).space,
            final(self).popups == old(self).popups,
            final(self).seat == old(self).seat,
            match r {
                Some(k) => (reusable(old(self).surfaces@, k as int) && final(self).surfaces@ == old(
                    self,
                ).surfaces@.update(k as int, fresh_surface(client))) || ((forall|m: int|
                    !reusable(old(self).surfaces@, m)) && k == old(self).surfaces@.len()
                    && final(self).surfaces@ == old(self).surfaces@.push(fresh_surface(client))),
                None => (forall|m: int| !reusable(old(self).surfaces@, m)) && old(self).surfaces@.len()
                    >= MAX_SURFACES && final(self).surfaces@ == old(self).surfaces@,
            },
    {
        let r = self.surfaces.create_surface(client);
        proof {
            let t0 = old(self).surfaces@;
            assert forall|i: int| 0 <= i < t0.len() && (#[trigger] t0[i]).alive implies self.surfaces@[i] == t0[i] by {
                if let Some(k) = r {
                    if k < t0.len() {
                        assert(reusable(t0, k as int));
                    }
                }
            }
            assert forall|i: int| 0 <= i < self.space.elements@.len() implies {
                let s = (#[trigger] self.space.elements@[i]).window.surface;
                &&& s < self.surfaces@.len()
                &&& self.surfaces@[s as int].role == Role::Toplevel
                &&& self.surfaces@[s as int].alive
            } by {
                let s = self.space.elements@[i].window.surface;
                assert(t0[s as int].alive);
            }
            assert forall|i: int| 0 <= i < self.popups@.len() implies {
                let p = #[trigger] self.popups@[i];
                &&& p.surface < self.surfaces@.len()
                &&& self.surfaces@[p.surface as int].role == Role::Popup
                &&& self.surfaces@[p.surface as int].alive
            } by {
                assert(t0[self.popups@[i].surface as int].alive);
            }
            if let Some(f) = self.seat.keyboard_focus {
                assert(t0[f as int].alive);
            }
            if let Some(f) = self.seat.pointer_focus {
                assert(t0[f as int].alive);
            }
        }
        r
    }

    /// Records an attached buffer as the pending state of `surface`.
    pub fn attach(&mut self, surface: SurfaceId, buffer: Option<u64>, size: Size) -> (r: Result<
        (),
        CompositorError,
    >)
        requires
            old(self).wf(),
            size.wf(),
        ensures
            final(self).wf(),
            final(self).space == old(self).space,
            final(self).popups == old(self).popups,
            final(self).seat == old(self).seat,
            surface < old(self).surfaces@.len() ==> r == Ok::<(), CompositorError>(()) && final(self).surfaces@ == old(self).surfaces@.update(
                surface as int,
                Surface {
                    pending: crate::surface::BufferState { buffer, size },
                    ..old(self).surfaces@[surface as int]
                },
            ),
            surface >= old(self).surfaces@.len() ==> r == Err::<(), CompositorError>(
                CompositorError::NotFound,
            ) && final(self).surfaces == old(self).surfaces,
    {
        if surface >= self.surfaces.surfaces.len() {
            return Err(CompositorError::NotFound);
        }
        self.surfaces.attach(surface, buffer, size);
        Ok(())
    }

    /// Gives `surface` the toplevel role and maps its window at the origin,
    /// not activated. A surface that is unknown, destroyed or has a role
    /// already is a protocol violation.
    pub fn new_toplevel(&mut self, surface: SurfaceId) -> (r: Result<(), CompositorError>)
        requires
            old(self).wf(),
        ensures
            final(self).wf(),
            final(self).popups == old(self).popups,
            final(self).seat == old(self).seat,
            final(self).space.output == old(self).space.output,
            ({
                let ok = surface < old(self).surfaces@.len() && old(self).surfaces@[surface as int].role
                    == Role::Unassigned && old(self).surfaces@[surface as int].alive;
                let s = old(self).surfaces@[surface as int];
                &&& ok ==> r == Ok::<(), CompositorError>(()) && final(self).surfaces@ == old(self).surfaces@.update(surface as int, Surface { role: Role::Toplevel, ..s })
                    && final(self).space.elements@ == old(self).space.elements@.push(
                    Element {
                        window: Window { surface, size: s.current.size, activated: false },
                        loc: Point { x: 0, y: 0 },
                    },
                )
                &&& !ok ==> r == Err::<(), CompositorError>(CompositorError::ProtocolViolation)
                    && final(self).surfaces == old(self).surfaces && final(self).space == old(self).space
            }),
    {
        if surface >= self.surfaces.surfaces.len() {
            return Err(CompositorError::ProtocolViolation);
        }
        let mut s = self.surfaces.surfaces[surface];
        if s.role != Role::Unassigned || !s.alive {
            return Err(CompositorError::ProtocolViolation);
        }
        proof {
            if holds_surface(self.space.elements@, surface) {
                let i = choose|i: int|
                    0 <= i < self.space.elements@.len() && self.space.elements@[i].window.surface
                        == surface;
                assert(self.surfaces@[self.space.elements@[i].window.surface as int].role
                    == Role::Toplevel);
            }
        }
        s.role = Role::Toplevel;
        self.surfaces.replace(surface, s);
        let w = Window { surface, size: s.current.size, activated: false };
        self.space.map_element(w, Point { x: 0, y: 0 }, false);
        assert(forall|i: int|
            0 <= i < old(self).space.elements@.len() ==> #[trigger] self.space.elements@[i]
                == old(self).space.elements@[i]);
        Ok(())
    }

    /// Makes `surface` a subsurface of `parent` at `offset`. Both must be
    /// live surfaces, `surface` must have no role yet, and `parent` must not
    /// be `surface` or lie below it; anything else is a protocol violation.
    pub fn new_subsurface(&mut self, surface: SurfaceId, parent: SurfaceId, offset: Point, sync: bool) -> (r:
        Result<(), CompositorError>)
        requires
            old(self).wf(),
            offset.wf(),
        ensures
            final(self).wf(),
            final(self).popups == old(self).popups,
            final(self).seat == old(self).seat,
            final(self).space == old(self).space,
            ({
                let t = old(self).surfaces@;
                let ok = surface < t.len() && parent < t.len() && t[surface as int].alive
                    && t[parent as int].alive && t[surface as int].role == Role::Unassigned
                    && !reaches(t, old(self).surfaces.depth@, parent as int, surface as int);
                let s = t[surface as int];
                &&& ok ==> r == Ok::<(), CompositorError>(()) && final(self).surfaces@ == t.update(
                    surface as int,
                    Surface { role: Role::Subsurface, parent: Some(parent), offset, sync, ..s },
                )
                &&& !ok ==> r == Err::<(), CompositorError>(CompositorError::ProtocolViolation)
                    && final(self).surfaces@ == old(self).surfaces@
            }),
    {
        if !self.may_adopt(surface, parent) {
            return Err(CompositorError::ProtocolViolation);
        }
        let ghost t0 = self.surfaces@;
        if !self.surfaces.adopt(surface, parent, Role::Subsurface, offset, sync) {
            return Err(CompositorError::ProtocolViolation);
        }
        proof {
            assert(forall|i: int| 0 <= i < t0.len() && i != surface ==> #[trigger] self.surfaces@[i] == t0[i]);
            self.lemma_table_change(t0);
        }
        Ok(())
    }

    /// Whether `surface` and `parent` are live surfaces and `surface` has no
    /// role yet.
    fn may_adopt(&self, surface: SurfaceId, parent: SurfaceId) -> (r: bool)
        requires
            self.wf(),
        ensures
            r == (surface < self.surfaces@.len() && parent < self.surfaces@.len()
                && self.surfaces@[surface as int].alive && self.surfaces@[parent as int].alive
                && self.surfaces@[surface as int].role == Role::Unassigned),
    {
        surface < self.surfaces.surfaces.len() && parent < self.surfaces.surfaces.len()
            && self.surfaces.surfaces[surface].alive && self.surfaces.surfaces[parent].alive
            && self.surfaces.surfaces[surface].role == Role::Unassigned
    }

    /// Windows, popups and focus still name live surfaces of their roles
    /// after a change of the table that keeps every surface's life and, but
    /// for surfaces without a role, every role.
    proof fn lemma_table_change(&self, t0: Seq<Surface>)
        requires
            self.surfaces.wf(),
            self.space.wf(),
            self.seat.pointer_location.wf(),
            self.surfaces@.len() == t0.len(),
            forall|i: int|
                0 <= i < t0.len() ==> (#[trigger] self.surfaces@[i]).alive == t0[i].alive && (
                t0[i].role != Role::Unassigned ==> self.surfaces@[i].role == t0[i].role),
            forall|i: int|
                0 <= i < self.space.elements@.len() ==> {
                    let s = (#[trigger] self.space.elements@[i]).window.surface;
                    &&& s < t0.len()
                    &&& t0[s as int].role == Role::Toplevel
                    &&& t0[s as int].alive
                },
            forall|i: int|
                0 <= i < self.popups@.len() ==> {
                    let p = #[trigger] self.popups@[i];
                    &&& p.surface < t0.len()
                    &&& t0[p.surface as int].role == Role::Popup
                    &&& t0[p.surface as int].alive
                },
            match self.seat.keyboard_focus {
                Some(f) => f < t0.len() && t0[f as int].alive,
                None => true,
            },
            match self.seat.pointer_focus {
                Some(f) => f < t0.len() && t0[f as int].alive,
                None => true,
            },
        ensures
            self.wf(),
    {
        assert forall|i: int| 0 <= i < self.space.elements@.len() implies {
            let s = (#[trigger] self.space.elements@[i]).window.surface;
            &&& s < self.surfaces@.len()
            &&& self.surfaces@[s as int].role == Role::Toplevel
            &&& self.surfaces@[s as int].alive
        } by {
            let s = self.space.elements@[i].window.surface;
            assert(self.surfaces@[s as int].alive == t0[s as int].alive);
        }
        assert forall|i: int| 0 <= i < self.popups@.len() implies {
            let p = #[trigger] self.popups@[i];
            &&& p.surface < self.surfaces@.len()
            &&& self.surfaces@[p.surface as int].role == Role::Popup
            &&& self.surfaces@[p.surface as int].alive
        } by {
            let s = self.popups@[i].surface;
            assert(self.surfaces@[s as int].alive == t0[s as int].alive);
        }
        if let Some(f) = self.seat.keyboard_focus {
            assert(self.surfaces@[f as int].alive == t0[f as int].alive);
        }
        if let Some(f) = self.seat.pointer_focus {
            assert(self.surfaces@[f as int].alive == t0[f as int].alive);
        }
    }

    /// The rectangle that popup `k` must be fitted into, in the coordinate
    /// space of its positioner: the output's rectangle, moved by minus the
    /// popup's anchor offset from its root surface (the offset of its parent
    /// within the root) and minus the root window's position. `None` when
    /// the root is not a mapped window, when no output is mapped, or when the
    /// anchor offset is beyond the coordinate bound: the popup is then inert.
    pub open spec fn target(&self, k: int) -> Option<Rect> {
        target_of(self.surfaces@, self.surfaces.depth@, self.space.elements@, self.space.output, self.popups@[k])
    }

    /// Computes `target` for popup `k`. The caller fits the positioner into
    /// the rectangle and hands the result to `set_popup_geometry`.
    pub fn unconstrain_target(&self, k: usize) -> (r: Option<Rect>)
        requires
            self.wf(),
            k < self.popups@.len(),
        ensures
            r == self.target(k as int),
            match r {
                Some(t) => crate::positioner::target_ok(t),
                None => true,
            },
    {
        let p = self.popups[k];
        let root = self.surfaces.root(p.surface);
        let wi = match self.space.position(root) {
            Some(i) => i,
            None => {
                return None;
            },
        };
        proof {
            self.space.lemma_unique_pos(root, wi as int);
        }
        let o = match self.space.output {
            Some(o) => o,
            None => {
                return None;
            },
        };
        let par = match self.surfaces.surfaces[p.surface].parent {
            Some(q) => q,
            None => {
                return None;
            },
        };
        let a = match self.surfaces.offset_in_root(par) {
            Some(a) => a,
            None => {
                return None;
            },
        };
        let loc = self.space.elements[wi].loc;
        Some(popup_target(o, a, loc))
    }

    /// Stores `geometry` as the rectangle popup `k` is to be configured with.
    pub fn set_popup_geometry(&mut self, k: usize, geometry: Rect)
        requires
            old(self).wf(),
            k < old(self).popups@.len(),
        ensures
            final(self).wf(),
            final(self).surfaces == old(self).surfaces,
            final(self).space == old(self).space,
            final(self).seat == old(self).seat,
            final(self).popups@ == old(self).popups@.update(k as int, Popup { geometry, ..old(self).popups@[k as int] }),
            forall|j: int| 0 <= j < old(self).popups@.len() ==> #[trigger] final(self).target(j) == old(self).target(j),
    {
        let p = self.popups[k];
        self.popups.set(k, Popup { geometry, ..p });
        assert(forall|j: int|
            0 <= j < self.popups@.len() ==> (#[trigger] self.popups@[j]).surface == old(self).popups@[j].surface
                && self.popups@[j].positioner == old(self).popups@[j].positioner);
    }

    /// Gives `surface` the popup role under `parent` and tracks it with
    /// `positioner` and `geometry`, the positioner's placement before any
    /// constraint. Both must be live surfaces, `surface` must have no role
    /// yet, and `parent` must not be `surface` or lie below it; anything else
    /// is a protocol violation.
    pub fn new_popup(&mut self, surface: SurfaceId, parent: SurfaceId, positioner: Positioner, geometry: Rect) -> (r:
        Result<(), CompositorError>)
        requires
            old(self).wf(),
        ensures
            final(self).wf(),
            final(self).seat == old(self).seat,
            final(self).space == old(self).space,
            ({
                let t = old(self).surfaces@;
                let ok = surface < t.len() && parent < t.len() && t[surface as int].alive
                    && t[parent as int].alive && t[surface as int].role == Role::Unassigned
                    && !reaches(t, old(self).surfaces.depth@, parent as int, surface as int);
                let s = t[surface as int];
                &&& ok ==> {
                    &&& r == Ok::<(), CompositorError>(())
                    &&& final(self).surfaces@ == old(self).surfaces@.update(
                        surface as int,
                        Surface {
                            role: Role::Popup,
                            parent: Some(parent),
                            offset: Point { x: 0, y: 0 },
                            sync: false,
                            ..s
                        },
                    )
                    &&& final(self).popups@ == old(self).popups@.push(Popup { surface, positioner, geometry })
                }
                &&& !ok ==> r == Err::<(), CompositorError>(CompositorError::ProtocolViolation)
                    && final(self).surfaces@ == old(self).surfaces@ && final(self).popups == old(self).popups
            }),
    {
        if !self.may_adopt(surface, parent) {
            return Err(CompositorError::ProtocolViolation);
        }
        let ghost t0 = self.surfaces@;
        if !self.surfaces.adopt(surface, parent, Role::Popup, Point { x: 0, y: 0 }, false) {
            return Err(CompositorError::ProtocolViolation);
        }
        proof {
            assert(forall|i: int| 0 <= i < t0.len() && i != surface ==> #[trigger] self.surfaces@[i] == t0[i]);
            self.lemma_table_change(t0);
        }
        let ghost p0 = self.popups@;
        self.popups.push(Popup { surface, positioner, geometry });
        proof {
            assert forall|i: int| 0 <= i < self.popups@.len() implies {
                let p = #[trigger] self.popups@[i];
                &&& p.surface < self.surfaces@.len()
                &&& self.surfaces@[p.surface as int].role == Role::Popup
                &&& self.surfaces@[p.surface as int].alive
            } by {
                if i < p0.len() {
                    assert(self.popups@[i] == p0[i]);
                }
            }
        }
        Ok(())
    }

    /// A client asked to move popup `surface` with a new positioner: the
    /// popup takes it, with `geometry`, its placement before any constraint,
    /// and returns its index for the caller to fit it again. An untracked
    /// surface is not found.
    pub fn reposition_request(&mut self, surface: SurfaceId, positioner: Positioner, geometry: Rect) -> (r: Result<
        usize,
        CompositorError,
    >)
        requires
            old(self).wf(),
        ensures
            final(self).wf(),
            final(self).seat == old(self).seat,
            final(self).space == old(self).space,
            final(self).surfaces == old(self).surfaces,
            !tracks_popup(old(self).popups@, surface) ==> r == Err::<usize, CompositorError>(
                CompositorError::NotFound,
            ) && final(self).popups == old(self).popups,
            tracks_popup(old(self).popups@, surface) ==> match r {
                Ok(k) => k < old(self).popups@.len() && old(self).popups@[k as int].surface == surface
                    && final(self).popups@ == old(self).popups@.update(k as int, Popup { surface, positioner, geometry }),
                Err(_) => false,
            },
    {
        let k = match self.find_popup(surface) {
            Some(k) => k,
            None => {
                return Err(CompositorError::NotFound);
            },
        };
        self.popups.set(k, Popup { surface, positioner, geometry });
        Ok(k)
    }

    /// Handles a client's commit of `surface`.
    ///
    /// The first commit of a mapped window's root surface sends the
    /// toplevel's initial configure and promotes nothing. Any other commit
    /// applies the pending state (see `committed`). Unless the surface waits
    /// for its parent, its window, if its root is mapped, takes the root's
    /// current size and is marked dirty. A tracked popup moves to its stored
    /// geometry, when that is within the coordinate bound, and is sent its
    /// initial configure on its first commit. An unknown surface is ignored.
    #[verifier::rlimit(60)]
    pub fn on_commit(&mut self, surface: SurfaceId) -> (r: CommitOutcome)
        requires
            old(self).wf(),
        ensures
            final(self).wf(),
            final(self).seat == old(self).seat,
            final(self).popups == old(self).popups,
            final(self).space.output == old(self).space.output,
            final(self).surfaces.depth == old(self).surfaces.depth,
            surface >= old(self).surfaces@.len() ==> r == (CommitOutcome {
                configure_toplevel: false,
                configure_popup: false,
                dirty_window: None,
            }) && final(self).surfaces == old(self).surfaces && final(self).space == old(self).space,
            surface < old(self).surfaces@.len() ==> {
                let t0 = old(self).surfaces@;
                let t = final(self).surfaces@;
                let s0 = t0[surface as int];
                let gate = holds_surface(old(self).space.elements@, surface)
                    && !s0.initial_configure_sent;
                let d = old(self).surfaces.depth@;
                let mid = if gate { t0 } else { committed(t0, d, surface as int) };
                let popup = tracks_popup(old(self).popups@, surface);
                let root = root_of(t0, d, surface as int);
                &&& r.configure_toplevel == gate
                &&& r.configure_popup == (popup && !s0.initial_configure_sent)
                &&& t.len() == t0.len()
                &&& forall|j: int| 0 <= j < t.len() && j != surface ==> t[j] == mid[j]
                &&& t[surface as int].current == mid[surface as int].current
                &&& t[surface as int].role == s0.role
                &&& t[surface as int].parent == s0.parent
                &&& t[surface as int].initial_configure_sent == (s0.initial_configure_sent || gate || popup)
                &&& !popup ==> t[surface as int].offset == s0.offset
                &&& forall|k: int|
                    0 <= k < old(self).popups@.len() && old(self).popups@[k].surface == surface && (forall|j: int|
                        0 <= j < k ==> old(self).popups@[j].surface != surface) ==> {
                        let g = (#[trigger] old(self).popups@[k]).geometry;
                        t[surface as int].offset == if coord_ok(g.x as int) && coord_ok(g.y as int) {
                            Point { x: g.x, y: g.y }
                        } else {
                            s0.offset
                        }
                    }
                &&& r.dirty_window == if !effectively_sync(t0, d, surface as int) && holds_surface(
                    old(self).space.elements@,
                    root as usize,
                ) {
                    Some(root as usize)
                } else {
                    None::<SurfaceId>
                }
                &&& match r.dirty_window {
                    Some(w) => {
                        let i = old(self).space.position_spec(w).unwrap();
                        final(self).space.elements@ == old(self).space.elements@.update(
                            i,
                            Element {
                                window: Window { size: t[w as int].current.size, ..old(self).space.elements@[i].window },
                                ..old(self).space.elements@[i]
                            },
                        )
                    },
                    None => final(self).space == old(self).space,
                }
            },
    {
        let none = CommitOutcome { configure_toplevel: false, configure_popup: false, dirty_window: None };
        if surface >= self.surfaces.surfaces.len() {
            return none;
        }
        let ghost t0 = self.surfaces@;
        let is_window = self.space.position(surface).is_some();
        let s = self.surfaces.surfaces[surface];
        let gate = is_window && !s.initial_configure_sent;
        if gate {
            let mut s1 = s;
            s1.initial_configure_sent = true;
            self.surfaces.replace(surface, s1);
        } else {
            self.surfaces.apply_commit(surface);
        }
        let ghost t1 = self.surfaces@;
        assert(forall|j: int| 0 <= j < t1.len() ==> (#[trigger] t1[j]).role == t0[j].role && t1[j].parent == t0[j].parent && t1[j].sync == t0[j].sync);
        proof { lemma_tree_same(t0, t1, self.surfaces.depth@, surface as int); }
        let mut dirty: Option<SurfaceId> = None;
        if !self.surfaces.is_sync(surface) {
            let root = self.surfaces.root(surface);
            match self.space.position(root) {
                Some(i) => {
                    proof { self.space.lemma_unique_pos(root, i as int); }
                    let size = self.surfaces.surfaces[root].current.size;
                    self.space.set_window_size(i, size);
                    dirty = Some(root);
                },
                None => {},
            }
        }
        let mut configure_popup = false;
        match self.find_popup(surface) {
            Some(k) => {
                let p = self.popups[k];
                let mut s2 = self.surfaces.surfaces[surface];
                if !s2.initial_configure_sent {
                    s2.initial_configure_sent = true;
                    configure_popup = true;
                }
                let loc = p.geometry.loc();
                if -COORD_MAX <= loc.x && loc.x <= COORD_MAX && -COORD_MAX <= loc.y && loc.y <= COORD_MAX {
                    s2.offset = loc;
                }
                self.surfaces.replace(surface, s2);
            },
            None => {},
        }
        proof {
            assert forall|i: int| 0 <= i < self.space.elements@.len() implies {
                let s = (#[trigger] self.space.elements@[i]).window.surface;
                &&& s < self.surfaces@.len()
                &&& self.surfaces@[s as int].role == Role::Toplevel
                &&& self.surfaces@[s as int].alive
            } by {
                assert(old(self).space.elements@[i].window.surface == self.space.elements@[i].window.surface);
                let s = self.space.elements@[i].window.surface;
                assert(old(self).surfaces@[s as int].role == Role::Toplevel);
            }
            assert forall|i: int| 0 <= i < self.popups@.len() implies {
                let p = #[trigger] self.popups@[i];
                &&& p.surface < self.surfaces@.len()
                &&& self.surfaces@[p.surface as int].role == Role::Popup
                &&& self.surfaces@[p.surface as int].alive
            } by {
                assert(old(self).surfaces@[self.popups@[i].surface as int].role == Role::Popup);
            }
            if let Some(f) = self.seat.keyboard_focus {
                assert(old(self).surfaces@[f as int].alive);
            }
            if let Some(f) = self.seat.pointer_focus {
                assert(old(self).surfaces@[f as int].alive);
            }
        }
        CommitOutcome { configure_toplevel: gate, configure_popup, dirty_window: dirty }
    }

    /// The surface under `pos`: in the topmost window whose rectangle holds
    /// `pos`, the last-painted live surface of its tree whose rectangle holds
    /// it, with `pos` in that surface's own coordinates.
    pub open spec fn surface_under_spec(&self, pos: Point) -> Option<SurfaceHit> {
        let s = self.space.elements@;
        let t = self.surfaces@;
        let d = self.surfaces.depth@;
        let w = top_under(s, pos, s.len() as int);
        if w < 0 {
            None
        } else {
            let e = s[w];
            let lx = pos.x - e.loc.x;
            let ly = pos.y - e.loc.y;
            let h = top_surface_hit(t, d, e.window.surface as int, lx, ly, t.len() as int);
            if h < 0 {
                None
            } else {
                let o = root_offset(t, d, h).unwrap();
                Some(
                    SurfaceHit {
                        surface: h as usize,
                        local: Point { x: (lx - o.0) as i32, y: (ly - o.1) as i32 },
                    },
                )
            }
        }
    }

    /// Finds the surface under `pos`; see `surface_under_spec`.
    pub fn surface_under(&self, pos: Point) -> (r: Option<SurfaceHit>)
        requires
            self.wf(),
            pos.wf(),
        ensures
            r == self.surface_under_spec(pos),
            match r {
                Some(h) => h.surface < self.surfaces@.len() && self.surfaces@[h.surface as int].alive,
                None => true,
            },
    {
        proof {
            lemma_top_under_range(self.space.elements@, pos, self.space.elements@.len() as int);
        }
        let e = match self.space.element_under(pos) {
            Some(e) => e,
            None => {
                return None;
            },
        };
        let ghost w = top_under(self.space.elements@, pos, self.space.elements@.len() as int);
        assert(self.space.elements@[w].wf());
        let lx: i64 = pos.x as i64 - e.loc.x as i64;
        let ly: i64 = pos.y as i64 - e.loc.y as i64;
        let root = e.window.surface;
        let ghost t = self.surfaces@;
        let mut j: usize = self.surfaces.surfaces.len();
        while j > 0
            invariant
                self.wf(),
                t == self.surfaces@,
                j <= t.len(),
                0 <= w < self.space.elements@.len(),
                e == self.space.elements@[w],
                w == top_under(self.space.elements@, pos, self.space.elements@.len() as int),
                root == e.window.surface,
                lx == pos.x - e.loc.x,
                ly == pos.y - e.loc.y,
                top_surface_hit(t, self.surfaces.depth@, root as int, lx as int, ly as int, t.len() as int)
                    == top_surface_hit(t, self.surfaces.depth@, root as int, lx as int, ly as int, j as int),
                -2 * COORD_MAX <= lx <= 2 * COORD_MAX,
                -2 * COORD_MAX <= ly <= 2 * COORD_MAX,
            decreases j,
        {
            let k = j - 1;
            let s = self.surfaces.surfaces[k];
            assert(s == t[k as int]);
            if s.alive && self.surfaces.root(k) == root {
                match self.surfaces.offset_in_root(k) {
                    Some(o) => {
                        if o.x as i64 <= lx && lx < o.x as i64 + s.current.size.w as i64 && o.y as i64
                            <= ly && ly < o.y as i64 + s.current.size.h as i64 {
                            return Some(
                                SurfaceHit {
                                    surface: k,
                                    local: Point {
                                        x: (lx - o.x as i64) as i32,
                                        y: (ly - o.y as i64) as i32,
                                    },
                                },
                            );
                        }
                    },
                    None => {},
                }
            }
            j = k;
        }
        None
    }

    /// Absolute pointer motion: `nx` and `ny` run from 0 to `NORMALIZED_ONE`
    /// across the output. The pointer moves there, and its focus becomes the
    /// surface under it, or none. Without an output nothing happens.
    pub fn pointer_motion_absolute(&mut self, nx: u32, ny: u32, serial: u32) -> (r: Result<MotionOutcome, CompositorError>)
        requires
            old(self).wf(),
            nx <= 65536,
            ny <= 65536,
        ensures
            final(self).wf(),
            final(self).surfaces == old(self).surfaces,
            final(self).space == old(self).space,
            final(self).popups == old(self).popups,
            match old(self).space.output {
                None => r == Err::<MotionOutcome, CompositorError>(CompositorError::NotFound)
                    && final(self).seat == old(self).seat,
                Some(o) => {
                    let loc = absolute_position_spec(o, nx, ny);
                    let under = old(self).surface_under_spec(loc);
                    &&& r == Ok::<MotionOutcome, CompositorError>(MotionOutcome { location: loc, under, serial })
                    &&& final(self).seat == (Seat {
                        pointer_location: loc,
                        pointer_focus: match under {
                            Some(u) => Some(u.surface),
                            None => None,
                        },
                        ..old(self).seat
                    })
                },
            },
    {
        let o = match self.space.output {
            Some(o) => o,
            None => {
                return Err(CompositorError::NotFound);
            },
        };
        let location = absolute_position(o, nx, ny);
        let under = self.surface_under(location);
        self.seat.pointer_location = location;
        self.seat.pointer_focus = match under {
            Some(u) => Some(u.surface),
            None => None,
        };
        Ok(MotionOutcome { location, under, serial })
    }

    /// A key event, already resolved to a keysym, with its serial. The
    /// filter may keep it, else it goes to the focused surface, if any.
    pub fn keyboard_key(&mut self, keysym: u32, pressed: bool, ctrl: bool, serial: u32) -> (r: KeyOutcome)
        requires
            old(self).wf(),
        ensures
            final(self).wf(),
            final(self).surfaces == old(self).surfaces,
            final(self).space == old(self).space,
            final(self).popups == old(self).popups,
            r.serial == serial,
            final(self).seat == old(self).seat,
            r.filter == (if keysym == KEY_T && pressed && ctrl {
                FilterResult::Intercept
            } else {
                FilterResult::Forward
            }),
            r.deliver_to == (if r.filter == FilterResult::Forward {
                old(self).seat.keyboard_focus
            } else {
                None
            }),
    {
        let filter = key_filter(keysym, pressed, ctrl);
        let deliver_to = match filter {
            FilterResult::Forward => self.seat.keyboard_focus,
            FilterResult::Intercept => None,
        };
        KeyOutcome { serial, filter, deliver_to }
    }

    /// The output now has rectangle `geo`, from now on the bound for hit
    /// testing and for popup targets. Returns each tracked popup's new target
    /// rectangle (see `target`), for the caller to fit every popup again.
    pub fn on_resize(&mut self, geo: Rect) -> (r: Vec<Option<Rect>>)
        requires
            old(self).wf(),
            geo.wf(),
        ensures
            final(self).wf(),
            final(self).surfaces == old(self).surfaces,
            final(self).seat == old(self).seat,
            final(self).popups == old(self).popups,
            final(self).space.elements@ == old(self).space.elements@,
            final(self).space.output == Some(geo),
            r@.len() == final(self).popups@.len(),
            forall|k: int| 0 <= k < r@.len() ==> #[trigger] r@[k] == final(self).target(k),
    {
        self.space.map_output(geo);
        let mut r: Vec<Option<Rect>> = Vec::new();
        let mut k: usize = 0;
        while k < self.popups.len()
            invariant
                self.wf(),
                k <= self.popups@.len(),
                r@.len() == k,
                forall|j: int| 0 <= j < k ==> #[trigger] r@[j] == self.target(j),
            decreases self.popups@.len() - k,
        {
            r.push(self.unconstrain_target(k));
            k = k + 1;
        }
        r
    }

    /// Sets whether subsurface `surface` waits for its parent's commits. A
    /// surface that is unknown or not a subsurface is not found.
    pub fn set_subsurface_sync(&mut self, surface: SurfaceId, sync: bool) -> (r: Result<(), CompositorError>)
        requires
            old(self).wf(),
        ensures
            final(self).wf(),
            final(self).space == old(self).space,
            final(self).popups == old(self).popups,
            final(self).seat == old(self).seat,
            final(self).surfaces.depth == old(self).surfaces.depth,
            ({
                let ok = surface < old(self).surfaces@.len() && old(self).surfaces@[surface as int].role
                    == Role::Subsurface;
                &&& ok ==> r == Ok::<(), CompositorError>(()) && final(self).surfaces@ == old(self).surfaces@.update(
                    surface as int,
                    Surface { sync, ..old(self).surfaces@[surface as int] },
                )
                &&& !ok ==> r == Err::<(), CompositorError>(CompositorError::NotFound) && final(self).surfaces@
                    == old(self).surfaces@
            }),
    {
        if surface >= self.surfaces.surfaces.len() || self.surfaces.surfaces[surface].role != Role::Subsurface {
            return Err(CompositorError::NotFound);
        }
        let ghost t0 = self.surfaces@;
        let mut s = self.surfaces.surfaces[surface];
        s.sync = sync;
        self.surfaces.replace(surface, s);
        proof {
            assert(forall|i: int| 0 <= i < t0.len() && i != surface ==> #[trigger] self.surfaces@[i] == t0[i]);
            self.lemma_table_change(t0);
        }
        Ok(())
    }

    /// Moves subsurface `surface` to `offset` within its parent. A surface
    /// that is unknown or not a subsurface is not found.
    pub fn set_subsurface_position(&mut self, surface: SurfaceId, offset: Point) -> (r: Result<(), CompositorError>)
        requires
            old(self).wf(),
            offset.wf(),
        ensures
            final(self).wf(),
            final(self).space == old(self).space,
            final(self).popups == old(self).popups,
            final(self).seat == old(self).seat,
            final(self).surfaces.depth == old(self).surfaces.depth,
            ({
                let ok = surface < old(self).surfaces@.len() && old(self).surfaces@[surface as int].role
                    == Role::Subsurface;
                &&& ok ==> r == Ok::<(), CompositorError>(()) && final(self).surfaces@ == old(self).surfaces@.update(
                    surface as int,
                    Surface { offset, ..old(self).surfaces@[surface as int] },
                )
                &&& !ok ==> r == Err::<(), CompositorError>(CompositorError::NotFound) && final(self).surfaces@
                    == old(self).surfaces@
            }),
    {
        if surface >= self.surfaces.surfaces.len() || self.surfaces.surfaces[surface].role != Role::Subsurface {
            return Err(CompositorError::NotFound);
        }
        let ghost t0 = self.surfaces@;
        let mut s = self.surfaces.surfaces[surface];
        s.offset = offset;
        self.surfaces.replace(surface, s);
        proof {
            assert(forall|i: int| 0 <= i < t0.len() && i != surface ==> #[trigger] self.surfaces@[i] == t0[i]);
            self.lemma_table_change(t0);
        }
        Ok(())
    }

    /// The client destroyed `surface`: it is marked dead, its window, if any,
    /// is unmapped, it is no longer tracked as a popup, and keyboard and
    /// pointer focus on it are cleared.
    pub fn destroy_surface(&mut self, surface: SurfaceId) -> (r: Result<(), CompositorError>)
        requires
            old(self).wf(),
        ensures
            final(self).wf(),
            final(self).surfaces.depth == old(self).surfaces.depth,
            surface >= old(self).surfaces@.len() ==> r == Err::<(), CompositorError>(CompositorError::NotFound)
                && final(self).surfaces == old(self).surfaces && final(self).space == old(self).space
                && final(self).seat == old(self).seat && final(self).popups == old(self).popups,
            surface < old(self).surfaces@.len() ==> {
                &&& r == Ok::<(), CompositorError>(())
                &&& final(self).popups@ == old(self).popups@.filter(|p: Popup| p.surface != surface)
                &&& final(self).surfaces@ == old(self).surfaces@.update(
                    surface as int,
                    Surface { alive: false, ..old(self).surfaces@[surface as int] },
                )
                &&& !holds_surface(final(self).space.elements@, surface)
                &&& final(self).space.elements@ == match old(self).space.position_spec(surface) {
                    Some(i) => old(self).space.elements@.remove(i),
                    None => old(self).space.elements@,
                }
                &&& final(self).space.output == old(self).space.output
                &&& final(self).seat.keyboard_focus == if old(self).seat.keyboard_focus == Some(surface) {
                    None
                } else {
                    old(self).seat.keyboard_focus
                }
                &&& old(self).seat.keyboard_focus == Some(surface) ==> final(self).seat.selection_client == None::<u64>
                &&& old(self).seat.keyboard_focus != Some(surface) ==> final(self).seat.selection_client == old(self).seat.selection_client
                &&& final(self).seat.pointer_focus == if old(self).seat.pointer_focus == Some(surface) {
                    None
                } else {
                    old(self).seat.pointer_focus
                }
            },
    {
        if surface >= self.surfaces.surfaces.len() {
            return Err(CompositorError::NotFound);
        }
        let ghost t0 = self.surfaces@;
        self.surfaces.destroy(surface);
        let ghost s0 = self.space.elements@;
        self.space.unmap_element(surface);
        if self.seat.keyboard_focus == Some(surface) {
            self.seat.keyboard_focus = None;
            self.seat.selection_client = None;
        }
        if self.seat.pointer_focus == Some(surface) {
            self.seat.pointer_focus = None;
        }
        let ghost p0 = self.popups@;
        let ghost keep = |p: Popup| p.surface != surface;
        let mut kept: Vec<Popup> = Vec::new();
        let mut k: usize = 0;
        while k < self.popups.len()
            invariant
                self.popups@ == p0,
                p0 == old(self).popups@,
                t0 == old(self).surfaces@,
                keep == (|p: Popup| p.surface != surface),
                old(self).wf(),
                k <= p0.len(),
                kept@ == p0.take(k as int).filter(keep),
                forall|j: int| 0 <= j < kept@.len() ==> {
                    let p = #[trigger] kept@[j];
                    &&& p.surface != surface
                    &&& p.surface < t0.len()
                    &&& t0[p.surface as int].role == Role::Popup
                    &&& t0[p.surface as int].alive
                },
            decreases p0.len() - k,
        {
            let p = self.popups[k];
            proof {
                reveal(Seq::filter);
                assert(p0.take(k + 1).drop_last() =~= p0.take(k as int));
                assert(p0.take(k + 1).last() == p);
            }
            if p.surface != surface {
                kept.push(p);
            }
            k = k + 1;
        }
        assert(p0.take(p0.len() as int) =~= p0);
        self.popups = kept;
        proof {
            assert forall|i: int| 0 <= i < self.space.elements@.len() implies {
                let s = (#[trigger] self.space.elements@[i]).window.surface;
                &&& s < self.surfaces@.len()
                &&& self.surfaces@[s as int].role == Role::Toplevel
                &&& self.surfaces@[s as int].alive
            } by {
                let j = match old(self).space.position_spec(surface) {
                    Some(p) => if i < p { i } else { i + 1 },
                    None => i,
                };
                assert(self.space.elements@[i] == s0[j]);
                assert(s0[j].window.surface != surface);
            }
        }
        Ok(())
    }

    /// End of a presented frame: returns the windows, bottom first, that are
    /// to be sent their frame-done callback, then drops every popup that
    /// `popup_alive` no longer keeps.
    pub fn redraw_tick(&mut self) -> (r: Vec<SurfaceId>)
        requires
            old(self).wf(),
        ensures
            final(self).wf(),
            r@ == surfaces(old(self).space.elements@),
            final(self).surfaces == old(self).surfaces,
            final(self).space == old(self).space,
            final(self).seat == old(self).seat,
            final(self).popups@ == old(self).popups@.filter(
                |p: Popup| popup_alive(old(self).surfaces@, old(self).surfaces.depth@, old(self).space.elements@, p),
            ),
    {
        let frames = self.window_surfaces();
        let ghost t = self.surfaces@;
        let ghost s = self.space.elements@;
        let ghost keep = |p: Popup| popup_alive(t, self.surfaces.depth@, s, p);
        let ghost p0 = self.popups@;
        let mut kept: Vec<Popup> = Vec::new();
        let mut k: usize = 0;
        while k < self.popups.len()
            invariant
                self.wf(),
                self.popups@ == p0,
                t == self.surfaces@,
                s == self.space.elements@,
                keep == (|p: Popup| popup_alive(t, self.surfaces.depth@, s, p)),
                k <= p0.len(),
                kept@ == p0.take(k as int).filter(keep),
                forall|j: int| 0 <= j < kept@.len() ==> {
                    let p = #[trigger] kept@[j];
                    &&& p.surface < t.len()
                    &&& t[p.surface as int].role == Role::Popup
                },
            decreases p0.len() - k,
        {
            let p = self.popups[k];
            let ps = p.surface;
            let live = self.surfaces.surfaces[ps].alive && match self.surfaces.surfaces[ps].parent {
                Some(q) => q < self.surfaces.surfaces.len() && self.surfaces.surfaces[q].alive,
                None => false,
            } && {
                let root = self.surfaces.root(ps);
                self.space.position(root).is_some()
            };
            proof {
                reveal(Seq::filter);
                assert(p0.take(k + 1).drop_last() =~= p0.take(k as int));
                assert(p0.take(k + 1).last() == p);
            }
            if live {
                kept.push(p);
            }
            k = k + 1;
        }
        assert(p0.take(p0.len() as int) =~= p0);
        self.popups = kept;
        frames
    }

    /// The root surfaces of all mapped windows, bottom first.
    pub fn window_surfaces(&self) -> (r: Vec<SurfaceId>)
        ensures
            r@ == surfaces(self.space.elements@),
    {
        let mut r: Vec<SurfaceId> = Vec::new();
        let mut i: usize = 0;
        while i < self.space.elements.len()
            invariant
                i <= self.space.elements@.len(),
                r@ == surfaces(self.space.elements@.take(i as int)),
            decreases self.space.elements@.len() - i,
        {
            r.push(self.space.elements[i].window.surface);
            i = i + 1;
            assert(surfaces(self.space.elements@.take(i as int)) =~= surfaces(
                self.space.elements@.take(i - 1),
            ).push(self.space.elements@[i - 1].window.surface));
        }
        assert(self.space.elements@.take(i as int) =~= self.space.elements@);
        r
    }
}

} // verus!
