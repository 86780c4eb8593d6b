use vstd::prelude::*;

use crate::geometry::{Point, Rect, Size};

verus! {

/// Identity of a surface: its index in the surface table.
pub type SurfaceId = usize;

/// A toplevel window, known by its root surface.
#[derive(Clone, Copy, Debug, PartialEq, Eq, Structural)]
pub struct Window {
    pub surface: SurfaceId,
    pub size: Size,
    pub activated: bool,
}

/// A mapped window and the position of its top-left corner on screen.
#[derive(Clone, Copy, Debug, PartialEq, Eq, Structural)]
pub struct Element {
    pub window: Window,
    pub loc: Point,
}

/// A lookup named a window or an output that is not mapped.
#[derive(Clone, Copy, Debug, PartialEq, Eq, Structural)]
pub enum LookupError {
    NotFound,
}

impl Element {
    /// The window's rectangle on screen.
    pub fn geometry(&self) -> (r: Rect)
        ensures
            r == self.geometry_spec(),
    {
        Rect { x: self.loc.x, y: self.loc.y, w: self.window.size.w, h: self.window.size.h }
    }

    /// The window's rectangle on screen.
    pub open spec fn geometry_spec(self) -> Rect {
        Rect { x: self.loc.x, y: self.loc.y, w: self.window.size.w, h: self.window.size.h }
    }

    pub open spec fn wf(self) -> bool {
        self.loc.wf() && self.window.size.wf()
    }

    /// The same element with its window no longer activated.
    pub open spec fn deactivated(self) -> Element {
        Element { window: Window { activated: false, ..self.window }, ..self }
    }

    /// The same element with its window activated.
    pub open spec fn activated(self) -> Element {
        Element { window: Window { activated: true, ..self.window }, ..self }
    }
}

/// No two elements share a root surface.
pub open spec fn unique_surfaces(s: Seq<Element>) -> bool {
    forall|i: int, j: int|
        0 <= i < s.len() && 0 <= j < s.len() && i != j ==> s[i].window.surface
            != s[j].window.surface
}

/// Whether some element has `surface` as its root surface.
pub open spec fn holds_surface(s: Seq<Element>, surface: SurfaceId) -> bool {
    exists|i: int| 0 <= i < s.len() && s[i].window.surface == surface
}

/// Index of the element with root surface `surface`, if any.
pub open spec fn position_in(s: Seq<Element>, surface: SurfaceId) -> Option<int> {
    if holds_surface(s, surface) {
        Some(choose|i: int| 0 <= i < s.len() && s[i].window.surface == surface)
    } else {
        None
    }
}

/// The root surfaces in stack order, bottom first.
pub open spec fn surfaces(s: Seq<Element>) -> Seq<SurfaceId> {
    s.map_values(|e: Element| e.window.surface)
}

/// `e` put on top of `s`; with `activate`, `e` becomes the one activated window.
pub open spec fn pushed(s: Seq<Element>, e: Element, activate: bool) -> Seq<Element> {
    if activate {
        s.map_values(|x: Element| x.deactivated()).push(e.activated())
    } else {
        s.push(e)
    }
}

/// The stack after raising the element at index `i`.
pub open spec fn raised_at(s: Seq<Element>, i: int, activate: bool) -> Seq<Element> {
    pushed(s.remove(i), s[i], activate)
}

/// Index of the topmost element whose rectangle contains `p`, among the first
/// `n` elements, or -1 when none does.
pub open spec fn top_under(s: Seq<Element>, p: Point, n: int) -> int
    decreases n,
{
    if n <= 0 {
        -1
    } else if s[n - 1].geometry_spec().contains_spec(p) {
        n - 1
    } else {
        top_under(s, p, n - 1)
    }
}

/// The window stack: mapped windows in paint order (last is topmost), and the
/// single output's rectangle once an output is mapped.
pub struct Space {
    pub elements: Vec<Element>,
    pub output: Option<Rect>,
}

impl Space {
    /// Windows appear once each, every position and size is bounded, and so is
    /// the output.
    pub open spec fn wf(&self) -> bool {
        &&& unique_surfaces(self.elements@)
        &&& forall|i: int| 0 <= i < self.elements@.len() ==> (#[trigger] self.elements@[i]).wf()
        &&& match self.output {
            Some(o) => o.wf(),
            None => true,
        }
    }

    pub fn new() -> (r: Space)
        ensures
            r.wf(),
            r.elements@ == Seq::<Element>::empty(),
            r.output == None::<Rect>,
    {
        Space { elements: Vec::new(), output: None }
    }

    /// Index of the element whose root surface is `surface`.
    pub fn position(&self, surface: SurfaceId) -> (r: Option<usize>)
        ensures
            match r {
                Some(i) => i < self.elements@.len() && self.elements@[i as int].window.surface
                    == surface,
                None => !holds_surface(self.elements@, surface),
            },
    {
        let mut i: usize = 0;
        while i < self.elements.len()
            invariant
                i <= self.elements@.len(),
                forall|k: int| 0 <= k < i ==> self.elements@[k].window.surface != surface,
            decreases self.elements@.len() - i,
        {
            if self.elements[i].window.surface == surface {
                return Some(i);
            }
            i = i + 1;
        }
        None
    }

    /// Puts `e`, whose surface is not in the stack, on top; with `activate`
    /// it becomes the activated window and every other window is deactivated.
    fn insert_element(&mut self, e: Element, activate: bool)
        requires
            old(self).wf(),
            e.wf(),
            !holds_surface(old(self).elements@, e.window.surface),
        ensures
            final(self).wf(),
            final(self).output == old(self).output,
            final(self).elements@ == pushed(old(self).elements@, e, activate),
    {
        let ghost s0 = self.elements@;
        if activate {
            let mut i: usize = 0;
            while i < self.elements.len()
                invariant
                    i <= self.elements@.len(),
                    self.elements@.len() == s0.len(),
                    self.output == old(self).output,
                    s0 == old(self).elements@,
                    forall|k: int| 0 <= k < i ==> self.elements@[k] == s0[k].deactivated(),
                    forall|k: int| i <= k < s0.len() ==> self.elements@[k] == s0[k],
                decreases self.elements@.len() - i,
            {
                let mut x = self.elements[i];
                x.window.activated = false;
                self.elements.set(i, x);
                i = i + 1;
            }
            let mut top = e;
            top.window.activated = true;
            self.elements.push(top);
            assert(self.elements@ =~= pushed(s0, e, activate));
        } else {
            self.elements.push(e);
        }
        assert(forall|i: int|
            0 <= i < s0.len() ==> #[trigger] self.elements@[i].window.surface == s0[i].window.surface
                && self.elements@[i].wf());
        assert(self.elements@[s0.len() as int].window.surface == e.window.surface);
        assert(unique_surfaces(self.elements@)) by {
            assert forall|i: int, j: int|
                0 <= i < self.elements@.len() && 0 <= j < self.elements@.len() && i
                    != j implies self.elements@[i].window.surface
                    != self.elements@[j].window.surface by {
                if i == s0.len() {
                    assert(s0[j].window.surface == self.elements@[j].window.surface);
                } else if j == s0.len() {
                    assert(s0[i].window.surface == self.elements@[i].window.surface);
                }
            }
        }
    }

    /// Maps `window` at `loc` on top of the stack. A window that was mapped
    /// already leaves its old place first. With `activate` it becomes the
    /// activated window and every other window is deactivated.
    pub fn map_element(&mut self, window: Window, loc: Point, activate: bool)
        requires
            old(self).wf(),
            loc.wf(),
            window.size.wf(),
        ensures
            final(self).wf(),
            final(self).output == old(self).output,
            ({
                let e = Element { window, loc };
                let s = old(self).elements@;
                match old(self).position_spec(window.surface) {
                    Some(i) => final(self).elements@ == pushed(s.remove(i), e, activate),
                    None => final(self).elements@ == pushed(s, e, activate),
                }
            }),
    {
        let e = Element { window, loc };
        match self.position(window.surface) {
            Some(i) => {
                proof { self.lemma_unique_pos(window.surface, i as int); }
                let ghost s0 = self.elements@;
                self.elements.remove(i);
                assert(self.elements@ =~= s0.remove(i as int));
                self.insert_element(e, activate);
            },
            None => {
                self.insert_element(e, activate);
            },
        }
    }

    /// Moves the window whose root surface is `surface` to the top, keeping
    /// the order of all others. Does nothing when it is not mapped.
    pub fn raise_element(&mut self, surface: SurfaceId, activate: bool)
        requires
            old(self).wf(),
        ensures
            final(self).wf(),
            final(self).output == old(self).output,
            match old(self).position_spec(surface) {
                Some(i) => final(self).elements@ == raised_at(old(self).elements@, i, activate),
                None => final(self).elements@ == old(self).elements@,
            },
    {
        match self.position(surface) {
            Some(i) => {
                proof { self.lemma_unique_pos(surface, i as int); }
                let ghost s0 = self.elements@;
                let e = self.elements.remove(i);
                assert(self.elements@ =~= s0.remove(i as int));
                self.insert_element(e, activate);
            },
            None => {},
        }
    }

    /// The topmost mapped window whose rectangle contains `p`, searched from
    /// the top of the stack down.
    pub fn element_under(&self, p: Point) -> (r: Option<Element>)
        ensures
            ({
                let t = top_under(self.elements@, p, self.elements@.len() as int);
                if t >= 0 {
                    r == Some(self.elements@[t])
                } else {
                    r == None::<Element>
                }
            }),
    {
        let mut i: usize = self.elements.len();
        while i > 0
            invariant
                i <= self.elements@.len(),
                top_under(self.elements@, p, self.elements@.len() as int) == top_under(
                    self.elements@,
                    p,
                    i as int,
                ),
            decreases i,
        {
            let e = self.elements[i - 1];
            if e.geometry().contains(p) {
                return Some(e);
            }
            i = i - 1;
        }
        None
    }

    /// The rectangle of the mapped window with root surface `surface`.
    pub fn element_geometry(&self, surface: SurfaceId) -> (r: Result<Rect, LookupError>)
        requires
            self.wf(),
        ensures
            match self.position_spec(surface) {
                Some(i) => r == Ok::<Rect, LookupError>(self.elements@[i].geometry_spec()),
                None => r == Err::<Rect, LookupError>(LookupError::NotFound),
            },
    {
        match self.position(surface) {
            Some(i) => {
                proof { self.lemma_unique_pos(surface, i as int); }
                Ok(self.elements[i].geometry())
            },
            None => Err(LookupError::NotFound),
        }
    }

    /// The rectangle of the output, once one is mapped.
    pub fn output_geometry(&self) -> (r: Result<Rect, LookupError>)
        ensures
            match self.output {
                Some(o) => r == Ok::<Rect, LookupError>(o),
                None => r == Err::<Rect, LookupError>(LookupError::NotFound),
            },
    {
        match self.output {
            Some(o) => Ok(o),
            None => Err(LookupError::NotFound),
        }
    }

    /// Maps the output with rectangle `geo`, or moves and resizes it.
    pub fn map_output(&mut self, geo: Rect)
        requires
            old(self).wf(),
            geo.wf(),
        ensures
            final(self).wf(),
            final(self).elements@ == old(self).elements@,
            final(self).output == Some(geo),
    {
        self.output = Some(geo);
    }

    /// Marks every mapped window deactivated, keeping the stack order.
    pub fn deactivate_all(&mut self)
        requires
            old(self).wf(),
        ensures
            final(self).wf(),
            final(self).output == old(self).output,
            final(self).elements@ == old(self).elements@.map_values(|x: Element| x.deactivated()),
    {
        let ghost s0 = self.elements@;
        let mut i: usize = 0;
        while i < self.elements.len()
            invariant
                i <= self.elements@.len(),
                self.elements@.len() == s0.len(),
                self.output == old(self).output,
                s0 == old(self).elements@,
                old(self).wf(),
                forall|k: int| 0 <= k < i ==> self.elements@[k] == s0[k].deactivated(),
                forall|k: int| i <= k < s0.len() ==> self.elements@[k] == s0[k],
            decreases self.elements@.len() - i,
        {
            let mut x = self.elements[i];
            x.window.activated = false;
            self.elements.set(i, x);
            i = i + 1;
        }
        assert(self.elements@ =~= s0.map_values(|x: Element| x.deactivated()));
        assert(forall|i: int|
            0 <= i < s0.len() ==> #[trigger] self.elements@[i].window.surface == s0[i].window.surface
                && self.elements@[i].wf());
    }

    /// Removes the window with root surface `surface` from the stack, if it
    /// is mapped.
    pub fn unmap_element(&mut self, surface: SurfaceId)
        requires
            old(self).wf(),
        ensures
            final(self).wf(),
            final(self).output == old(self).output,
            match old(self).position_spec(surface) {
                Some(i) => final(self).elements@ == old(self).elements@.remove(i),
                None => final(self).elements@ == old(self).elements@,
            },
            !holds_surface(final(self).elements@, surface),
    {
        match self.position(surface) {
            Some(i) => {
                proof { self.lemma_unique_pos(surface, i as int); }
                let ghost s0 = self.elements@;
                self.elements.remove(i);
                assert(self.elements@ =~= s0.remove(i as int));
                assert(forall|k: int| 0 <= k < self.elements@.len() ==> #[trigger] self.elements@[k] == s0[if k < i { k } else { k + 1 }]);
            },
            None => {},
        }
    }

    /// Gives the window at index `i` a new size.
    pub fn set_window_size(&mut self, i: usize, size: Size)
        requires
            old(self).wf(),
            i < old(self).elements@.len(),
            size.wf(),
        ensures
            final(self).wf(),
            final(self).output == old(self).output,
            final(self).elements@ == old(self).elements@.update(
                i as int,
                Element {
                    window: Window { size, ..old(self).elements@[i as int].window },
                    ..old(self).elements@[i as int]
                },
            ),
    {
        let mut e = self.elements[i];
        e.window.size = size;
        self.elements.set(i, e);
        assert(forall|k: int|
            0 <= k < self.elements@.len() ==> #[trigger] self.elements@[k].window.surface
                == old(self).elements@[k].window.surface && self.elements@[k].wf());
    }

    /// Index of the element with root surface `surface`, if it is mapped.
    pub open spec fn position_spec(&self, surface: SurfaceId) -> Option<int> {
        position_in(self.elements@, surface)
    }

    pub proof fn lemma_unique_pos(&self, surface: SurfaceId, i: int)
        requires
            unique_surfaces(self.elements@),
            0 <= i < self.elements@.len(),
            self.elements@[i].window.surface == surface,
        ensures
            self.position_spec(surface) == Some(i),
            !holds_surface(self.elements@.remove(i), surface),
    {
    }
}

/// Where each element of a raised stack came from.
pub proof fn lemma_raised_index(s: Seq<Element>, i: int, activate: bool)
    requires
        0 <= i < s.len(),
    ensures
        raised_at(s, i, activate).len() == s.len(),
        forall|k: int|
            0 <= k < s.len() ==> {
                let j = if k == s.len() - 1 {
                    i
                } else if k < i {
                    k
                } else {
                    k + 1
                };
                &&& (#[trigger] raised_at(s, i, activate)[k]).window.surface == s[j].window.surface
                &&& raised_at(s, i, activate)[k].loc == s[j].loc
                &&& raised_at(s, i, activate)[k].window.size == s[j].window.size
            },
{
}

/// After an activating raise of a window that contains `p`, that window is
/// the topmost one under `p`, it is the one activated window, and every
/// other window is deactivated.
pub proof fn lemma_raised_hit_is_top(s: Seq<Element>, i: int, p: Point)
    requires
        0 <= i < s.len(),
        s[i].geometry_spec().contains_spec(p),
    ensures
        ({
            let r = raised_at(s, i, true);
            &&& r.len() == s.len()
            &&& top_under(r, p, r.len() as int) == r.len() - 1
            &&& r[r.len() - 1].window.surface == s[i].window.surface
            &&& r[r.len() - 1].window.activated
            &&& forall|k: int| 0 <= k < r.len() - 1 ==> !(#[trigger] r[k]).window.activated
        }),
{
    let r = raised_at(s, i, true);
    assert(r[r.len() - 1] == s[i].activated());
}

/// Raising keeps the relative order of every other window: the surfaces come
/// out as before, less the raised one, which is now last.
pub proof fn lemma_raise_keeps_order(s: Seq<Element>, i: int, activate: bool)
    requires
        0 <= i < s.len(),
    ensures
        surfaces(raised_at(s, i, activate)) == surfaces(s).remove(i).push(s[i].window.surface),
{
    assert(surfaces(raised_at(s, i, activate)) =~= surfaces(s).remove(i).push(s[i].window.surface));
}

/// Raising the topmost window changes nothing in the stacking order; without
/// activation it changes nothing at all.
pub proof fn lemma_raise_topmost_is_noop(s: Seq<Element>, activate: bool)
    requires
        s.len() > 0,
    ensures
        surfaces(raised_at(s, s.len() - 1, activate)) == surfaces(s),
        !activate ==> raised_at(s, s.len() - 1, activate) == s,
{
    lemma_raise_keeps_order(s, s.len() - 1, activate);
    assert(surfaces(s).remove(s.len() - 1).push(s[s.len() - 1].window.surface) =~= surfaces(s));
    assert(s.remove(s.len() - 1).push(s[s.len() - 1]) =~= s);
}

} // verus!
