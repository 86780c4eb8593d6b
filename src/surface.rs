use vstd::prelude::*;

use crate::geometry::{coord_ok, Point, Size, COORD_MAX};
use crate::space::SurfaceId;

verus! {

/// Most surface slots the table holds at once. The slot of a destroyed
/// surface is used again once no surface names it as its parent.
pub const MAX_SURFACES: usize = 1048576;

/// The role a client gave a surface.
#[derive(Clone, Copy, Debug, PartialEq, Eq, Structural)]
pub enum Role {
    Unassigned,
    Toplevel,
    Popup,
    Subsurface,
}

/// One side of a surface's double-buffered state.
#[derive(Clone, Copy, Debug, PartialEq, Eq, Structural)]
pub struct BufferState {
    pub buffer: Option<u64>,
    pub size: Size,
}

/// A client surface.
///
/// `parent` is the surface that this one is placed relative to: the parent
/// of a subsurface, or the parent of a popup. `offset` is the position within
/// that parent. `sync` only matters for a subsurface.
#[derive(Clone, Copy, Debug, PartialEq, Eq, Structural)]
pub struct Surface {
    pub client: u64,
    pub parent: Option<SurfaceId>,
    pub offset: Point,
    pub role: Role,
    pub sync: bool,
    pub alive: bool,
    pub pending: BufferState,
    pub current: BufferState,
    pub initial_configure_sent: bool,
}

/// A surface as created: no role, no parent, nothing attached.
pub open spec fn fresh_surface(client: u64) -> Surface {
    Surface {
        client,
        parent: None,
        offset: Point { x: 0, y: 0 },
        role: Role::Unassigned,
        sync: false,
        alive: true,
        pending: BufferState { buffer: None, size: Size { w: 0, h: 0 } },
        current: BufferState { buffer: None, size: Size { w: 0, h: 0 } },
        initial_configure_sent: false,
    }
}

/// Surface `i` has a parent one level above it in the depths `d`.
pub open spec fn has_parent(s: Seq<Surface>, d: Seq<nat>, i: int) -> bool {
    &&& 0 <= i < s.len()
    &&& s[i].parent is Some
    &&& (s[i].parent->0 as int) < s.len()
    &&& d[s[i].parent->0 as int] < d[i]
}

/// The parent of `i`, read as an index.
pub open spec fn par(s: Seq<Surface>, i: int) -> int {
    s[i].parent->0 as int
}

/// The surface at the top of `i`'s parent chain.
pub open spec fn root_of(s: Seq<Surface>, d: Seq<nat>, i: int) -> int
    decreases d[i],
{
    if has_parent(s, d, i) {
        root_of(s, d, par(s, i))
    } else {
        i
    }
}

/// `a` is `j` or one of `j`'s ancestors.
pub open spec fn reaches(s: Seq<Surface>, d: Seq<nat>, j: int, a: int) -> bool
    decreases d[j],
{
    j == a || (has_parent(s, d, j) && reaches(s, d, par(s, j), a))
}

/// Walks up from `cur` with the running position `(ax, ay)`, adding the
/// offset of each surface below the root. `None` as soon as the running
/// position leaves the coordinate bound.
pub open spec fn offset_walk(s: Seq<Surface>, d: Seq<nat>, cur: int, ax: int, ay: int) -> Option<
    (int, int),
>
    decreases d[cur],
{
    if !(coord_ok(ax) && coord_ok(ay)) {
        None
    } else if has_parent(s, d, cur) {
        offset_walk(s, d, par(s, cur), ax + s[cur].offset.x, ay + s[cur].offset.y)
    } else {
        Some((ax, ay))
    }
}

/// Position of surface `i` relative to the root of its chain, when every
/// running sum along the chain stays within the coordinate bound.
pub open spec fn root_offset(s: Seq<Surface>, d: Seq<nat>, i: int) -> Option<(int, int)> {
    offset_walk(s, d, i, 0, 0)
}

/// A synchronized subsurface, or a surface below one: its commits wait for
/// its parent's.
pub open spec fn effectively_sync(s: Seq<Surface>, d: Seq<nat>, i: int) -> bool
    decreases d[i],
{
    &&& 0 <= i < s.len()
    &&& ((s[i].role == Role::Subsurface && s[i].sync) || (has_parent(s, d, i)
        && effectively_sync(s, d, par(s, i))))
}

/// Whether a commit of surface `c` applies the pending state of surface `j`:
/// `c` itself, and each surface whose commits wait on one that is applied.
pub open spec fn applied_by(s: Seq<Surface>, d: Seq<nat>, c: int, j: int) -> bool
    decreases d[j],
{
    j == c || (effectively_sync(s, d, j) && has_parent(s, d, j) && applied_by(s, d, c, par(s, j)))
}

/// The table after a commit of `c`: surfaces whose commits wait on a parent
/// keep everything; otherwise each surface that the commit applies takes its
/// pending state as current.
pub open spec fn committed(s: Seq<Surface>, d: Seq<nat>, c: int) -> Seq<Surface> {
    if effectively_sync(s, d, c) {
        s
    } else {
        Seq::new(
            s.len(),
            |j: int|
                if applied_by(s, d, c, j) {
                    Surface { current: s[j].pending, ..s[j] }
                } else {
                    s[j]
                },
        )
    }
}

/// Slot `k` may be given to a new surface: its surface is destroyed and no
/// surface names it as parent.
pub open spec fn reusable(s: Seq<Surface>, k: int) -> bool {
    &&& 0 <= k < s.len()
    &&& !s[k].alive
    &&& forall|j: int| 0 <= j < s.len() ==> (#[trigger] s[j]).parent != Some(k as usize)
}

/// Parents are surfaces of the table one level above their children in the
/// depths `d`, so parent chains end; surfaces without the subsurface or popup
/// role have no parent; offsets and sizes are bounded.
pub open spec fn table_ok(s: Seq<Surface>, d: Seq<nat>) -> bool {
    &&& s.len() <= MAX_SURFACES
    &&& d.len() == s.len()
    &&& forall|i: int|
        0 <= i < s.len() ==> {
            &&& (#[trigger] s[i]).offset.wf()
            &&& s[i].pending.size.wf()
            &&& s[i].current.size.wf()
            &&& match s[i].parent {
                Some(p) => p < s.len() && d[i] == d[p as int] + 1,
                None => d[i] == 0,
            }
            &&& (s[i].role == Role::Unassigned || s[i].role == Role::Toplevel) ==> s[i].parent
                is None
        }
}

/// All surfaces, indexed by their `SurfaceId`, with the ghost depth of each
/// in its parent tree.
pub struct SurfaceTable {
    pub surfaces: Vec<Surface>,
    pub depth: Ghost<Seq<nat>>,
}

impl SurfaceTable {
    pub open spec fn view(&self) -> Seq<Surface> {
        self.surfaces@
    }

    pub open spec fn wf(&self) -> bool {
        table_ok(self@, self.depth@)
    }

    pub fn new() -> (r: SurfaceTable)
        ensures
            r.wf(),
            r@ == Seq::<Surface>::empty(),
    {
        SurfaceTable { surfaces: Vec::new(), depth: Ghost(Seq::empty()) }
    }

    /// The surface at the top of `i`'s parent chain.
    pub fn root(&self, i: SurfaceId) -> (r: SurfaceId)
        requires
            self.wf(),
            i < self@.len(),
        ensures
            r == root_of(self@, self.depth@, i as int),
            r < self@.len(),
    {
        let mut cur = i;
        while self.surfaces[cur].parent.is_some()
            invariant
                self.wf(),
                cur < self@.len(),
                root_of(self@, self.depth@, i as int) == root_of(self@, self.depth@, cur as int),
            decreases self.depth@[cur as int],
        {
            cur = self.surfaces[cur].parent.unwrap();
        }
        cur
    }

    /// Whether `a` is `j` or one of its ancestors.
    pub fn is_ancestor_or_self(&self, j: SurfaceId, a: SurfaceId) -> (r: bool)
        requires
            self.wf(),
            j < self@.len(),
        ensures
            r == reaches(self@, self.depth@, j as int, a as int),
    {
        let mut cur = j;
        loop
            invariant
                self.wf(),
                cur < self@.len(),
                reaches(self@, self.depth@, j as int, a as int) == reaches(
                    self@,
                    self.depth@,
                    cur as int,
                    a as int,
                ),
            decreases self.depth@[cur as int],
        {
            if cur == a {
                return true;
            }
            match self.surfaces[cur].parent {
                Some(p) => {
                    cur = p;
                },
                None => {
                    return false;
                },
            }
        }
    }

    /// Position of `i` relative to the root of its chain; see `root_offset`.
    pub fn offset_in_root(&self, i: SurfaceId) -> (r: Option<Point>)
        requires
            self.wf(),
            i < self@.len(),
        ensures
            match root_offset(self@, self.depth@, i as int) {
                Some(o) => r == Some(Point { x: o.0 as i32, y: o.1 as i32 }) && coord_ok(o.0)
                    && coord_ok(o.1),
                None => r == None::<Point>,
            },
    {
        let mut cur = i;
        let mut x: i64 = 0;
        let mut y: i64 = 0;
        loop
            invariant
                self.wf(),
                cur < self@.len(),
                root_offset(self@, self.depth@, i as int) == offset_walk(
                    self@,
                    self.depth@,
                    cur as int,
                    x as int,
                    y as int,
                ),
                -2 * COORD_MAX <= x <= 2 * COORD_MAX,
                -2 * COORD_MAX <= y <= 2 * COORD_MAX,
            decreases self.depth@[cur as int],
        {
            if !(-(COORD_MAX as i64) <= x && x <= COORD_MAX as i64 && -(COORD_MAX as i64) <= y
                && y <= COORD_MAX as i64) {
                return None;
            }
            let s = self.surfaces[cur];
            match s.parent {
                Some(p) => {
                    x = x + s.offset.x as i64;
                    y = y + s.offset.y as i64;
                    cur = p;
                },
                None => {
                    return Some(Point { x: x as i32, y: y as i32 });
                },
            }
        }
    }

    /// Whether commits of `i` wait for its parent's.
    pub fn is_sync(&self, i: SurfaceId) -> (r: bool)
        requires
            self.wf(),
            i < self@.len(),
        ensures
            r == effectively_sync(self@, self.depth@, i as int),
    {
        let mut cur = i;
        loop
            invariant
                self.wf(),
                cur < self@.len(),
                effectively_sync(self@, self.depth@, i as int) == effectively_sync(
                    self@,
                    self.depth@,
                    cur as int,
                ),
            decreases self.depth@[cur as int],
        {
            let s = self.surfaces[cur];
            if s.role == Role::Subsurface && s.sync {
                return true;
            }
            match s.parent {
                Some(p) => {
                    cur = p;
                },
                None => {
                    return false;
                },
            }
        }
    }

    /// Whether a commit of `c` applies the pending state of `j`.
    pub fn applies(&self, c: SurfaceId, j: SurfaceId) -> (r: bool)
        requires
            self.wf(),
            j < self@.len(),
        ensures
            r == applied_by(self@, self.depth@, c as int, j as int),
    {
        let mut cur = j;
        loop
            invariant
                self.wf(),
                cur < self@.len(),
                applied_by(self@, self.depth@, c as int, j as int) == applied_by(
                    self@,
                    self.depth@,
                    c as int,
                    cur as int,
                ),
            decreases self.depth@[cur as int],
        {
            if cur == c {
                return true;
            }
            if !self.is_sync(cur) {
                return false;
            }
            match self.surfaces[cur].parent {
                Some(p) => {
                    cur = p;
                },
                None => {
                    return false;
                },
            }
        }
    }

    /// Index of a slot that `reusable` accepts, if any.
    fn free_slot(&self) -> (r: Option<usize>)
        requires
            self.wf(),
        ensures
            match r {
                Some(k) => reusable(self@, k as int),
                None => forall|k: int| !reusable(self@, k),
            },
    {
        let n = self.surfaces.len();
        let mut k: usize = 0;
        while k < n
            invariant
                n == self@.len(),
                k <= n,
                forall|m: int| 0 <= m < k ==> !reusable(self@, m),
            decreases n - k,
        {
            if !self.surfaces[k].alive {
                let mut j: usize = 0;
                let mut named = false;
                while j < n
                    invariant
                        n == self@.len(),
                        j <= n,
                        k < n,
                        !named ==> forall|m: int|
                            0 <= m < j ==> (#[trigger] self@[m]).parent != Some(k),
                        named ==> !reusable(self@, k as int),
                    decreases n - j,
                {
                    if self.surfaces[j].parent == Some(k) {
                        named = true;
                    }
                    j = j + 1;
                }
                if !named {
                    return Some(k);
                }
            }
            k = k + 1;
        }
        None
    }

    /// A new surface of `client`, with no role and nothing attached, in a
    /// reusable slot if there is one, else in a new slot; `None` when no
    /// slot is reusable and the table is full.
    pub fn create_surface(&mut self, client: u64) -> (r: Option<SurfaceId>)
        requires
            old(self).wf(),
        ensures
            final(self).wf(),
            match r {
                Some(k) => (reusable(old(self)@, k as int) && final(self)@ == old(self)@.update(
                    k as int,
                    fresh_surface(client),
                )) || ((forall|m: int| !reusable(old(self)@, m)) && k == old(self)@.len()
                    && final(self)@ == old(self)@.push(fresh_surface(client))),
                None => (forall|m: int| !reusable(old(self)@, m)) && old(self)@.len()
                    >= MAX_SURFACES && final(self)@ == old(self)@,
            },
    {
        let empty = BufferState { buffer: None, size: Size { w: 0, h: 0 } };
        let fresh = Surface {
            client,
            parent: None,
            offset: Point { x: 0, y: 0 },
            role: Role::Unassigned,
            sync: false,
            alive: true,
            pending: empty,
            current: empty,
            initial_configure_sent: false,
        };
        match self.free_slot() {
            Some(k) => {
                let ghost s0 = self@;
                let ghost d0 = self.depth@;
                self.surfaces.set(k, fresh);
                self.depth = Ghost(d0.update(k as int, 0));
                assert forall|i: int| 0 <= i < self@.len() implies match (#[trigger] self@[i]).parent {
                    Some(p) => p < self@.len() && self.depth@[i] == self.depth@[p as int] + 1,
                    None => self.depth@[i] == 0,
                } by {
                    if i != k {
                        assert(s0[i].parent != Some(k));
                    }
                }
                Some(k)
            },
            None => {
                if self.surfaces.len() >= MAX_SURFACES {
                    return None;
                }
                let id = self.surfaces.len();
                self.surfaces.push(fresh);
                self.depth = Ghost(self.depth@.push(0));
                assert(self@ =~= old(self)@.push(fresh_surface(client)));
                assert forall|i: int| 0 <= i < self@.len() implies match (#[trigger] self@[i]).parent {
                    Some(p) => p < self@.len() && self.depth@[i] == self.depth@[p as int] + 1,
                    None => self.depth@[i] == 0,
                } by {
                    if i < id {
                        assert(old(self)@[i] == self@[i]);
                    }
                }
                Some(id)
            },
        }
    }

    /// Records a buffer of the given size as the pending state of `i`.
    pub fn attach(&mut self, i: SurfaceId, buffer: Option<u64>, size: Size)
        requires
            old(self).wf(),
            i < old(self)@.len(),
            size.wf(),
        ensures
            final(self).wf(),
            final(self).depth == old(self).depth,
            final(self)@ == old(self)@.update(
                i as int,
                Surface { pending: BufferState { buffer, size }, ..old(self)@[i as int] },
            ),
    {
        let mut s = self.surfaces[i];
        s.pending = BufferState { buffer, size };
        self.surfaces.set(i, s);
    }

    /// Replaces the record of surface `i`, keeping its parent.
    pub fn replace(&mut self, i: SurfaceId, s: Surface)
        requires
            old(self).wf(),
            i < old(self)@.len(),
            s.parent == old(self)@[i as int].parent,
            table_ok(old(self)@.update(i as int, s), old(self).depth@),
        ensures
            final(self).wf(),
            final(self).depth == old(self).depth,
            final(self)@ == old(self)@.update(i as int, s),
    {
        self.surfaces.set(i, s);
    }

    /// Gives surface `i`, which has no parent, the parent `p`, the role,
    /// offset and sync flag given; refused, with no change, when `p` is `i`
    /// or below it, which would close a cycle.
    pub fn adopt(&mut self, i: SurfaceId, p: SurfaceId, role: Role, offset: Point, sync: bool) -> (r:
        bool)
        requires
            old(self).wf(),
            i < old(self)@.len(),
            p < old(self)@.len(),
            old(self)@[i as int].parent is None,
            offset.wf(),
            role == Role::Popup || role == Role::Subsurface,
        ensures
            final(self).wf(),
            r == !reaches(old(self)@, old(self).depth@, p as int, i as int),
            r ==> final(self)@ == old(self)@.update(
                i as int,
                Surface { role, parent: Some(p), offset, sync, ..old(self)@[i as int] },
            ),
            !r ==> final(self)@ == old(self)@ && final(self).depth == old(self).depth,
    {
        if self.is_ancestor_or_self(p, i) {
            return false;
        }
        let ghost s0 = self@;
        let ghost d0 = self.depth@;
        let mut s = self.surfaces[i];
        s.role = role;
        s.parent = Some(p);
        s.offset = offset;
        s.sync = sync;
        self.surfaces.set(i, s);
        let ghost nd = Seq::new(
            d0.len(),
            |j: int|
                if reaches(s0, d0, j, i as int) {
                    d0[j] + d0[p as int] + 1
                } else {
                    d0[j]
                },
        );
        self.depth = Ghost(nd);
        assert forall|j: int| 0 <= j < self@.len() implies {
            &&& (#[trigger] self@[j]).offset.wf()
            &&& self@[j].pending.size.wf()
            &&& self@[j].current.size.wf()
            &&& match self@[j].parent {
                Some(q) => q < self@.len() && nd[j] == nd[q as int] + 1,
                None => nd[j] == 0,
            }
            &&& (self@[j].role == Role::Unassigned || self@[j].role == Role::Toplevel)
                ==> self@[j].parent is None
        } by {
            assert(s0[j].offset.wf());
            if j == i {
                assert(d0[j] == 0);
                assert(reaches(s0, d0, j, i as int));
                assert(!reaches(s0, d0, p as int, i as int));
            } else {
                match s0[j].parent {
                    Some(q) => {
                        assert(has_parent(s0, d0, j));
                        assert(reaches(s0, d0, j, i as int) == reaches(s0, d0, q as int, i as int));
                    },
                    None => {
                        assert(!has_parent(s0, d0, j));
                        assert(!reaches(s0, d0, j, i as int));
                    },
                }
            }
        }
        true
    }

    /// Applies a commit of `c`: unless `c` waits for its parent, `c` and every
    /// synchronized surface below it take their pending state as current.
    pub fn apply_commit(&mut self, c: SurfaceId)
        requires
            old(self).wf(),
            c < old(self)@.len(),
        ensures
            final(self).wf(),
            final(self).depth == old(self).depth,
            final(self)@ == committed(old(self)@, old(self).depth@, c as int),
    {
        if self.is_sync(c) {
            return;
        }
        let ghost s0 = self@;
        let n = self.surfaces.len();
        let mut hits: Vec<bool> = Vec::new();
        let mut j: usize = 0;
        while j < n
            invariant
                s0 == self@,
                self.wf(),
                n == s0.len(),
                j <= n,
                hits@.len() == j,
                forall|k: int| 0 <= k < j ==> hits@[k] == applied_by(s0, self.depth@, c as int, k),
            decreases n - j,
        {
            let h = self.applies(c, j);
            hits.push(h);
            j = j + 1;
        }
        let mut j: usize = 0;
        while j < n
            invariant
                s0 == old(self)@,
                self.depth == old(self).depth,
                !effectively_sync(s0, self.depth@, c as int),
                n == s0.len(),
                self@.len() == n,
                self.wf(),
                j <= n,
                hits@.len() == n,
                forall|k: int| 0 <= k < n ==> hits@[k] == applied_by(s0, self.depth@, c as int, k),
                forall|k: int| 0 <= k < j ==> self@[k] == committed(s0, self.depth@, c as int)[k],
                forall|k: int| j <= k < n ==> self@[k] == s0[k],
            decreases n - j,
        {
            if hits[j] {
                let mut s = self.surfaces[j];
                s.current = s.pending;
                self.surfaces.set(j, s);
            }
            j = j + 1;
        }
        assert(self@ =~= committed(s0, self.depth@, c as int));
    }

    /// Marks `i` destroyed.
    pub fn destroy(&mut self, i: SurfaceId)
        requires
            old(self).wf(),
            i < old(self)@.len(),
        ensures
            final(self).wf(),
            final(self).depth == old(self).depth,
            final(self)@ == old(self)@.update(i as int, Surface { alive: false, ..old(self)@[i as int] }),
    {
        let mut s = self.surfaces[i];
        s.alive = false;
        self.surfaces.set(i, s);
    }
}

} // verus!
