use vstd::prelude::*;

verus! {

/// `(x, y)` lies on a grid `w` cells wide and `h` cells high.
pub open spec fn in_grid(x: int, y: int, w: int, h: int) -> bool {
    0 <= x < w && 0 <= y < h
}

/// The place of cell `(x, y)` in a grid stored row after row, `w` cells to a row.
pub open spec fn cell_index(x: int, y: int, w: int) -> int {
    y * w + x
}

/// A cell of the grid has a place inside its storage, and distinct cells have distinct places.
pub proof fn lemma_cell_index(x: int, y: int, x2: int, y2: int, w: int, h: int)
    requires
        in_grid(x, y, w, h),
        in_grid(x2, y2, w, h),
    ensures
        0 <= cell_index(x, y, w) < w * h,
        (x != x2 || y != y2) ==> cell_index(x, y, w) != cell_index(x2, y2, w),
{
    assert(0 <= y * w + x < w * h) by (nonlinear_arith)
        requires
            0 <= x < w,
            0 <= y < h,
    ;
    assert((x != x2 || y != y2) ==> y * w + x != y2 * w + x2) by (nonlinear_arith)
        requires
            0 <= x < w,
            0 <= x2 < w,
    ;
}

/// The storage place of cell `(x, y)`.
pub fn cell_at(x: i32, y: i32, width: usize, height: usize) -> (i: usize)
    requires
        in_grid(x as int, y as int, width as int, height as int),
        width * height <= usize::MAX,
    ensures
        i == cell_index(x as int, y as int, width as int),
        i < width * height,
{
    proof {
        lemma_cell_index(x as int, y as int, x as int, y as int, width as int, height as int);
        assert(y as int * width as int <= y as int * width as int + x as int);
    }
    y as usize * width + x as usize
}

/// Which actor stands on each cell of the world.
pub struct EntityMap {
    pub actors: Vec<Option<usize>>,
    pub width: usize,
    pub height: usize,
}

impl EntityMap {
    /// The map holds one entry for each cell.
    pub open spec fn wf(&self) -> bool {
        &&& self.actors@.len() == self.width * self.height
        &&& self.width * self.height <= usize::MAX
    }

    /// The actor on cell `(x, y)`, if any.
    pub open spec fn occupant(&self, x: int, y: int) -> Option<usize> {
        self.actors@[cell_index(x, y, self.width as int)]
    }

    /// `(x, y)` lies on this map.
    pub open spec fn holds(&self, x: int, y: int) -> bool {
        in_grid(x, y, self.width as int, self.height as int)
    }

    /// A map of the given size with no actor on it.
    pub fn new(width: usize, height: usize) -> (m: EntityMap)
        requires
            width * height <= usize::MAX,
        ensures
            m.wf(),
            m.width == width,
            m.height == height,
            forall|x: int, y: int| m.holds(x, y) ==> m.occupant(x, y).is_none(),
    {
        let n: usize = width * height;
        let mut actors: Vec<Option<usize>> = Vec::new();
        let mut k: usize = 0;
        while k < n
            invariant
                k <= n,
                actors@.len() == k,
                forall|i: int| 0 <= i < k ==> actors@[i].is_none(),
            decreases n - k,
        {
            actors.push(None);
            k = k + 1;
        }
        let m = EntityMap { actors, width, height };
        assert forall|x: int, y: int| m.holds(x, y) implies m.occupant(x, y).is_none() by {
            lemma_cell_index(x, y, x, y, width as int, height as int);
        }
        m
    }

    /// True when `(x, y)` lies on this map.
    pub fn in_bounds(&self, x: i32, y: i32) -> (b: bool)
        ensures
            b == self.holds(x as int, y as int),
    {
        0 <= x && (x as usize) < self.width && 0 <= y && (y as usize) < self.height
    }

    /// The actor on cell `(x, y)`, if any.
    pub fn retrieve(&self, x: i32, y: i32) -> (r: Option<usize>)
        requires
            self.wf(),
            self.holds(x as int, y as int),
        ensures
            r == self.occupant(x as int, y as int),
    {
        proof {
            lemma_cell_index(x as int, y as int, x as int, y as int, self.width as int, self.height as int);
        }
        self.actors[cell_at(x, y, self.width, self.height)]
    }

    /// Puts `value` on cell `(x, y)`.
    pub fn set_point(&mut self, x: i32, y: i32, value: Option<usize>)
        requires
            old(self).wf(),
            old(self).holds(x as int, y as int),
        ensures
            final(self).wf(),
            final(self).width == old(self).width,
            final(self).height == old(self).height,
            final(self).occupant(x as int, y as int) == value,
            final(self).actors@ == old(self).actors@.update(
                cell_index(x as int, y as int, old(self).width as int),
                value,
            ),
            forall|x2: int, y2: int|
                final(self).holds(x2, y2) && (x2 != x || y2 != y) ==> final(self).occupant(x2, y2)
                    == old(self).occupant(x2, y2),
    {
        proof {
            lemma_cell_index(x as int, y as int, x as int, y as int, self.width as int, self.height as int);
        }
        let i: usize = cell_at(x, y, self.width, self.height);
        self.actors.set(i, value);
        proof {
            assert forall|x2: int, y2: int|
                self.holds(x2, y2) && (x2 != x || y2 != y) implies self.occupant(x2, y2) == old(
                self,
            ).occupant(x2, y2) by {
                lemma_cell_index(x2, y2, x as int, y as int, self.width as int, self.height as int);
            }
        }
    }

    /// Clears cell `(x, y)`.
    pub fn reset_point(&mut self, x: i32, y: i32)
        requires
            old(self).wf(),
            old(self).holds(x as int, y as int),
        ensures
            final(self).wf(),
            final(self).width == old(self).width,
            final(self).height == old(self).height,
            final(self).occupant(x as int, y as int).is_none(),
            final(self).actors@ == old(self).actors@.update(
                cell_index(x as int, y as int, old(self).width as int),
                None,
            ),
            forall|x2: int, y2: int|
                final(self).holds(x2, y2) && (x2 != x || y2 != y) ==> final(self).occupant(x2, y2)
                    == old(self).occupant(x2, y2),
    {
        self.set_point(x, y, None);
    }
}

/// What can be seen through and walked over, cell by cell.
pub struct ViewMap {
    pub width: usize,
    pub height: usize,
    pub transparent: Vec<bool>,
    pub walkable: Vec<bool>,
}

impl ViewMap {
    /// The view holds one entry of each kind for each cell.
    pub open spec fn wf(&self) -> bool {
        &&& self.transparent@.len() == self.width * self.height
        &&& self.walkable@.len() == self.width * self.height
        &&& self.width * self.height <= usize::MAX
    }

    /// `(x, y)` lies on this view.
    pub open spec fn holds(&self, x: int, y: int) -> bool {
        in_grid(x, y, self.width as int, self.height as int)
    }

    /// Whether cell `(x, y)` can be walked over.
    pub open spec fn walkable_at(&self, x: int, y: int) -> bool {
        self.walkable@[cell_index(x, y, self.width as int)]
    }

    /// Whether cell `(x, y)` can be seen through.
    pub open spec fn transparent_at(&self, x: int, y: int) -> bool {
        self.transparent@[cell_index(x, y, self.width as int)]
    }

    /// A view of the given size in which every cell is opaque and blocked.
    pub fn new(width: usize, height: usize) -> (v: ViewMap)
        requires
            width * height <= usize::MAX,
        ensures
            v.wf(),
            v.width == width,
            v.height == height,
            forall|x: int, y: int|
                v.holds(x, y) ==> !v.walkable_at(x, y) && !v.transparent_at(x, y),
    {
        let n: usize = width * height;
        let mut transparent: Vec<bool> = Vec::new();
        let mut walkable: Vec<bool> = Vec::new();
        let mut k: usize = 0;
        while k < n
            invariant
                k <= n,
                transparent@.len() == k,
                walkable@.len() == k,
                forall|i: int| 0 <= i < k ==> !transparent@[i] && !walkable@[i],
            decreases n - k,
        {
            transparent.push(false);
            walkable.push(false);
            k = k + 1;
        }
        let v = ViewMap { width, height, transparent, walkable };
        assert forall|x: int, y: int| v.holds(x, y) implies !v.walkable_at(x, y)
            && !v.transparent_at(x, y) by {
            lemma_cell_index(x, y, x, y, width as int, height as int);
        }
        v
    }

    /// True when `(x, y)` lies on this view.
    pub fn in_bounds(&self, x: i32, y: i32) -> (b: bool)
        ensures
            b == self.holds(x as int, y as int),
    {
        0 <= x && (x as usize) < self.width && 0 <= y && (y as usize) < self.height
    }

    /// Whether cell `(x, y)` can be walked over.
    pub fn is_walkable(&self, x: i32, y: i32) -> (b: bool)
        requires
            self.wf(),
            self.holds(x as int, y as int),
        ensures
            b == self.walkable_at(x as int, y as int),
    {
        proof {
            lemma_cell_index(x as int, y as int, x as int, y as int, self.width as int, self.height as int);
        }
        self.walkable[cell_at(x, y, self.width, self.height)]
    }

    /// Whether cell `(x, y)` can be seen through.
    pub fn is_transparent(&self, x: i32, y: i32) -> (b: bool)
        requires
            self.wf(),
            self.holds(x as int, y as int),
        ensures
            b == self.transparent_at(x as int, y as int),
    {
        proof {
            lemma_cell_index(x as int, y as int, x as int, y as int, self.width as int, self.height as int);
        }
        self.transparent[cell_at(x, y, self.width, self.height)]
    }

    /// Sets whether cell `(x, y)` can be seen through and walked over.
    pub fn set(&mut self, x: i32, y: i32, transparent: bool, walkable: bool)
        requires
            old(self).wf(),
            old(self).holds(x as int, y as int),
        ensures
            final(self).wf(),
            final(self).width == old(self).width,
            final(self).height == old(self).height,
            final(self).walkable_at(x as int, y as int) == walkable,
            final(self).transparent_at(x as int, y as int) == transparent,
            final(self).walkable@ == old(self).walkable@.update(
                cell_index(x as int, y as int, old(self).width as int),
                walkable,
            ),
            final(self).transparent@ == old(self).transparent@.update(
                cell_index(x as int, y as int, old(self).width as int),
                transparent,
            ),
            forall|x2: int, y2: int|
                final(self).holds(x2, y2) && (x2 != x || y2 != y) ==> final(self).walkable_at(x2, y2)
                    == old(self).walkable_at(x2, y2) && final(self).transparent_at(x2, y2) == old(
                    self,
                ).transparent_at(x2, y2),
    {
        proof {
            lemma_cell_index(x as int, y as int, x as int, y as int, self.width as int, self.height as int);
        }
        let i: usize = cell_at(x, y, self.width, self.height);
        self.transparent.set(i, transparent);
        self.walkable.set(i, walkable);
        proof {
            assert forall|x2: int, y2: int|
                self.holds(x2, y2) && (x2 != x || y2 != y) implies self.walkable_at(x2, y2) == old(
                self,
            ).walkable_at(x2, y2) && self.transparent_at(x2, y2) == old(self).transparent_at(
                x2,
                y2,
            ) by {
                lemma_cell_index(x2, y2, x as int, y as int, self.width as int, self.height as int);
            }
        }
    }
}

} // verus!
