use vstd::prelude::*;
use crate::pixel::Loc;
use crate::pixel::Pixel;

verus! {

/// The `size * size` raster of optional placed pixels, stored row-major:
/// cell `x * size + y` holds the entry for coordinate `(x, y)`. A cell goes
/// from empty to filled exactly once and never reverts.
pub struct Grid {
    size: usize,
    cells: Vec<Option<Pixel>>,
}

impl Grid {
    pub closed spec fn view(self) -> Seq<Option<Pixel>> {
        self.cells@
    }

    pub closed spec fn spec_size(self) -> int {
        self.size as int
    }

    /// Every filled cell holds a pixel whose location is that very cell and
    /// whose location and center are in bounds.
    pub open spec fn wf(self) -> bool {
        &&& 1 <= self.spec_size()
        &&& self@.len() == self.spec_size() * self.spec_size()
        &&& forall|c: int|
            0 <= c < self@.len() && (#[trigger] self@[c]) is Some ==> {
                &&& (self@[c]->0).loc.in_bounds(self.spec_size())
                &&& (self@[c]->0).center.in_bounds(self.spec_size())
                &&& (self@[c]->0).loc.cell_id(self.spec_size()) == c
            }
    }

    /// No two filled cells hold pixels with the same location.
    pub proof fn lemma_loc_unique(self, c1: int, c2: int)
        requires
            self.wf(),
            0 <= c1 < self@.len(),
            0 <= c2 < self@.len(),
            c1 != c2,
            self@[c1] is Some,
            self@[c2] is Some,
        ensures
            (self@[c1]->0).loc != (self@[c2]->0).loc,
    {
    }

    /// An in-bounds coordinate has an in-range cell index.
    pub proof fn lemma_cell_id_in_range(l: Loc, size: int)
        requires
            l.in_bounds(size),
        ensures
            0 <= l.cell_id(size) < size * size,
    {
        assert(l.x * size + l.y < size * size) by (nonlinear_arith)
            requires l.x < size, l.y < size;
        assert(0 <= l.x * size) by (nonlinear_arith)
            requires 0 <= l.x, 0 <= size;
    }

    /// Creates an empty grid of side length `size`.
    pub fn new(size: usize) -> (g: Self)
        requires
            1 <= size,
            size * size <= usize::MAX,
        ensures
            g.wf(),
            g.spec_size() == size,
            forall|c: int| 0 <= c < g@.len() ==> (#[trigger] g@[c]) is None,
    {
        let n = size * size;
        let cells: Vec<Option<Pixel>> = vec![None; n];
        Self { size, cells }
    }

    pub fn size(&self) -> (s: usize)
        ensures
            s == self.spec_size(),
    {
        self.size
    }

    /// The flat cell index of an in-bounds coordinate.
    pub fn cell_index(&self, l: Loc) -> (c: usize)
        requires
            self.wf(),
            l.in_bounds(self.spec_size()),
        ensures
            c == l.cell_id(self.spec_size()),
            0 <= c < self@.len(),
    {
        proof {
            Self::lemma_cell_id_in_range(l, self.spec_size());
        }
        let n_cells = self.cells.len();
        proof {
            assert(l.cell_id(self.spec_size()) < n_cells);
        }
        l.x * self.size + l.y
    }

    /// Reads the cell of an in-bounds coordinate.
    pub fn get(&self, l: Loc) -> (p: Option<Pixel>)
        requires
            self.wf(),
            l.in_bounds(self.spec_size()),
        ensures
            p == self@[l.cell_id(self.spec_size())],
    {
        let c = self.cell_index(l);
        self.cells[c]
    }

    /// Fills the cell at `p.loc` with `p`; the cell must still be empty.
    pub fn put(&mut self, p: Pixel)
        requires
            old(self).wf(),
            p.loc.in_bounds(old(self).spec_size()),
            p.center.in_bounds(old(self).spec_size()),
            old(self)@[p.loc.cell_id(old(self).spec_size())] is None,
        ensures
            final(self).wf(),
            final(self).spec_size() == old(self).spec_size(),
            final(self)@ =~= old(self)@.update(p.loc.cell_id(old(self).spec_size()), Some(p)),
    {
        let c = self.cell_index(p.loc);
        self.cells[c] = Some(p);
    }
}

} // verus!
