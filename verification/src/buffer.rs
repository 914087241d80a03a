use vstd::prelude::*;
use crate::pixel::Color;
use crate::pixel::Pixel;
use crate::pixel::color_dist_sq_spec;
use crate::pixel::color_dist_sq;

verus! {

/// A bounded, most-recent-first history of placed pixels: the candidate pool
/// for the nearest-color lookup. Index 0 of the view is the newest entry.
pub struct RecencyBuffer {
    entries: Vec<Pixel>,
    capacity: usize,
}

/// `i` is the position of the first entry of `s` minimizing the squared
/// color distance to `c`: no entry beats it, and every earlier one is worse.
pub open spec fn is_first_nearest(s: Seq<Pixel>, c: Color, i: int) -> bool {
    &&& 0 <= i < s.len()
    &&& forall|j: int| 0 <= j < s.len() ==>
            color_dist_sq_spec(c, #[trigger] s[j].color) >= color_dist_sq_spec(c, s[i].color)
    &&& forall|j: int| 0 <= j < i ==>
            color_dist_sq_spec(c, #[trigger] s[j].color) > color_dist_sq_spec(c, s[i].color)
}

impl RecencyBuffer {
    pub closed spec fn view(self) -> Seq<Pixel> {
        self.entries@
    }

    pub closed spec fn cap(self) -> int {
        self.capacity as int
    }

    pub open spec fn wf(self) -> bool {
        &&& self.cap() >= 1
        &&& self@.len() <= self.cap()
    }

    /// Creates an empty buffer that will keep the `capacity` newest pixels.
    pub fn new(capacity: usize) -> (b: Self)
        requires
            capacity >= 1,
        ensures
            b.wf(),
            b.cap() == capacity,
            b@ =~= Seq::<Pixel>::empty(),
    {
        Self { entries: Vec::new(), capacity }
    }

    pub fn len(&self) -> (n: usize)
        ensures
            n == self@.len(),
    {
        self.entries.len()
    }

    /// Inserts `p` at the front, then truncates to the configured capacity.
    pub fn push(&mut self, p: Pixel)
        requires
            old(self).wf(),
        ensures
            final(self).wf(),
            final(self).cap() == old(self).cap(),
            final(self)@ =~= seq![p].add(old(self)@).take(
                if old(self)@.len() + 1 <= old(self).cap() {
                    old(self)@.len() as int + 1
                } else {
                    old(self).cap()
                }),
    {
        self.entries.insert(0, p);
        if self.entries.len() > self.capacity {
            self.entries.truncate(self.capacity);
        }
    }

    /// Returns the first pixel minimizing the squared color distance to
    /// `c`, scanning from the newest entry backwards: ties prefer recency.
    pub fn nearest(&self, c: Color) -> (p: Pixel)
        requires
            self@.len() >= 1,
        ensures
            exists|i: int| is_first_nearest(self@, c, i) && p == self@[i],
    {
        let mut best: Pixel = self.entries[0];
        let mut best_d: u32 = color_dist_sq(c, best.color);
        let ghost mut best_i: int = 0;
        let mut k: usize = 1;
        while k < self.entries.len()
            invariant
                1 <= k <= self@.len(),
                0 <= best_i < k,
                best == self@[best_i],
                best_d == color_dist_sq_spec(c, best.color),
                forall|j: int| 0 <= j < k ==>
                    color_dist_sq_spec(c, #[trigger] self@[j].color) >= best_d,
                forall|j: int| 0 <= j < best_i ==>
                    color_dist_sq_spec(c, #[trigger] self@[j].color) > best_d,
            decreases self@.len() - k,
        {
            let cand = self.entries[k];
            let d = color_dist_sq(c, cand.color);
            if d < best_d {
                best = cand;
                best_d = d;
                proof {
                    best_i = k as int;
                }
            }
            k = k + 1;
        }
        proof {
            assert(is_first_nearest(self@, c, best_i));
        }
        best
    }
}

} // verus!
