use vstd::prelude::*;
use rand::rngs::StdRng;
use crate::rng::random_in_range;

verus! {

/// A set of cell identifiers drawn from the domain `[0, domain())`, supporting
/// O(1) removal of a uniformly random element and O(1) removal by key.
///
/// It is backed by an unordered vector of the present elements plus a reverse
/// index from each cell identifier to its current position in that vector.
pub struct RandomRemovalSet {
    elems: Vec<usize>,
    pos: Vec<Option<usize>>,
}

impl RandomRemovalSet {
    /// The size of the identifier space the set draws from.
    pub closed spec fn domain(self) -> int {
        self.pos@.len() as int
    }

    /// How many elements are currently present.
    pub closed spec fn len(self) -> int {
        self.elems@.len() as int
    }

    /// Whether cell identifier `c` is currently present.
    pub closed spec fn contains(self, c: int) -> bool {
        0 <= c < self.pos@.len() && self.pos@[c] is Some
    }

    /// The reverse index maps exactly the present elements, each to its true
    /// position in the element vector, with no stale entries.
    pub closed spec fn wf(self) -> bool {
        &&& forall|i: int|
            0 <= i < self.elems@.len() ==> {
                &&& (#[trigger] self.elems@[i]) < self.pos@.len()
                &&& self.pos@[self.elems@[i] as int] is Some
                &&& self.pos@[self.elems@[i] as int]->0 == i
            }
        &&& forall|c: int|
            0 <= c < self.pos@.len() && (#[trigger] self.pos@[c]) is Some ==> {
                &&& (self.pos@[c]->0 as int) < self.elems@.len()
                &&& self.elems@[self.pos@[c]->0 as int] == c
            }
    }

    /// A present element always lies inside the domain.
    pub proof fn lemma_contains_domain(self)
        ensures
            forall|c: int| #[trigger] self.contains(c) ==> 0 <= c < self.domain(),
    {
    }

    /// An empty set never contains anything.
    pub proof fn lemma_empty(self)
        requires
            self.wf(),
            self.len() == 0,
        ensures
            forall|c: int| !self.contains(c),
    {
    }

    /// Creates the full set over the domain `[0, n)`.
    pub fn new_full(n: usize) -> (s: Self)
        ensures
            s.wf(),
            s.domain() == n,
            s.len() == n,
            forall|c: int| s.contains(c) <==> 0 <= c < n,
    {
        let mut elems: Vec<usize> = Vec::new();
        let mut pos: Vec<Option<usize>> = Vec::new();
        let mut i: usize = 0;
        while i < n
            invariant
                i <= n,
                elems@.len() == i,
                pos@.len() == i,
                forall|k: int| 0 <= k < i ==> (#[trigger] elems@[k]) == k,
                forall|k: int| 0 <= k < i ==> (#[trigger] pos@[k]) == Some(k as usize),
            decreases n - i,
        {
            elems.push(i);
            pos.push(Some(i));
            i = i + 1;
        }
        Self { elems, pos }
    }

    /// Swap-removes the element at a known position in the element vector and
    /// repairs the reverse index for the element moved into the vacated slot.
    fn remove_at(&mut self, index: usize) -> (c: usize)
        requires
            old(self).wf(),
            index < old(self).len(),
        ensures
            final(self).wf(),
            old(self).contains(c as int),
            !final(self).contains(c as int),
            final(self).domain() == old(self).domain(),
            final(self).len() == old(self).len() - 1,
            forall|d: int| d != c ==> final(self).contains(d) == old(self).contains(d),
            c == old(self).elems@[index as int],
    {
        let ghost old_elems = self.elems@;
        let ghost old_pos = self.pos@;
        let ghost n = old_elems.len() as int;
        proof {
            // Distinct positions hold distinct elements: the reverse index
            // maps each to its own position.
            assert forall|i: int, j: int|
                0 <= i < n && 0 <= j < n && i != j implies old_elems[i] != old_elems[j] by {
                assert(old_pos[old_elems[i] as int]->0 == i);
                assert(old_pos[old_elems[j] as int]->0 == j);
            }
        }
        let c = self.elems.swap_remove(index);
        proof {
            assert(old_elems[index as int] < old_pos.len());
        }
        self.pos[c] = None;
        if index < self.elems.len() {
            let moved = self.elems[index];
            proof {
                assert(moved == old_elems[n - 1]);
                assert(moved != c);
            }
            self.pos[moved] = Some(index);
        }
        proof {
            let new_elems = self.elems@;
            let new_pos = self.pos@;
            assert forall|i: int| 0 <= i < new_elems.len() implies {
                &&& (#[trigger] new_elems[i]) < new_pos.len()
                &&& new_pos[new_elems[i] as int] is Some
                &&& new_pos[new_elems[i] as int]->0 == i
            } by {
                if i == index {
                    assert(new_elems[i] == old_elems[n - 1]);
                } else {
                    assert(new_elems[i] == old_elems[i]);
                    assert(old_elems[i] != c);
                    assert(old_elems[i] != old_elems[n - 1]);
                    assert(old_pos[old_elems[i] as int] == Some(i as usize));
                }
            }
            assert forall|d: int|
                0 <= d < new_pos.len() && (#[trigger] new_pos[d]) is Some implies {
                &&& (new_pos[d]->0 as int) < new_elems.len()
                &&& new_elems[new_pos[d]->0 as int] == d
            } by {
                assert(d != c);
                if index < n - 1 && d == old_elems[n - 1] {
                    assert(new_pos[d] == Some(index));
                    assert(new_elems[index as int] == d);
                } else {
                    assert(new_pos[d] == old_pos[d]);
                    let j = old_pos[d]->0 as int;
                    assert(old_elems[j] == d);
                    assert(j != index);
                    assert(j != n - 1);
                    assert(new_elems[j] == old_elems[j]);
                }
            }
        }
        c
    }

    /// Removes and returns a random element, chosen uniformly by `rng`;
    /// returns `None` exactly when the set is empty.
    pub fn remove_random(&mut self, rng: &mut StdRng) -> (r: Option<usize>)
        requires
            old(self).wf(),
        ensures
            final(self).wf(),
            final(self).domain() == old(self).domain(),
            old(self).len() == 0 ==> r is None && *final(self) == *old(self),
            old(self).len() > 0 ==> {
                &&& r is Some
                &&& old(self).contains(r->0 as int)
                &&& !final(self).contains(r->0 as int)
                &&& final(self).len() == old(self).len() - 1
                &&& forall|d: int| d != r->0 ==> final(self).contains(d) == old(self).contains(d)
            },
    {
        if self.elems.len() == 0 {
            return None;
        }
        let index = random_in_range(rng, 0, self.elems.len() - 1);
        let c = self.remove_at(index);
        Some(c)
    }

    /// Removes a specific element by key; returns whether it was present.
    pub fn remove(&mut self, c: usize) -> (r: bool)
        requires
            old(self).wf(),
        ensures
            final(self).wf(),
            final(self).domain() == old(self).domain(),
            r == old(self).contains(c as int),
            !final(self).contains(c as int),
            forall|d: int| d != c ==> final(self).contains(d) == old(self).contains(d),
            r ==> final(self).len() == old(self).len() - 1,
            !r ==> *final(self) == *old(self),
    {
        if c >= self.pos.len() {
            return false;
        }
        match self.pos[c] {
            Some(index) => {
                let removed = self.remove_at(index);
                proof {
                    assert(removed == c);
                }
                true
            }
            None => false,
        }
    }
}

} // verus!
