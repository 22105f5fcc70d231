//! Equivalence classes over a dense range of indices, kept as a forest of
//! parent links: each class is a tree, and its root stands for it.

use vstd::prelude::*;

verus! {

/// A partition of the indices `0 .. len()` into classes.
pub struct Classes {
    parent: Vec<usize>,
    /// For each index an upper bound on its height: it grows along the
    /// parent links, so following them ends.
    height: Ghost<Seq<nat>>,
    /// A bound on every height.
    top: Ghost<nat>,
}

impl Classes {
    /// Every parent link stays in range and leads upwards.
    pub closed spec fn wf(&self) -> bool {
        &&& self.height@.len() == self.parent@.len()
        &&& forall|i: int| 0 <= i < self.height@.len() ==> #[trigger] self.height@[i] <= self.top@
        &&& forall|i: int|
            0 <= i < self.parent@.len() ==> {
                &&& (#[trigger] self.parent@[i]) < self.parent@.len()
                &&& (self.parent@[i] != i ==> self.height@[i]
                    < self.height@[self.parent@[i] as int])
            }
    }

    /// The number of indices.
    pub closed spec fn len(&self) -> nat {
        self.parent@.len()
    }

    /// The end of the parent links that start at `i`.
    spec fn root(&self, i: int) -> int
        decreases self.top@ - self.height@[i],
        when self.wf() && 0 <= i < self.parent@.len()
    {
        if self.parent@[i] == i {
            i
        } else {
            self.root(self.parent@[i] as int)
        }
    }

    /// The index that stands for the class of `i`.
    pub closed spec fn rep(&self, i: int) -> int {
        self.root(i)
    }

    /// Whether `i` and `j` are in one class.
    pub open spec fn same(&self, i: int, j: int) -> bool {
        self.rep(i) == self.rep(j)
    }

    /// The map from each index to the index that stands for its class.
    pub open spec fn reps(&self) -> spec_fn(int) -> int {
        |i: int| self.rep(i)
    }

    /// The map `reps` with the class of `a` merged into that of `b`: the
    /// indices for which the representative of `a` stood are stood for by the
    /// representative of `b`, and every other index keeps its own.
    pub open spec fn merge(reps: spec_fn(int) -> int, a: int, b: int) -> spec_fn(int) -> int {
        |i: int|
            if reps(i) == reps(a) {
                reps(b)
            } else {
                reps(i)
            }
    }

    /// Whether `reps` gives the representative of each index.
    pub open spec fn follows(&self, reps: spec_fn(int) -> int) -> bool {
        forall|i: int| 0 <= i < self.len() ==> #[trigger] self.rep(i) == reps(i)
    }

    /// Whether `after` is `before` with the class of `a` merged into that of
    /// `b`.
    pub open spec fn merged(before: Classes, after: Classes, a: int, b: int) -> bool {
        &&& after.len() == before.len()
        &&& after.follows(Self::merge(before.reps(), a, b))
    }

    /// Merging two classes a second time changes nothing: the classes after
    /// the second merge of `a` and `b` are those after the first.
    pub proof fn lemma_merge_twice(first: Classes, second: Classes, third: Classes, a: int, b: int)
        requires
            0 <= a < first.len(),
            0 <= b < first.len(),
            Self::merged(first, second, a, b),
            Self::merged(second, third, a, b),
        ensures
            forall|i: int| 0 <= i < first.len() ==> #[trigger] third.rep(i) == second.rep(i),
            forall|i: int, j: int|
                0 <= i < first.len() && 0 <= j < first.len() ==> #[trigger] third.same(i, j)
                    == second.same(i, j),
    {
        assert(second.rep(a) == first.rep(b));
        assert(second.rep(b) == first.rep(b));
    }

    /// Merging the class of `a` into that of `b` joins exactly these two
    /// classes: two indices are in one class afterwards where they were
    /// before, or where one was with `a` and the other with `b`.
    pub proof fn lemma_merge_joins(before: Classes, after: Classes, a: int, b: int, i: int, j: int)
        requires
            0 <= i < before.len(),
            0 <= j < before.len(),
            Self::merged(before, after, a, b),
        ensures
            after.same(i, j) == (before.same(i, j) || (before.same(i, a) && before.same(j, b)) || (
            before.same(i, b) && before.same(j, a))),
    {
    }

    /// The representative of a class is in range and stands for itself.
    pub proof fn lemma_rep(&self, i: int)
        requires
            self.wf(),
            0 <= i < self.len(),
        ensures
            0 <= self.rep(i) < self.len(),
            self.rep(self.rep(i)) == self.rep(i),
    {
        self.lemma_root_is_fixed(i);
    }

    /// `n` indices, each in a class of its own.
    pub fn new(n: usize) -> (c: Classes)
        ensures
            c.wf(),
            c.len() == n,
            forall|i: int| 0 <= i < n ==> #[trigger] c.rep(i) == i,
    {
        let mut parent: Vec<usize> = Vec::new();
        let mut i: usize = 0;
        while i < n
            invariant
                i <= n,
                parent@.len() == i,
                forall|j: int| 0 <= j < i ==> #[trigger] parent@[j] == j,
            decreases n - i,
        {
            parent.push(i);
            i += 1;
        }
        let c = Classes {
            parent,
            height: Ghost(Seq::new(n as nat, |j: int| 0nat)),
            top: Ghost(0nat),
        };
        assert forall|j: int| 0 <= j < n implies #[trigger] c.rep(j) == j by {
            assert(c.parent@[j] == j);
        }
        c
    }

    /// The number of indices.
    pub fn size(&self) -> (n: usize)
        ensures
            n == self.len(),
    {
        self.parent.len()
    }

    /// Finds the representative of the class of `i`.
    pub fn find(&self, i: usize) -> (r: usize)
        requires
            self.wf(),
            i < self.len(),
        ensures
            r == self.rep(i as int),
            r < self.len(),
    {
        let mut cur: usize = i;
        while self.parent[cur] != cur
            invariant
                self.wf(),
                cur < self.parent@.len(),
                self.rep(cur as int) == self.rep(i as int),
            decreases self.top@ - self.height@[cur as int],
        {
            cur = self.parent[cur];
        }
        cur
    }

    /// Merges the class of `a` into the class of `b`: every index whose
    /// representative was that of `a` gets that of `b`, and no other changes.
    pub fn union(&mut self, a: usize, b: usize)
        requires
            old(self).wf(),
            a < old(self).len(),
            b < old(self).len(),
        ensures
            final(self).wf(),
            Self::merged(*old(self), *final(self), a as int, b as int),
    {
        let ra = self.find(a);
        let rb = self.find(b);
        if ra != rb {
            let ghost before = *self;
            proof {
                before.lemma_rep(a as int);
                before.lemma_rep(b as int);
            }
            self.parent[ra] = rb;
            proof {
                let lifted = if before.height@[rb as int] > before.height@[ra as int] {
                    before.height@[rb as int]
                } else {
                    before.height@[ra as int] + 1
                };
                self.height@ = before.height@.update(rb as int, lifted as nat);
                self.top@ = before.top@ + 1;
                assert(before.parent@[ra as int] == ra) by {
                    before.lemma_root_is_fixed(a as int);
                }
                assert(before.parent@[rb as int] == rb) by {
                    before.lemma_root_is_fixed(b as int);
                }
                assert(self.wf());
                assert forall|i: int| 0 <= i < before.len() implies #[trigger] self.rep(i) == (
                if before.rep(i) == ra {
                    rb as int
                } else {
                    before.rep(i)
                }) by {
                    Self::lemma_linked(before, *self, ra as int, rb as int, i);
                }
            }
        }
    }

    /// The representative of a class has no parent but itself.
    proof fn lemma_root_is_fixed(&self, i: int)
        requires
            self.wf(),
            0 <= i < self.len(),
        ensures
            0 <= self.rep(i) < self.len(),
            self.parent@[self.rep(i)] == self.rep(i),
        decreases self.top@ - self.height@[i],
    {
        if self.parent@[i] != i {
            self.lemma_root_is_fixed(self.parent@[i] as int);
        }
    }

    /// Where `after` is `before` with the root `ra` hung below the root `rb`,
    /// the indices that `ra` stood for are now stood for by `rb`, and every
    /// other index keeps its representative.
    proof fn lemma_linked(before: Classes, after: Classes, ra: int, rb: int, i: int)
        requires
            before.wf(),
            after.wf(),
            0 <= ra < before.len(),
            0 <= rb < before.len(),
            ra != rb,
            before.parent@[ra] == ra,
            before.parent@[rb] == rb,
            after.parent@ == before.parent@.update(ra, rb as usize),
            0 <= i < before.len(),
        ensures
            after.rep(i) == (if before.rep(i) == ra {
                rb
            } else {
                before.rep(i)
            }),
        decreases before.top@ - before.height@[i],
    {
        if i == ra {
            assert(after.parent@[ra] == rb);
            assert(after.parent@[rb] == rb);
            assert(after.rep(rb) == rb);
            assert(after.rep(ra) == after.rep(rb));
            assert(before.rep(ra) == ra);
        } else if before.parent@[i] == i {
            assert(after.parent@[i] == i);
        } else {
            assert(after.parent@[i] == before.parent@[i]);
            Self::lemma_linked(before, after, ra, rb, before.parent@[i] as int);
        }
    }
}

} // verus!
