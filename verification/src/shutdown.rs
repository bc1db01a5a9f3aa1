//! Hierarchical shutdown signalling.
//!
//! A `Controller` owns a tree of cancellation tokens. Token `0` is the root;
//! every other token is derived from a parent and observes the parent's
//! cancellation. Cancelling a token cancels its whole subtree and never its
//! parent or siblings. Cancellation is idempotent and never undone.

use vstd::prelude::*;

verus! {

/// Token `j` lies in the subtree rooted at token `a`, following parent links.
pub open spec fn is_descendant(parents: Seq<usize>, j: int, a: int) -> bool
    decreases j,
{
    if j == a {
        true
    } else if 1 <= j < parents.len() && parents[j] < j {
        is_descendant(parents, parents[j] as int, a)
    } else {
        false
    }
}

/// State of a tree of cancellation tokens, addressed by id.
///
/// The root has id `0` and is recorded as its own parent; every other token's
/// parent has a smaller id, so parent chains always reach the root.
pub struct Controller {
    pub parents: Vec<usize>,
    pub cancelled: Vec<bool>,
}

impl Controller {
    /// Parent links point to smaller ids and cancellation is closed under
    /// them: a token whose parent is cancelled is itself cancelled.
    pub open spec fn wf(self) -> bool {
        &&& self.parents@.len() == self.cancelled@.len()
        &&& self.parents@.len() >= 1
        &&& self.parents@[0] == 0usize
        &&& forall|j: int| 1 <= j < self.parents@.len() ==> (#[trigger] self.parents@[j]) < j
        &&& forall|j: int|
            1 <= j < self.parents@.len() && self.cancelled@[self.parents@[j] as int]
                ==> #[trigger] self.cancelled@[j]
    }

    pub open spec fn spec_len(self) -> nat {
        self.parents@.len()
    }

    pub open spec fn spec_parents(self) -> Seq<usize> {
        self.parents@
    }

    pub open spec fn spec_cancelled(self, id: int) -> bool {
        self.cancelled@[id]
    }

    /// A fresh tree holding only the root token, not yet cancelled.
    pub fn new() -> (r: Controller)
        ensures
            r.wf(),
            r.spec_len() == 1,
            !r.spec_cancelled(0),
    {
        let mut parents: Vec<usize> = Vec::new();
        let mut cancelled: Vec<bool> = Vec::new();
        parents.push(0);
        cancelled.push(false);
        Controller { parents, cancelled }
    }

    /// Number of tokens issued so far.
    pub fn len(&self) -> (r: usize)
        ensures
            r == self.spec_len(),
    {
        self.parents.len()
    }

    /// Derive a child token of `parent`. The child starts with the parent's
    /// current cancellation state and is cancelled whenever the parent is.
    pub fn child(&mut self, parent: usize) -> (r: usize)
        requires
            old(self).wf(),
            parent < old(self).spec_len(),
        ensures
            final(self).wf(),
            r == old(self).spec_len(),
            final(self).spec_len() == old(self).spec_len() + 1,
            final(self).spec_parents() == old(self).spec_parents().push(parent),
            forall|j: int|
                0 <= j < old(self).spec_len()
                    ==> (#[trigger] final(self).spec_cancelled(j)) == old(self).spec_cancelled(j),
            final(self).spec_cancelled(r as int) == old(self).spec_cancelled(parent as int),
    {
        let id = self.parents.len();
        let was = self.cancelled[parent];
        self.parents.push(parent);
        self.cancelled.push(was);
        id
    }

    /// Whether token `id` has been cancelled; a pending wait on `id`
    /// resolves exactly when this becomes true.
    pub fn is_cancelled(&self, id: usize) -> (r: bool)
        requires
            self.wf(),
            id < self.spec_len(),
        ensures
            r == self.spec_cancelled(id as int),
    {
        self.cancelled[id]
    }

    /// Cancel token `id` and every token in its subtree; all other tokens,
    /// parents and siblings included, keep their state. Idempotent.
    pub fn shutdown(&mut self, id: usize)
        requires
            old(self).wf(),
            id < old(self).spec_len(),
        ensures
            final(self).wf(),
            final(self).spec_len() == old(self).spec_len(),
            final(self).spec_parents() == old(self).spec_parents(),
            forall|j: int|
                0 <= j < old(self).spec_len()
                    ==> (#[trigger] final(self).spec_cancelled(j)) == (old(self).spec_cancelled(j)
                        || is_descendant(old(self).spec_parents(), j, id as int)),
    {
        let ghost parents = self.parents@;
        let ghost before = self.cancelled@;
        let n = self.parents.len();
        self.cancelled[id] = true;
        proof {
            assert forall|k: int| 0 <= k < id implies !is_descendant(parents, k, id as int) by {
                if is_descendant(parents, k, id as int) {
                    lemma_descendant_ge(parents, k, id as int);
                }
            }
        }
        let mut j: usize = id + 1;
        while j < n
            invariant
                id < j <= n,
                n == parents.len(),
                parents == old(self).parents@,
                self.parents@ == parents,
                self.cancelled@.len() == n,
                before.len() == n,
                old(self).wf(),
                before == old(self).cancelled@,
                forall|k: int|
                    0 <= k < j
                        ==> (#[trigger] self.cancelled@[k]) == (before[k] || is_descendant(
                            parents,
                            k,
                            id as int,
                        )),
                forall|k: int| j <= k < n ==> (#[trigger] self.cancelled@[k]) == before[k],
            decreases n - j,
        {
            let ghost snap = self.cancelled@;
            let p = self.parents[j];
            proof {
                assert(p < j);
                lemma_descendant_step(parents, j as int, id as int);
                assert(before[p as int] ==> before[j as int]);
            }
            let pc = self.cancelled[p];
            if pc {
                self.cancelled[j] = true;
            }
            proof {
                assert(self.cancelled@[j as int] == (before[j as int] || is_descendant(
                    parents,
                    j as int,
                    id as int,
                )));
                assert forall|k: int| 0 <= k < j + 1 implies self.cancelled@[k] == (before[k]
                    || is_descendant(parents, k, id as int)) by {
                    if k < j {
                        assert(self.cancelled@[k] == snap[k]);
                        assert(snap[k] == (before[k] || is_descendant(parents, k, id as int)));
                    }
                }
            }
            j += 1;
        }
        proof {
            assert forall|k: int|
                1 <= k < n && self.cancelled@[self.parents@[k] as int] implies self
                .cancelled@[k] by {
                let p = parents[k] as int;
                assert(before[p] ==> before[k]);
                if k != id {
                    lemma_descendant_step(parents, k, id as int);
                } else {
                    assert(is_descendant(parents, k, id as int));
                }
            }
        }
    }
}

/// One step of the subtree relation: for a non-root token other than `a`
/// itself, membership in the subtree of `a` goes through its parent.
proof fn lemma_descendant_step(parents: Seq<usize>, j: int, a: int)
    requires
        1 <= j < parents.len(),
        parents[j] < j,
        j != a,
    ensures
        is_descendant(parents, j, a) == is_descendant(parents, parents[j] as int, a),
{
}

/// A token in the subtree of `a` has an id no smaller than `a`.
proof fn lemma_descendant_ge(parents: Seq<usize>, j: int, a: int)
    requires
        is_descendant(parents, j, a),
    ensures
        j >= a,
    decreases j,
{
    if j != a {
        lemma_descendant_ge(parents, parents[j] as int, a);
    }
}

/// Once the root token is cancelled, every token in the tree is cancelled:
/// every outstanding wait, on the root or on any descendant, resolves.
pub proof fn lemma_root_cancel_reaches_all(c: Controller)
    requires
        c.wf(),
        c.spec_cancelled(0),
    ensures
        forall|j: int| 0 <= j < c.spec_len() ==> c.spec_cancelled(j),
{
    assert forall|j: int| 0 <= j < c.spec_len() implies c.spec_cancelled(j) by {
        lemma_cancel_closure(c, j);
    }
}

proof fn lemma_cancel_closure(c: Controller, j: int)
    requires
        c.wf(),
        c.spec_cancelled(0),
        0 <= j < c.spec_len(),
    ensures
        c.spec_cancelled(j),
    decreases j,
{
    if j > 0 {
        lemma_cancel_closure(c, c.spec_parents()[j] as int);
    }
}

} // verus!
