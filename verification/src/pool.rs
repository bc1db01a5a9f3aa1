//! Service pool with least-pending load balancing.
//!
//! A pool wraps `size` interchangeable instances of one service behind a
//! single endpoint. It starts in `Pending` while the instances are created
//! one by one; when all exist it becomes `Ready` and dispatches each call to
//! an instance whose count of in-flight requests is minimal. If any creation
//! step fails the pool becomes `Failed`, a terminal state in which every
//! call is answered with an error and nothing is retried.

use vstd::prelude::*;

verus! {

/// Why a pool cannot serve.
#[derive(Clone, Copy, PartialEq, Eq, Structural, Debug)]
pub enum Error {
    /// An instance's creation step failed.
    Create,
    /// The task that created the instances could not be joined.
    CreateJoin,
    /// The pool is terminally failed: its instances were never all created.
    Failed,
}

/// The three mutually exclusive pool states.
pub enum State {
    /// Batch creation in flight: `created` of `size` instances exist so far.
    Pending { created: usize, size: usize },
    /// All instances exist; `pending` counts the in-flight requests of each.
    Ready { pending: Vec<u64> },
    /// Terminal: creation failed, every call errors from now on.
    Failed,
}

/// Balances requests between multiple instances of one service.
pub struct Pool {
    pub state: State,
}

impl Pool {
    /// While creation is in flight, fewer instances exist than were asked
    /// for.
    pub open spec fn wf(self) -> bool {
        match self.state {
            State::Pending { created, size } => created < size,
            _ => true,
        }
    }

    /// The in-flight counts, meaningful in the `Ready` state.
    pub open spec fn spec_pending(self) -> Seq<u64> {
        self.state->pending@
    }

    /// Begin building a pool of `size` instances; instances are reported one
    /// by one through [`Pool::on_created`]. A pool of size zero has nothing
    /// to create and is ready at once, with no instance to dispatch to.
    pub fn with_size(size: usize) -> (r: Pool)
        ensures
            r.wf(),
            size > 0 ==> (r.state matches State::Pending { created, size: s } && created == 0
                && s == size),
            size == 0 ==> r.state is Ready && r.spec_pending().len() == 0,
    {
        if size == 0 {
            Pool { state: State::Ready { pending: Vec::new() } }
        } else {
            Pool { state: State::Pending { created: 0, size } }
        }
    }

    /// One more instance was created. When the last one arrives the pool
    /// becomes ready, with no request in flight anywhere.
    pub fn on_created(&mut self)
        requires
            old(self).wf(),
            old(self).state is Pending,
        ensures
            final(self).wf(),
            ({
                let created = old(self).state->created;
                let size = old(self).state->size;
                if created + 1 == size {
                    &&& final(self).state is Ready
                    &&& final(self).spec_pending().len() == size
                    &&& forall|k: int|
                        0 <= k < size ==> (#[trigger] final(self).spec_pending()[k]) == 0
                } else {
                    final(self).state matches State::Pending { created: c, size: s } && c == created
                        + 1 && s == size
                }
            }),
    {
        let (created, size) = match &self.state {
            State::Pending { created, size } => (*created, *size),
            _ => vstd::pervasive::unreached(),
        };
        if created + 1 == size {
            let mut pending: Vec<u64> = Vec::new();
            let mut k: usize = 0;
            while k < size
                invariant
                    k <= size,
                    pending@.len() == k,
                    forall|q: int| 0 <= q < k ==> (#[trigger] pending@[q]) == 0,
                decreases size - k,
            {
                pending.push(0);
                k += 1;
            }
            self.state = State::Ready { pending };
        } else {
            self.state = State::Pending { created: created + 1, size };
        }
    }

    /// An instance's creation failed: the whole batch is abandoned and the
    /// pool is terminally failed, whatever position the failure happened at.
    pub fn on_create_failed(&mut self)
        requires
            old(self).state is Pending,
        ensures
            final(self).wf(),
            final(self).state is Failed,
    {
        self.state = State::Failed;
    }

    /// Whether a call can be dispatched now. A pool still being built is not
    /// ready; a failed pool answers with the terminal error instead, as it
    /// does for every later call.
    pub fn ready(&self) -> (r: Result<bool, Error>)
        ensures
            self.state is Failed ==> r == Err::<bool, Error>(Error::Failed),
            self.state is Pending ==> r == Ok::<bool, Error>(false),
            self.state is Ready ==> r == Ok::<bool, Error>(self.spec_pending().len() > 0),
    {
        match &self.state {
            State::Pending { .. } => Ok(false),
            State::Ready { pending } => Ok(pending.len() > 0),
            State::Failed => Err(Error::Failed),
        }
    }

    /// Dispatch a call: pick an instance whose in-flight count is minimal
    /// among all instances at this moment, and count the new request against
    /// it. Returns the chosen instance's index. A counter already at the
    /// machine's limit saturates there rather than overflowing.
    pub fn call(&mut self) -> (idx: usize)
        requires
            old(self).wf(),
            old(self).state is Ready,
            old(self).spec_pending().len() > 0,
        ensures
            final(self).wf(),
            final(self).state is Ready,
            idx < old(self).spec_pending().len(),
            forall|k: int|
                0 <= k < old(self).spec_pending().len() ==> old(self).spec_pending()[idx as int]
                    <= (#[trigger] old(self).spec_pending()[k]),
            final(self).spec_pending() == old(self).spec_pending().update(
                idx as int,
                (if old(self).spec_pending()[idx as int] == u64::MAX {
                    u64::MAX
                } else {
                    (old(self).spec_pending()[idx as int] + 1) as u64
                }),
            ),
    {
        match &mut self.state {
            State::Ready { pending } => {
                let n = pending.len();
                let mut best: usize = 0;
                let mut k: usize = 1;
                while k < n
                    invariant
                        1 <= k <= n,
                        best < k,
                        n == pending@.len(),
                        forall|q: int|
                            0 <= q < k ==> pending@[best as int] <= (#[trigger] pending@[q]),
                    decreases n - k,
                {
                    if pending[k] < pending[best] {
                        best = k;
                    }
                    k += 1;
                }
                let cur = pending[best];
                if cur < u64::MAX {
                    pending[best] = cur + 1;
                } else {
                    proof {
                        assert(pending@.update(best as int, u64::MAX) =~= pending@);
                    }
                }
                best
            },
            _ => vstd::pervasive::unreached(),
        }
    }

    /// A dispatched request finished, successfully or not: stop counting it
    /// against the instance that served it.
    pub fn complete(&mut self, idx: usize)
        requires
            old(self).state is Ready,
            idx < old(self).spec_pending().len(),
            old(self).spec_pending()[idx as int] > 0,
        ensures
            final(self).wf(),
            final(self).state is Ready,
            final(self).spec_pending() == old(self).spec_pending().update(
                idx as int,
                (old(self).spec_pending()[idx as int] - 1) as u64,
            ),
    {
        match &mut self.state {
            State::Ready { pending } => {
                let cur = pending[idx];
                pending[idx] = cur - 1;
            },
            _ => vstd::pervasive::unreached(),
        }
    }
}

/// Wraps a service factory so that `size` instances are pooled behind one
/// endpoint; `target` is the value handed to the factory for each instance.
pub struct Layer<Target> {
    pub size: usize,
    pub target: Target,
}

impl<Target> Layer<Target> {
    /// Remember the pool size and the factory target.
    pub fn with_size(size: usize, target: Target) -> (r: Layer<Target>)
        ensures
            r.size == size,
            r.target == target,
    {
        Layer { size, target }
    }

    /// Start a pool of the configured size.
    pub fn layer(&self) -> (r: Pool)
        ensures
            r.wf(),
            self.size > 0 ==> (r.state matches State::Pending { created, size } && created == 0
                && size == self.size),
            self.size == 0 ==> r.state is Ready && r.spec_pending().len() == 0,
    {
        Pool::with_size(self.size)
    }
}

} // verus!
