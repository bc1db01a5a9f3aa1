//! External connection management.
//!
//! A connection manager hands out connections on demand; none may be
//! available at a given moment. `Connection` wraps a manager and polls it
//! until a connection appears, up to a caller-chosen number of attempts.

use vstd::prelude::*;

verus! {

/// A source of connections that may have none to give right now.
pub trait GetConnection {
    type Output;

    /// Try to receive an active connection; `None` means none is available
    /// at the moment and the caller should ask again later.
    fn try_get(&mut self) -> Option<Self::Output>;
}

/// Wraps a connection manager.
pub struct Connection<C: GetConnection> {
    pub inner: C,
}

impl<C: GetConnection> Connection<C> {
    /// Wrap the manager.
    pub fn new(inner: C) -> (r: Self)
        ensures
            r.inner == inner,
    {
        Connection { inner }
    }

    /// Poll the manager until it hands out a connection, at most `attempts`
    /// times; `None` means every attempt came back empty.
    pub fn get(&mut self, attempts: usize) -> (r: Option<C::Output>)
        ensures
            attempts == 0 ==> r is None,
    {
        let mut left = attempts;
        while left > 0
            invariant
                left <= attempts,
            decreases left,
        {
            match self.inner.try_get() {
                Some(conn) => {
                    return Some(conn);
                },
                None => {
                    left = left - 1;
                },
            }
        }
        None
    }
}

} // verus!
