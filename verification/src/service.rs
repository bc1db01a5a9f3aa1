//! Service lookup for sessions.
//!
//! Each accepted connection obtains its handler by reading the bound
//! service out of the frozen registry. A service that was declared but
//! never became available is reported as not ready, by name, instead of
//! letting the connection hang; a stored value of the wrong type is an
//! error of its own.

use crate::registry::{Instance, Type};
use vstd::prelude::*;

verus! {

/// The named service was declared but is not available.
#[derive(Debug)]
pub struct NotReady(pub String);

/// Why a connection could not obtain its service.
#[derive(Debug)]
pub enum ConnectionError {
    /// No entry under the service's key: the service never became ready.
    NotReady(NotReady),
    /// The entry exists but holds a value of another type.
    WrongType,
}

/// A stable numeric identity for a service type, used as the registry tag.
pub trait Named {
    /// The identity; equal exactly for values standing for the same type.
    fn name() -> (r: u64);
}

/// Fetch the service bound to `key` for a new connection. Succeeds exactly
/// when the registry holds an entry under `key` whose tag is `tag`; a
/// missing entry is reported as the service not being ready, under its
/// name, and a mismatched tag as a wrong type.
pub fn connection_service(reg: &Type, key: &String, tag: u64) -> (r: Result<
    Instance,
    ConnectionError,
>)
    requires
        reg.wf(),
    ensures
        reg.spec_contains(key@) && reg.spec_value(key@).tag == tag ==> r == Ok::<
            Instance,
            ConnectionError,
        >(reg.spec_value(key@)),
        !reg.spec_contains(key@) ==> (r matches Err(e) && e matches ConnectionError::NotReady(n)
            && n.0@ == key@),
        reg.spec_contains(key@) && reg.spec_value(key@).tag != tag ==> r == Err::<
            Instance,
            ConnectionError,
        >(ConnectionError::WrongType),
{
    match reg.get(key, tag) {
        Ok(Some(instance)) => Ok(*instance),
        Ok(None) => Err(ConnectionError::NotReady(NotReady(key.clone()))),
        Err(_) => Err(ConnectionError::WrongType),
    }
}

} // verus!
