//! The interface a router exposes to the presenter: the three entry points
//! `devices`, `temperature` and `logout`.
//!
//! Each implementation states in its own specification functions what the
//! three calls promise; the exec methods are bound to those promises.

use vstd::prelude::*;

use crate::session::SessionError;
use crate::types::{CmState, LanUserTable};

verus! {

/// Field-value correspondence between two LAN tables.
pub open spec fn table_matches(a: LanUserTable, b: LanUserTable) -> bool {
    a.customer == b.customer && a.total_client == b.total_client && a.wifi.clientinfo@
        == b.wifi.clientinfo@
}

/// A source of snapshots.
pub trait Router: Sized {
    /// What `devices` promises of the state change and the result.
    spec fn devices_ens(&self, post: &Self, r: Result<LanUserTable, SessionError>) -> bool;

    /// What `temperature` promises of the state change and the result.
    spec fn temperature_ens(&self, post: &Self, r: Result<CmState, SessionError>) -> bool;

    /// What `logout` promises of the state change and the result.
    spec fn logout_ens(&self, post: &Self, r: Result<(), SessionError>) -> bool;

    /// Polls the LAN client table.
    fn devices(&mut self) -> (r: Result<LanUserTable, SessionError>)
        ensures
            old(self).devices_ens(final(self), r),
    ;

    /// Polls the modem/temperature reading.
    fn temperature(&mut self) -> (r: Result<CmState, SessionError>)
        ensures
            old(self).temperature_ens(final(self), r),
    ;

    /// Ends the session, best effort.
    fn logout(&mut self) -> (r: Result<(), SessionError>)
        ensures
            old(self).logout_ens(final(self), r),
    ;
}

} // verus!
