//! Who asks.

use vstd::prelude::*;

verus! {

/// What a caller's identity is good for.
#[derive(Clone, Copy, Debug, PartialEq, Eq, Structural)]
pub struct Identity {
    /// The database acts for itself.
    pub system: bool,
    /// The caller administers the deployment.
    pub admin: bool,
}

impl Identity {
    /// Whether operations on the whole database are open to the caller.
    pub open spec fn is_privileged(self) -> bool {
        self.system || self.admin
    }

    /// The identity of the database itself.
    pub fn system() -> (identity: Identity)
        ensures
            identity.system,
            !identity.admin,
    {
        Identity { system: true, admin: false }
    }

    pub fn is_system(&self) -> (system: bool)
        ensures
            system == self.system,
    {
        self.system
    }

    pub fn is_admin(&self) -> (admin: bool)
        ensures
            admin == self.admin,
    {
        self.admin
    }
}

} // verus!
