//! The access controller: one privileged identity that gates every call
//! which changes an engine.

use vstd::prelude::*;
use crate::error::EngineError;
use crate::identity::{Caller, Identity};

verus! {

/// Whether a controller whose admin is `admin` lets `caller` through: an
/// admin is set, the caller claims to be that admin, and the host has proven
/// the claim.
pub open spec fn admits(admin: Option<Identity>, caller: Caller) -> bool {
    caller.proven && admin == Some(caller.identity)
}

/// Holds the admin of an engine.
///
/// The admin is absent until `initialize` sets it. From then on it is never
/// removed, and only the admin itself can put another identity in its place.
#[derive(Clone, Copy, Debug)]
pub struct AccessController {
    admin: Option<Identity>,
}

impl View for AccessController {
    type V = Option<Identity>;

    /// The admin, if one has been set.
    closed spec fn view(&self) -> Option<Identity> {
        self.admin
    }
}

impl AccessController {
    /// A controller without an admin.
    pub fn new() -> (controller: AccessController)
        ensures
            controller@ is None,
    {
        AccessController { admin: None }
    }

    /// A controller in the state `admin`, as read back from a store.
    pub fn restore(admin: Option<Identity>) -> (controller: AccessController)
        ensures
            controller@ == admin,
    {
        AccessController { admin }
    }

    /// Sets the first admin.
    ///
    /// Fails with `AlreadyInitialized`, and changes nothing, when an admin is
    /// already set.
    pub fn initialize(&mut self, admin: Identity) -> (r: Result<(), EngineError>)
        ensures
            old(self)@ is None ==> r is Ok && final(self)@ == Some(admin),
            old(self)@ is Some ==> r == Err::<(), EngineError>(EngineError::AlreadyInitialized)
                && final(self)@ == old(self)@,
    {
        match self.admin {
            Some(_) => Err(EngineError::AlreadyInitialized),
            None => {
                self.admin = Some(admin);
                Ok(())
            },
        }
    }

    /// Lets the call go on only for the proven admin.
    ///
    /// Returns `Ok` exactly when `admits(self@, caller)`, and `Unauthorized`
    /// otherwise: when no admin is set, when the caller is someone else, and
    /// when the host has not proven the caller's claim.
    pub fn require_admin(&self, caller: &Caller) -> (r: Result<(), EngineError>)
        ensures
            admits(self@, *caller) ==> r is Ok,
            !admits(self@, *caller) ==> r == Err::<(), EngineError>(EngineError::Unauthorized),
    {
        match self.admin {
            Some(admin) => {
                if caller.proven && admin.same_as(&caller.identity) {
                    Ok(())
                } else {
                    Err(EngineError::Unauthorized)
                }
            },
            None => Err(EngineError::Unauthorized),
        }
    }

    /// Hands the admin role to `new_admin`.
    ///
    /// Only the proven admin may do so; for any other caller the call fails
    /// with `Unauthorized` and the admin stays.
    pub fn set_admin(&mut self, caller: &Caller, new_admin: Identity) -> (r: Result<
        (),
        EngineError,
    >)
        ensures
            admits(old(self)@, *caller) ==> r is Ok && final(self)@ == Some(new_admin),
            !admits(old(self)@, *caller) ==> r == Err::<(), EngineError>(
                EngineError::Unauthorized,
            ) && final(self)@ == old(self)@,
    {
        match self.require_admin(caller) {
            Ok(()) => {
                self.admin = Some(new_admin);
                Ok(())
            },
            Err(e) => Err(e),
        }
    }

    /// The admin, or `None` before `initialize`.
    pub fn get_admin(&self) -> (admin: Option<Identity>)
        ensures
            admin == self@,
    {
        self.admin
    }
}

} // verus!
