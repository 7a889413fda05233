use vstd::prelude::*;

verus! {

/// A disposable handle standing for at most one subscription-registry entry.
/// The empty handle stands for no entry at all; releasing a handle through the
/// subject that issued it removes its entry and leaves the handle empty, so a
/// second release finds nothing to do.
pub struct UnsubRef {
    pub id: Option<u64>,
}

impl UnsubRef {
    /// Does this handle still stand for a registry entry?
    pub open spec fn spec_active(self) -> bool {
        self.id is Some
    }

    /// The no-op handle, returned for subscriptions that never registered.
    pub fn empty() -> (u: UnsubRef)
        ensures
            u.id is None,
    {
        UnsubRef { id: None }
    }

    /// A handle for the registry entry with the given identity.
    pub fn active(id: u64) -> (u: UnsubRef)
        ensures
            u.id == Some(id),
    {
        UnsubRef { id: Some(id) }
    }

    pub fn is_active(&self) -> (r: bool)
        ensures
            r == self.spec_active(),
    {
        matches!(self.id, Some(_))
    }
}

} // verus!
