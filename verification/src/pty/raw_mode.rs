//! The guard of the terminal's raw mode: it keeps the settings that were in
//! force before, so that they can be put back.

use vstd::prelude::*;

verus! {

/// What is to be done to the terminal.
#[derive(Debug, Clone, Copy, PartialEq, Eq)]
pub enum RawAction {
    /// Read the settings, keep them, and make the terminal raw.
    Engage,
    /// Put the kept settings back.
    Restore,
    /// Nothing: the terminal is as asked already.
    Nothing,
}

/// The settings of the terminal from before it was made raw, held while it
/// is raw. `S` is the type of the settings.
pub struct RawGuard<S> {
    prior: Option<S>,
}

impl<S> RawGuard<S> {
    /// The settings that the guard holds.
    pub closed spec fn snapshot(self) -> Option<S> {
        self.prior
    }

    /// A guard that holds nothing: the terminal is not raw.
    pub fn new() -> (guard: Self)
        ensures
            guard.snapshot() is None,
    {
        RawGuard { prior: None }
    }

    /// A guard that holds what `prior` holds.
    pub fn holding(prior: Option<S>) -> (guard: Self)
        ensures
            guard.snapshot() == prior,
    {
        RawGuard { prior }
    }

    /// Whether the guard holds settings: whether the terminal is raw.
    pub fn is_engaged(&self) -> (r: bool)
        ensures
            r == self.snapshot() is Some,
    {
        self.prior.is_some()
    }

    /// Keeps `current`, the settings read before the terminal is made raw.
    /// A guard that holds settings already keeps those and says `false`:
    /// the terminal must not be read again.
    pub fn engage(&mut self, current: S) -> (kept: bool)
        ensures
            final(self).snapshot() == keep_first(old(self).snapshot(), current),
            kept == old(self).snapshot() is None,
    {
        if self.prior.is_some() {
            false
        } else {
            self.prior = Some(current);
            true
        }
    }

    /// Hands out the settings to put back, and holds nothing afterwards.
    pub fn release(&mut self) -> (prior: Option<S>)
        ensures
            prior == old(self).snapshot(),
            final(self).snapshot() is None,
    {
        self.prior.take()
    }
}

/// What a guard holds after it is handed `current`: what it held before,
/// if it held anything.
pub open spec fn keep_first<S>(held: Option<S>, current: S) -> Option<S> {
    match held {
        Some(kept) => Some(kept),
        None => Some(current),
    }
}

/// What a request for raw mode has to do: nothing where the guard holds
/// settings already.
pub fn set_raw<S>(guard: &RawGuard<S>) -> (action: RawAction)
    ensures
        action == if guard.snapshot() is Some {
            RawAction::Nothing
        } else {
            RawAction::Engage
        },
{
    if guard.is_engaged() {
        RawAction::Nothing
    } else {
        RawAction::Engage
    }
}

/// What a request to leave raw mode has to do: nothing where the guard
/// holds no settings.
pub fn no_raw<S>(guard: &RawGuard<S>) -> (action: RawAction)
    ensures
        action == if guard.snapshot() is Some {
            RawAction::Restore
        } else {
            RawAction::Nothing
        },
{
    if guard.is_engaged() {
        RawAction::Restore
    } else {
        RawAction::Nothing
    }
}

/// What a toggle has to do: engage where the guard holds no settings,
/// restore where it holds some.
pub fn raw_mode<S>(guard: &RawGuard<S>) -> (action: RawAction)
    ensures
        action == if guard.snapshot() is Some {
            RawAction::Restore
        } else {
            RawAction::Engage
        },
{
    if guard.is_engaged() {
        no_raw(guard)
    } else {
        set_raw(guard)
    }
}

/// Engaging twice keeps the settings of the first time: what is put back in
/// the end is what was in force before the terminal was first made raw.
pub proof fn law_first_settings_return<S>(first: S, second: S)
    ensures
        keep_first(keep_first(None, first), second) == Some(first),
{
}

} // verus!
