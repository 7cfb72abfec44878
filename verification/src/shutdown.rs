//! The shutdown coordinator: one guard flag shared by the two shutdown
//! triggers — the explicit shutdown request and the host's close event —
//! checked and set as one step, so that only the first trigger acts.

use vstd::prelude::*;

verus! {

/// The process-wide shutdown guard. It transitions from unfired to
/// fired exactly once and never back; the surrounding runtime holds it
/// behind an atomic or a lock so that [`ShutdownFlag::try_fire`] is one
/// indivisible check-and-set.
pub struct ShutdownFlag {
    fired: bool,
}

impl ShutdownFlag {
    /// The flag has been set by some earlier trigger.
    pub closed spec fn is_fired(&self) -> bool {
        self.fired
    }

    pub fn new() -> (f: Self)
        ensures
            !f.is_fired(),
    {
        ShutdownFlag { fired: false }
    }

    /// The check-and-set both triggers go through: sets the flag and
    /// tells the caller whether it was the first to do so.
    pub fn try_fire(&mut self) -> (won: bool)
        ensures
            final(self).is_fired(),
            won == !old(self).is_fired(),
    {
        let won = !self.fired;
        self.fired = true;
        won
    }
}

/// What the host's close interception must do.
#[derive(Debug, PartialEq, Eq, Structural)]
pub enum HostCloseAction {
    /// First close event: hand the actor a shutdown signal, defer the
    /// actual window close until the signal has been dispatched, then
    /// let the host terminate.
    DispatchShutdown,
    /// A trigger already fired: do nothing further and let the close
    /// proceed.
    AllowClose,
}

/// The transition of the host close hook: the flag after the call, and
/// the action the caller must take.
pub open spec fn host_close_step(fired: bool) -> (bool, HostCloseAction) {
    if fired {
        (true, HostCloseAction::AllowClose)
    } else {
        (true, HostCloseAction::DispatchShutdown)
    }
}

/// Decides the host close event, exactly as [`host_close_step`] says:
/// the first close event dispatches the shutdown signal, every later
/// one is a no-op.
pub fn host_close_requested(flag: &mut ShutdownFlag) -> (a: HostCloseAction)
    ensures
        (final(flag).is_fired(), a) == host_close_step(old(flag).is_fired()),
{
    if flag.try_fire() {
        HostCloseAction::DispatchShutdown
    } else {
        HostCloseAction::AllowClose
    }
}

/// Idempotence of the host close hook: from any flag state, a second
/// close event leaves the flag exactly where the first left it and
/// dispatches nothing, so two invocations have the externally
/// observable effect of one — and so does every further one.
pub proof fn lemma_host_close_idempotent(fired: bool)
    ensures
        ({
            let first = host_close_step(fired);
            let second = host_close_step(first.0);
            second.0 == first.0 && second.1 == HostCloseAction::AllowClose
        }),
{
}

} // verus!
