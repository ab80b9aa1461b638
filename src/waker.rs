//! Wakeup handles that count how often they have been invoked.

use vstd::prelude::*;

verus! {

/// A `Waker`, with the number of times this library has invoked it. Only
/// [`wake`] raises that number.
pub struct WakeHandle {
    waker: std::task::Waker,
    wakes: Ghost<nat>,
}

impl WakeHandle {
    /// The waker that is invoked.
    pub closed spec fn waker(&self) -> std::task::Waker {
        self.waker
    }

    /// How many times the waker has been invoked through this handle.
    pub closed spec fn wakes(&self) -> nat {
        self.wakes@
    }

    /// A handle over `waker`, not yet invoked.
    pub fn new(waker: std::task::Waker) -> (r: WakeHandle)
        ensures
            r.waker() == waker,
            r.wakes() == 0,
    {
        WakeHandle { waker, wakes: Ghost(0) }
    }
}

/// Relies on `std::task::Waker::wake_by_ref`: resumes the task behind the
/// waker, if any, and is a no-op when none waits. Each call is one
/// invocation of the waker.
#[verifier::external_body]
pub(crate) fn wake(h: &mut WakeHandle)
    ensures
        final(h).waker() == old(h).waker(),
        final(h).wakes() == old(h).wakes() + 1,
{
    h.waker.wake_by_ref()
}

} // verus!
