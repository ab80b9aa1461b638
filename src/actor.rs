//! The reactor: a polling handle and the registry of what is registered
//! with it.

use vstd::prelude::*;

use crate::dispatch::{dispatched, lemma_dispatched_bounded, lemma_unregistered_token_never_woken, reads, writes, Readiness};
use crate::poller::{self, without_source, OsRegistration, Poller};
use crate::registry::{
    both_edge, first_free, lemma_issued_tokens_distinct, next_after, tracks, woken_by, EventInfo, RegisterError,
    Registry,
};

verus! {

/// The most readiness reports taken from the polling handle in one cycle.
pub const EVENT_BATCH: usize = 1024;

/// A reactor over `mio::Poll`. Every operation takes `&mut self`, so access
/// to the registry is exclusive for the whole of each call.
pub struct Actor {
    registry: Registry,
    poller: Poller,
}

impl Actor {
    /// The reactor's registry.
    pub closed spec fn registry(&self) -> Registry {
        self.registry
    }

    /// The reactor's polling handle.
    pub closed spec fn poller(&self) -> Poller {
        self.poller
    }

    /// The registry is well formed, and every registration with the polling
    /// handle is a live entry, under the same token and with the same source.
    pub open spec fn wf(&self) -> bool {
        &&& self.registry().wf()
        &&& tracks(self.registry().entries(), self.poller().registered())
    }

    /// Opens a polling handle; the reactor starts with nothing registered.
    pub fn new() -> (r: std::io::Result<Actor>)
        ensures
            r matches Ok(a) ==> {
                &&& a.wf()
                &&& a.registry().entries() == Map::<usize, EventInfo>::empty()
                &&& a.registry().next_token() == 0
                &&& a.poller().registered() == Map::<usize, OsRegistration>::empty()
            },
    {
        let poller = Poller::new()?;
        Ok(Actor { registry: Registry::new(), poller })
    }

    /// Registers a source and its two wakeup handles with the polling handle
    /// and records it; see [`Registry::register`] for the token chosen and
    /// the failures.
    pub fn register(&mut self, ev_info: EventInfo) -> (r: Result<usize, RegisterError>)
        requires
            old(self).wf(),
        ensures
            final(self).wf(),
            forall|k: usize| #[trigger] final(self).registry().entries().contains_key(k) ==> k < usize::MAX,
            (r matches Err(RegisterError::Exhausted)) <==> old(self).registry().entries().len() == usize::MAX,
            r matches Err(RegisterError::Exhausted) ==> final(self).registry() == old(self).registry(),
            r is Err ==> final(self).poller().registered() == old(self).poller().registered(),
            r matches Err(RegisterError::Os(_)) ==> {
                &&& final(self).registry().entries() == old(self).registry().entries()
                &&& exists|t: usize|
                    first_free(old(self).registry().entries().dom(), old(self).registry().next_token(), t)
                        && final(self).registry().next_token() == #[trigger] next_after(t)
            },
            r matches Ok(t) ==> {
                &&& t < usize::MAX
                &&& first_free(old(self).registry().entries().dom(), old(self).registry().next_token(), t)
                &&& final(self).registry().entries() == old(self).registry().entries().insert(t, ev_info)
                &&& final(self).registry().next_token() == next_after(t)
                &&& final(self).poller().registered() == without_source(
                    old(self).poller().registered(),
                    ev_info.ev,
                ).insert(t, both_edge(ev_info.ev))
            },
    {
        self.registry.register(ev_info, &mut self.poller)
    }

    /// Removes the registration under `token`; see [`Registry::deregister`].
    pub fn deregister(&mut self, token: usize) -> (r: std::io::Result<bool>)
        requires
            old(self).wf(),
        ensures
            final(self).wf(),
            forall|k: usize| #[trigger] final(self).registry().entries().contains_key(k) ==> k < usize::MAX,
            final(self).registry().next_token() == old(self).registry().next_token(),
            (r matches Ok(false)) <==> !old(self).registry().entries().contains_key(token),
            r matches Ok(true) ==> {
                &&& final(self).registry().entries() == old(self).registry().entries().remove(token)
                &&& final(self).poller().registered() == without_source(
                    old(self).poller().registered(),
                    old(self).registry().entries()[token].ev,
                )
                &&& !final(self).poller().registered().contains_key(token)
            },
            !(r matches Ok(true)) ==> {
                &&& final(self).registry().entries() == old(self).registry().entries()
                &&& final(self).poller().registered() == old(self).poller().registered()
            },
    {
        self.registry.deregister(token, &mut self.poller)
    }

    /// Waits for readiness, for at most `timeout` when one is given, takes at
    /// most `EVENT_BATCH` reports and dispatches them as
    /// [`Registry::dispatch`] does. Returns how many reports named a
    /// registered token. Fails only when the poll does, and then nothing is
    /// dispatched.
    pub fn wait_all_events(&mut self, timeout: Option<std::time::Duration>) -> (r: std::io::Result<usize>)
        requires
            old(self).wf(),
        ensures
            final(self).wf(),
            final(self).registry().entries().dom() == old(self).registry().entries().dom(),
            final(self).registry().next_token() == old(self).registry().next_token(),
            final(self).poller().registered() == old(self).poller().registered(),
            r is Err ==> final(self).registry() == old(self).registry(),
            r matches Ok(n) ==> n <= EVENT_BATCH,
            r matches Ok(n) ==> exists|events: Seq<Readiness>|
                {
                    &&& events.len() <= EVENT_BATCH
                    &&& n == dispatched(old(self).registry().entries().dom(), events)
                    &&& forall|t: usize|
                        #[trigger] old(self).registry().entries().contains_key(t) ==> woken_by(
                            old(self).registry().entries()[t],
                            final(self).registry().entries()[t],
                            reads(old(self).registry().entries().dom(), events, t),
                            writes(old(self).registry().entries().dom(), events, t),
                        )
                },
    {
        let events = poller::poll_ready(&self.poller, EVENT_BATCH, timeout)?;
        let n = self.registry.dispatch(&events);
        proof {
            lemma_dispatched_bounded(old(self).registry().entries().dom(), events@);
        }
        Ok(n)
    }
}

/// Tokens returned by a run of successful registrations on a reactor, with
/// no deregistration in between, are pairwise distinct. Step `i` of the run
/// takes `actors[i]` to `actors[i + 1]` and returns `tokens[i]`, as
/// [`Actor::register`] states of an `Ok` result.
pub proof fn lemma_registered_tokens_distinct(actors: Seq<Actor>, tokens: Seq<usize>)
    requires
        actors.len() == tokens.len() + 1,
        forall|i: int|
            0 <= i < tokens.len() ==> {
                &&& first_free(
                    actors[i].registry().entries().dom(),
                    actors[i].registry().next_token(),
                    #[trigger] tokens[i],
                )
                &&& actors[i + 1].registry().entries().dom() == actors[i].registry().entries().dom().insert(
                    tokens[i],
                )
            },
    ensures
        forall|i: int, j: int| 0 <= i < j < tokens.len() ==> tokens[i] != tokens[j],
{
    let lives = Seq::new(actors.len(), |i: int| actors[i].registry().entries().dom());
    assert forall|i: int|
        0 <= i < tokens.len() implies !lives[i].contains(#[trigger] tokens[i]) && lives[i + 1] == lives[i].insert(
            tokens[i],
        ) by {
        assert(first_free(actors[i].registry().entries().dom(), actors[i].registry().next_token(), tokens[i]));
    }
    lemma_issued_tokens_distinct(lives, tokens);
}

/// A deregistration that succeeds leaves no entry under its token; so a
/// second deregistration of the same token reports that there was none.
pub proof fn lemma_deregister_twice(before: Actor, between: Actor, t: usize)
    requires
        between.registry().entries() == before.registry().entries().remove(t),
    ensures
        !between.registry().entries().contains_key(t),
{
}

/// Once a token is deregistered, no later batch of reports invokes a handle
/// under that token, even a batch that still reports it; a batch that
/// reports only that token counts nothing.
pub proof fn lemma_no_dispatch_after_deregister(
    before: Actor,
    after: Actor,
    t: usize,
    events: Seq<Readiness>,
)
    requires
        after.registry().entries() == before.registry().entries().remove(t),
    ensures
        reads(after.registry().entries().dom(), events, t) == 0,
        writes(after.registry().entries().dom(), events, t) == 0,
        (forall|i: int| 0 <= i < events.len() ==> #[trigger] events[i].token == t) ==> dispatched(
            after.registry().entries().dom(),
            events,
        ) == 0,
{
    lemma_unregistered_token_never_woken(after.registry().entries().dom(), t, events);
}

} // verus!
