//! Readiness reports and the wakeups that a dispatch cycle owes for them.

use vstd::prelude::*;

verus! {

/// One readiness report of the polling handle: the token it was registered
/// under, and which directions became ready.
#[derive(Clone, Copy, Debug)]
pub struct Readiness {
    pub token: usize,
    pub readable: bool,
    pub writable: bool,
}

/// How many times a batch of reports invokes the read handle of token `t`,
/// when `live` is the set of registered tokens: once for each report of `t`
/// that is readable, and never when `t` is not registered.
pub open spec fn reads(live: Set<usize>, events: Seq<Readiness>, t: usize) -> nat
    decreases events.len(),
{
    if events.len() == 0 {
        0
    } else {
        reads(live, events.drop_last(), t) + if live.contains(t) && events.last().token == t
            && events.last().readable {
            1nat
        } else {
            0nat
        }
    }
}

/// How many times a batch of reports invokes the write handle of token `t`:
/// once for each report of `t` that is writable, and never when `t` is not
/// registered.
pub open spec fn writes(live: Set<usize>, events: Seq<Readiness>, t: usize) -> nat
    decreases events.len(),
{
    if events.len() == 0 {
        0
    } else {
        writes(live, events.drop_last(), t) + if live.contains(t) && events.last().token == t
            && events.last().writable {
            1nat
        } else {
            0nat
        }
    }
}

/// How many reports of a batch name a registered token: each of them counts
/// once, whichever directions it reports.
pub open spec fn dispatched(live: Set<usize>, events: Seq<Readiness>) -> nat
    decreases events.len(),
{
    if events.len() == 0 {
        0
    } else {
        dispatched(live, events.drop_last()) + if live.contains(events.last().token) {
            1nat
        } else {
            0nat
        }
    }
}

/// A batch never counts more reports than it holds.
pub proof fn lemma_dispatched_bounded(live: Set<usize>, events: Seq<Readiness>)
    ensures
        dispatched(live, events) <= events.len(),
    decreases events.len(),
{
    if events.len() > 0 {
        lemma_dispatched_bounded(live, events.drop_last());
    }
}

/// No report, whatever it says, wakes a handle of a token that is not
/// registered; a batch that reports only such a token counts nothing.
pub proof fn lemma_unregistered_token_never_woken(live: Set<usize>, t: usize, events: Seq<Readiness>)
    requires
        !live.contains(t),
    ensures
        reads(live, events, t) == 0,
        writes(live, events, t) == 0,
        (forall|i: int| 0 <= i < events.len() ==> #[trigger] events[i].token == t) ==> dispatched(
            live,
            events,
        ) == 0,
    decreases events.len(),
{
    if events.len() > 0 {
        let rest = events.drop_last();
        lemma_unregistered_token_never_woken(live, t, rest);
        if forall|i: int| 0 <= i < events.len() ==> #[trigger] events[i].token == t {
            assert forall|i: int| 0 <= i < rest.len() implies #[trigger] rest[i].token == t by {
                assert(rest[i] == events[i]);
            }
            assert(events.last() == events[events.len() - 1]);
        }
    }
}

/// A report that is read- and write-ready at once, for a registered token,
/// added to any batch, invokes each of that token's two handles exactly once
/// more and counts as one dispatched event more.
pub proof fn lemma_both_directions_once(live: Set<usize>, events: Seq<Readiness>, e: Readiness)
    requires
        live.contains(e.token),
        e.readable,
        e.writable,
    ensures
        reads(live, events.push(e), e.token) == reads(live, events, e.token) + 1,
        writes(live, events, e.token) + 1 == writes(live, events.push(e), e.token),
        dispatched(live, events.push(e)) == dispatched(live, events) + 1,
{
    assert(events.push(e).drop_last() =~= events);
}

} // verus!
