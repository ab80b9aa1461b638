//! Event sources, their registrations, and the registry that hands out
//! tokens for them.

use std::collections::HashMap;

use vstd::prelude::*;

use crate::dispatch::{dispatched, reads, writes, Readiness};
use crate::poller::{self, without_source, OsRegistration, Poller};
use crate::waker::{self, WakeHandle};

verus! {

broadcast use vstd::std_specs::hash::group_hash_axioms;

/// A pollable resource that can be registered with the reactor.
pub enum Event {
    TcpListener(mio::net::TcpListener),
    TcpStream(mio::net::TcpStream),
    UdpSocket(mio::net::UdpSocket),
    Registration(mio::Registration),
}

/// A source together with the handles that resume the tasks waiting for it
/// to become readable and writable.
pub struct EventInfo {
    pub ev: Event,
    pub read_waker: WakeHandle,
    pub write_waker: WakeHandle,
}

impl EventInfo {
    /// Registers the source with `poll` under `token`, edge-triggered, for
    /// both readable and writable readiness, and returns the handle's answer.
    pub fn register(&self, poll: &mut Poller, token: usize) -> (r: std::io::Result<()>)
        requires
            token < usize::MAX,
            !old(poll).registered().contains_key(token),
        ensures
            r is Ok ==> final(poll).registered() == without_source(old(poll).registered(), self.ev).insert(
                token,
                both_edge(self.ev),
            ),
            r is Err ==> final(poll).registered() == old(poll).registered(),
    {
        match &self.ev {
            Event::TcpListener(s) => poller::register_tcp_listener(s, poll, token, true, true, true),
            Event::TcpStream(s) => poller::register_tcp_stream(s, poll, token, true, true, true),
            Event::UdpSocket(s) => poller::register_udp_socket(s, poll, token, true, true, true),
            Event::Registration(s) => poller::register_registration(s, poll, token, true, true, true),
        }
    }

    /// Removes the source's registration from `poll`, and returns the
    /// handle's answer.
    pub fn deregister(&self, poll: &mut Poller) -> (r: std::io::Result<()>)
        ensures
            r is Ok ==> final(poll).registered() == without_source(old(poll).registered(), self.ev),
            r is Err ==> final(poll).registered() == old(poll).registered(),
    {
        match &self.ev {
            Event::TcpListener(s) => poller::deregister_tcp_listener(s, poll),
            Event::TcpStream(s) => poller::deregister_tcp_stream(s, poll),
            Event::UdpSocket(s) => poller::deregister_udp_socket(s, poll),
            Event::Registration(s) => poller::deregister_registration(s, poll),
        }
    }
}

/// How a source is registered: readable and writable interest, edge-triggered.
pub open spec fn both_edge(source: Event) -> OsRegistration {
    OsRegistration { source, readable: true, writable: true, edge: true }
}

/// Every registration with the polling handle is one of the live entries:
/// the same token, the same source.
pub open spec fn tracks(entries: Map<usize, EventInfo>, registered: Map<usize, OsRegistration>) -> bool {
    forall|t: usize| #[trigger]
        registered.contains_key(t) ==> entries.contains_key(t) && registered[t].source == entries[t].ev
}

/// `after` is `before` with its read handle invoked `r` more times and its
/// write handle `w` more times, and nothing else changed.
pub open spec fn woken_by(before: EventInfo, after: EventInfo, r: nat, w: nat) -> bool {
    &&& after.ev == before.ev
    &&& after.read_waker.waker() == before.read_waker.waker()
    &&& after.write_waker.waker() == before.write_waker.waker()
    &&& after.read_waker.wakes() == before.read_waker.wakes() + r
    &&& after.write_waker.wakes() == before.write_waker.wakes() + w
}

/// Why a registration was refused.
pub enum RegisterError {
    /// Every token value is held by a live registration.
    Exhausted,
    /// The polling handle refused the source.
    Os(std::io::Error),
}

/// The token that follows `t` in the order tokens are tried: `usize::MAX`
/// is never issued, so the counter wraps from `usize::MAX - 1` to 0.
pub open spec fn next_after(t: usize) -> usize {
    if t + 1 < usize::MAX {
        (t + 1) as usize
    } else {
        0
    }
}

/// The `k`-th token tried when the counter stands at `start`.
pub open spec fn candidate(start: usize, k: nat) -> usize {
    if start + k < usize::MAX {
        (start + k) as usize
    } else {
        (start + k - usize::MAX) as usize
    }
}

/// `t` is the first token, counting from `start`, that `live` does not hold.
pub open spec fn first_free(live: Set<usize>, start: usize, t: usize) -> bool {
    &&& !live.contains(t)
    &&& exists|k: nat|
        k < usize::MAX && #[trigger] candidate(start, k) == t && forall|j: nat|
            j < k ==> live.contains(#[trigger] candidate(start, j))
}

/// The first `k` tokens tried when the counter stands at `start`.
pub open spec fn candidates(start: usize, k: nat) -> Set<usize>
    decreases k,
{
    if k == 0 {
        Set::empty()
    } else {
        candidates(start, (k - 1) as nat).insert(candidate(start, (k - 1) as nat))
    }
}

proof fn lemma_candidates(start: usize, k: nat)
    requires
        start < usize::MAX,
        k <= usize::MAX,
    ensures
        candidates(start, k).finite(),
        candidates(start, k).len() == k,
        forall|x: usize|
            candidates(start, k).contains(x) <==> exists|j: nat| j < k && #[trigger] candidate(start, j) == x,
    decreases k,
{
    if k > 0 {
        let p = (k - 1) as nat;
        lemma_candidates(start, p);
        let c = candidate(start, p);
        assert forall|j: nat| j < p implies #[trigger] candidate(start, j) != c by {}
        assert forall|x: usize|
            candidates(start, k).contains(x) implies exists|j: nat| j < k && #[trigger] candidate(start, j) == x by {
            if x != c {
                let j = choose|j: nat| j < p && #[trigger] candidate(start, j) == x;
                assert(j < k && candidate(start, j) == x);
            } else {
                assert(candidate(start, p) == x);
            }
        }
        assert forall|x: usize| (exists|j: nat| j < k && #[trigger] candidate(start, j) == x) implies candidates(start, k).contains(x) by {
            let j = choose|j: nat| j < k && #[trigger] candidate(start, j) == x;
            if j < p {
                assert(candidates(start, p).contains(x));
            }
        }
    }
}

/// Tokens issued by a run of registrations, with no removal in between, are
/// pairwise distinct and all stay live. Step `i` of the run turns the live
/// set `lives[i]` into `lives[i + 1]` by issuing `tokens[i]`, which it did
/// not hold.
pub proof fn lemma_issued_tokens_distinct(lives: Seq<Set<usize>>, tokens: Seq<usize>)
    requires
        lives.len() == tokens.len() + 1,
        forall|i: int|
            0 <= i < tokens.len() ==> !lives[i].contains(#[trigger] tokens[i]) && lives[i + 1] == lives[i].insert(
                tokens[i],
            ),
    ensures
        forall|i: int, j: int| 0 <= i < j < tokens.len() ==> tokens[i] != tokens[j],
        forall|i: int| 0 <= i < tokens.len() ==> lives.last().contains(#[trigger] tokens[i]),
{
    assert forall|i: int, k: int| 0 <= i < k <= tokens.len() implies #[trigger] lives[k].contains(tokens[i]) by {
        lemma_issued_stays_live(lives, tokens, i, k);
    }
    assert forall|i: int, j: int| 0 <= i < j < tokens.len() implies tokens[i] != tokens[j] by {
        assert(lives[j].contains(tokens[i]));
        assert(!lives[j].contains(tokens[j]));
    }
    assert forall|i: int| 0 <= i < tokens.len() implies lives.last().contains(#[trigger] tokens[i]) by {
        assert(lives[tokens.len() as int].contains(tokens[i]));
    }
}

proof fn lemma_issued_stays_live(lives: Seq<Set<usize>>, tokens: Seq<usize>, i: int, k: int)
    requires
        lives.len() == tokens.len() + 1,
        forall|i: int|
            0 <= i < tokens.len() ==> !lives[i].contains(#[trigger] tokens[i]) && lives[i + 1] == lives[i].insert(
                tokens[i],
            ),
        0 <= i < k <= tokens.len(),
    ensures
        lives[k].contains(tokens[i]),
    decreases k - i,
{
    if k > i + 1 {
        lemma_issued_stays_live(lives, tokens, i, k - 1);
        assert(lives[k] == lives[k - 1].insert(tokens[k - 1]));
    } else {
        assert(lives[i + 1] == lives[i].insert(tokens[i]));
    }
}

/// A registration never receives a token that a live registration holds.
pub proof fn lemma_live_token_not_reissued(live: Set<usize>, start: usize, t: usize, u: usize)
    requires
        first_free(live, start, t),
        live.contains(u),
    ensures
        t != u,
{
}

/// The live registrations, keyed by token, and the counter from which the
/// next token is sought.
pub struct Registry {
    next_token: usize,
    map: HashMap<usize, EventInfo>,
}

impl Registry {
    /// The live registrations.
    pub closed spec fn entries(&self) -> Map<usize, EventInfo> {
        self.map@
    }

    /// The first token that the next registration tries.
    pub closed spec fn next_token(&self) -> usize {
        self.next_token
    }

    /// The counter and every live token stay clear of `usize::MAX`.
    pub closed spec fn wf(&self) -> bool {
        &&& self.next_token < usize::MAX
        &&& forall|t: usize| #[trigger] self.map@.contains_key(t) ==> t < usize::MAX
    }

    /// An empty registry whose counter starts at 0.
    pub fn new() -> (r: Registry)
        ensures
            r.wf(),
            r.entries() == Map::<usize, EventInfo>::empty(),
            r.next_token() == 0,
    {
        Registry { next_token: 0, map: HashMap::new() }
    }

    /// Registers `ev_info` with `poll` under the first token, from the
    /// counter on, that no live registration holds, and then records it.
    /// No other token is handed to `poll`. Fails with `Exhausted` exactly
    /// when every token value is in use, and with `Os` when the polling
    /// handle refuses the source; then nothing is recorded or registered.
    pub fn register(&mut self, ev_info: EventInfo, poll: &mut Poller) -> (r: Result<usize, RegisterError>)
        requires
            old(self).wf(),
            tracks(old(self).entries(), old(poll).registered()),
        ensures
            final(self).wf(),
            tracks(final(self).entries(), final(poll).registered()),
            forall|k: usize| #[trigger] final(self).entries().contains_key(k) ==> k < usize::MAX,
            (r matches Err(RegisterError::Exhausted)) <==> old(self).entries().len() == usize::MAX,
            r matches Err(RegisterError::Exhausted) ==> *final(self) == *old(self),
            r is Err ==> final(poll).registered() == old(poll).registered(),
            r matches Err(RegisterError::Os(_)) ==> {
                &&& final(self).entries() == old(self).entries()
                &&& exists|t: usize|
                    first_free(old(self).entries().dom(), old(self).next_token(), t) && final(self).next_token()
                        == #[trigger] next_after(t)
            },
            r matches Ok(t) ==> {
                &&& t < usize::MAX
                &&& first_free(old(self).entries().dom(), old(self).next_token(), t)
                &&& final(self).entries() == old(self).entries().insert(t, ev_info)
                &&& final(self).next_token() == next_after(t)
                &&& final(poll).registered() == without_source(old(poll).registered(), ev_info.ev).insert(
                    t,
                    both_edge(ev_info.ev),
                )
            },
    {
        let n = self.map.len();
        if n == usize::MAX {
            return Err(RegisterError::Exhausted);
        }
        let ghost start = self.next_token;
        let mut tried: usize = 0;
        loop
            invariant
                self.wf(),
                self.map@ == old(self).map@,
                *poll == *old(poll),
                tracks(self.map@, poll.registered()),
                n == self.map@.len(),
                n < usize::MAX,
                start == old(self).next_token,
                start < usize::MAX,
                tried <= n,
                self.next_token == candidate(start, tried as nat),
                forall|j: nat| j < tried ==> self.map@.contains_key(#[trigger] candidate(start, j)),
            decreases n - tried,
        {
            let v = self.next_token;
            self.next_token = if v + 1 < usize::MAX {
                v + 1
            } else {
                0
            };
            assert(self.next_token == candidate(start, (tried + 1) as nat));
            if !self.map.contains_key(&v) {
                assert(first_free(self.map@.dom(), start, v)) by {
                    assert(candidate(start, tried as nat) == v);
                }
                match ev_info.register(poll, v) {
                    Ok(()) => {
                        self.map.insert(v, ev_info);
                        assert(tracks(self.map@, poll.registered()));
                        return Ok(v);
                    },
                    Err(e) => {
                        assert(self.next_token == next_after(v));
                        return Err(RegisterError::Os(e));
                    },
                }
            }
            proof {
                if tried == n {
                    let k = (n + 1) as nat;
                    lemma_candidates(start, k);
                    assert(candidates(start, k).subset_of(self.map@.dom())) by {
                        assert forall|x: usize| candidates(start, k).contains(x) implies self.map@.dom().contains(x) by {
                            let j = choose|j: nat| j < k && #[trigger] candidate(start, j) == x;
                            if j < tried {
                            } else {
                                assert(j == tried);
                            }
                        }
                    }
                    vstd::set_lib::lemma_len_subset(candidates(start, k), self.map@.dom());
                    assert(false);
                }
            }
            tried = tried + 1;
        }
    }

    /// Removes and returns the registration under `token`, if there is one.
    /// The polling handle is left to the caller.
    pub fn remove(&mut self, token: usize) -> (r: Option<EventInfo>)
        requires
            old(self).wf(),
        ensures
            final(self).wf(),
            final(self).entries() == old(self).entries().remove(token),
            final(self).next_token() == old(self).next_token(),
            r == if old(self).entries().contains_key(token) {
                Some(old(self).entries()[token])
            } else {
                None::<EventInfo>
            },
    {
        self.map.remove(&token)
    }

    /// Removes the registration under `token` and deregisters its source
    /// from `poll`. Returns `Ok(false)` exactly when there was none, and
    /// `Ok(true)` when the handle let the source go. When the handle refuses,
    /// its error is returned and the entry is put back, so that no partial
    /// state is left.
    pub fn deregister(&mut self, token: usize, poll: &mut Poller) -> (r: std::io::Result<bool>)
        requires
            old(self).wf(),
            tracks(old(self).entries(), old(poll).registered()),
        ensures
            final(self).wf(),
            tracks(final(self).entries(), final(poll).registered()),
            forall|k: usize| #[trigger] final(self).entries().contains_key(k) ==> k < usize::MAX,
            final(self).next_token() == old(self).next_token(),
            (r matches Ok(false)) <==> !old(self).entries().contains_key(token),
            r matches Ok(true) ==> {
                &&& final(self).entries() == old(self).entries().remove(token)
                &&& final(poll).registered() == without_source(
                    old(poll).registered(),
                    old(self).entries()[token].ev,
                )
                &&& !final(poll).registered().contains_key(token)
            },
            !(r matches Ok(true)) ==> {
                &&& final(self).entries() == old(self).entries()
                &&& final(poll).registered() == old(poll).registered()
            },
    {
        match self.map.remove(&token) {
            None => Ok(false),
            Some(v) => match v.deregister(poll) {
                Ok(()) => {
                    assert(tracks(self.map@, poll.registered()));
                    Ok(true)
                },
                Err(e) => {
                    self.map.insert(token, v);
                    assert(self.map@ =~= old(self).map@);
                    Err(e)
                },
            },
        }
    }

    /// Dispatches a batch of readiness reports: for each report whose token
    /// is registered, invokes the read handle if it is readable and the
    /// write handle if it is writable, and counts the report once. Reports
    /// of unknown tokens are skipped. Returns how many were counted.
    pub fn dispatch(&mut self, events: &Vec<Readiness>) -> (count: usize)
        requires
            old(self).wf(),
        ensures
            final(self).wf(),
            final(self).entries().dom() == old(self).entries().dom(),
            final(self).next_token() == old(self).next_token(),
            forall|t: usize|
                #[trigger] old(self).entries().contains_key(t) ==> woken_by(
                    old(self).entries()[t],
                    final(self).entries()[t],
                    reads(old(self).entries().dom(), events@, t),
                    writes(old(self).entries().dom(), events@, t),
                ),
            count == dispatched(old(self).entries().dom(), events@),
    {
        let ghost live = self.map@.dom();
        let mut count: usize = 0;
        let mut i: usize = 0;
        while i < events.len()
            invariant
                self.wf(),
                self.map@.dom() == live,
                live == old(self).map@.dom(),
                self.next_token == old(self).next_token,
                i <= events@.len(),
                count <= i,
                count == dispatched(live, events@.take(i as int)),
                forall|t: usize|
                    #[trigger] live.contains(t) ==> woken_by(
                        old(self).map@[t],
                        self.map@[t],
                        reads(live, events@.take(i as int), t),
                        writes(live, events@.take(i as int), t),
                    ),
            decreases events@.len() - i,
        {
            let e = events[i];
            let ghost before = self.map@;
            match self.map.remove(&e.token) {
                None => {},
                Some(mut info) => {
                    if e.readable {
                        waker::wake(&mut info.read_waker);
                    }
                    if e.writable {
                        waker::wake(&mut info.write_waker);
                    }
                    self.map.insert(e.token, info);
                    count = count + 1;
                },
            }
            proof {
                let done = events@.take(i + 1);
                assert(done.drop_last() =~= events@.take(i as int));
                assert(done.last() == e);
                assert(self.map@.dom() =~= live);
                assert forall|t: usize| #[trigger] live.contains(t) implies woken_by(
                    old(self).map@[t],
                    self.map@[t],
                    reads(live, done, t),
                    writes(live, done, t),
                ) by {
                    if t != e.token {
                        assert(self.map@[t] == before[t]);
                    }
                }
            }
            i = i + 1;
        }
        assert(events@.take(events@.len() as int) =~= events@);
        count
    }
}

} // verus!
