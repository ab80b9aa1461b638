//! A polling handle, with a model of the tokens registered with it.

use vstd::prelude::*;

use crate::dispatch::Readiness;
use crate::os;
use crate::registry::Event;

verus! {

/// What is registered with a polling handle under one token: the source,
/// and the interest and trigger mode it was registered with.
pub struct OsRegistration {
    pub source: Event,
    pub readable: bool,
    pub writable: bool,
    pub edge: bool,
}

/// `m` without the tokens under which `source` is registered.
pub open spec fn without_source(m: Map<usize, OsRegistration>, source: Event) -> Map<usize, OsRegistration> {
    Map::new(|k: usize| m.contains_key(k) && m[k].source != source, |k: usize| m[k])
}

/// A `mio::Poll`, together with what is registered with it, token by token.
/// Only the registration calls below change that model.
pub struct Poller {
    poll: mio::Poll,
    registered: Ghost<Map<usize, OsRegistration>>,
}

impl Poller {
    /// For each token, the source registered with the handle under it.
    pub closed spec fn registered(&self) -> Map<usize, OsRegistration> {
        self.registered@
    }

    /// Opens a polling handle with nothing registered.
    pub fn new() -> (r: std::io::Result<Poller>)
        ensures
            r matches Ok(p) ==> p.registered() == Map::<usize, OsRegistration>::empty(),
    {
        let poll = os::poll_new()?;
        Ok(Poller { poll, registered: Ghost(Map::empty()) })
    }
}

/// Relies on `mio::Poll::poll`: waits for readiness, for at most `timeout`
/// when one is given, and reports each ready source as its token and the
/// two readiness kinds. mio returns at most the capacity of the event
/// buffer, which `Events::with_capacity` sets to `capacity`.
#[verifier::external_body]
pub(crate) fn poll_ready(
    p: &Poller,
    capacity: usize,
    timeout: Option<std::time::Duration>,
) -> (r: std::io::Result<Vec<Readiness>>)
    ensures
        r matches Ok(v) ==> v@.len() <= capacity,
{
    let mut events = mio::Events::with_capacity(capacity);
    p.poll.poll(&mut events, timeout)?;
    Ok(events.iter().map(|e| Readiness {
        token: e.token().0,
        readable: e.readiness().is_readable(),
        writable: e.readiness().is_writable(),
    }).collect())
}

/// Relies on `Evented::register` for `mio::net::TcpListener`: on success the socket is registered under `token`,
/// with the interest and mode given, and under no other token; on failure
/// nothing changes. `token` is below `usize::MAX`, the token mio keeps for
/// itself, and no other source is registered under it.
#[verifier::external_body]
pub(crate) fn register_tcp_listener(
    s: &mio::net::TcpListener,
    p: &mut Poller,
    token: usize,
    readable: bool,
    writable: bool,
    edge: bool,
) -> (r: std::io::Result<()>)
    requires
        token < usize::MAX,
        !old(p).registered().contains_key(token),
    ensures
        r is Ok ==> final(p).registered() == without_source(old(p).registered(), Event::TcpListener(*s)).insert(
            token,
            (OsRegistration { source: Event::TcpListener(*s), readable, writable, edge }),
        ),
        r is Err ==> final(p).registered() == old(p).registered(),
{
    let mut interest = mio::Ready::empty();
    if readable {
        interest.insert(mio::Ready::readable());
    }
    if writable {
        interest.insert(mio::Ready::writable());
    }
    let opts = if edge { mio::PollOpt::edge() } else { mio::PollOpt::level() };
    mio::Evented::register(s, &p.poll, mio::Token(token), interest, opts)
}

/// Relies on `Evented::register` for `mio::net::TcpStream`: on success the socket is registered under `token`,
/// with the interest and mode given, and under no other token; on failure
/// nothing changes. `token` is below `usize::MAX`, the token mio keeps for
/// itself, and no other source is registered under it.
#[verifier::external_body]
pub(crate) fn register_tcp_stream(
    s: &mio::net::TcpStream,
    p: &mut Poller,
    token: usize,
    readable: bool,
    writable: bool,
    edge: bool,
) -> (r: std::io::Result<()>)
    requires
        token < usize::MAX,
        !old(p).registered().contains_key(token),
    ensures
        r is Ok ==> final(p).registered() == without_source(old(p).registered(), Event::TcpStream(*s)).insert(
            token,
            (OsRegistration { source: Event::TcpStream(*s), readable, writable, edge }),
        ),
        r is Err ==> final(p).registered() == old(p).registered(),
{
    let mut interest = mio::Ready::empty();
    if readable {
        interest.insert(mio::Ready::readable());
    }
    if writable {
        interest.insert(mio::Ready::writable());
    }
    let opts = if edge { mio::PollOpt::edge() } else { mio::PollOpt::level() };
    mio::Evented::register(s, &p.poll, mio::Token(token), interest, opts)
}

/// Relies on `Evented::register` for `mio::net::UdpSocket`: on success the socket is registered under `token`,
/// with the interest and mode given, and under no other token; on failure
/// nothing changes. `token` is below `usize::MAX`, the token mio keeps for
/// itself, and no other source is registered under it.
#[verifier::external_body]
pub(crate) fn register_udp_socket(
    s: &mio::net::UdpSocket,
    p: &mut Poller,
    token: usize,
    readable: bool,
    writable: bool,
    edge: bool,
) -> (r: std::io::Result<()>)
    requires
        token < usize::MAX,
        !old(p).registered().contains_key(token),
    ensures
        r is Ok ==> final(p).registered() == without_source(old(p).registered(), Event::UdpSocket(*s)).insert(
            token,
            (OsRegistration { source: Event::UdpSocket(*s), readable, writable, edge }),
        ),
        r is Err ==> final(p).registered() == old(p).registered(),
{
    let mut interest = mio::Ready::empty();
    if readable {
        interest.insert(mio::Ready::readable());
    }
    if writable {
        interest.insert(mio::Ready::writable());
    }
    let opts = if edge { mio::PollOpt::edge() } else { mio::PollOpt::level() };
    mio::Evented::register(s, &p.poll, mio::Token(token), interest, opts)
}

/// Relies on `Evented::register` for `mio::Registration`, an update that moves a handle already registered with this poll to `token`: on success the handle is registered under `token`,
/// with the interest and mode given, and under no other token; on failure
/// nothing changes. `token` is below `usize::MAX`, the token mio keeps for
/// itself, and no other source is registered under it.
#[verifier::external_body]
pub(crate) fn register_registration(
    s: &mio::Registration,
    p: &mut Poller,
    token: usize,
    readable: bool,
    writable: bool,
    edge: bool,
) -> (r: std::io::Result<()>)
    requires
        token < usize::MAX,
        !old(p).registered().contains_key(token),
    ensures
        r is Ok ==> final(p).registered() == without_source(old(p).registered(), Event::Registration(*s)).insert(
            token,
            (OsRegistration { source: Event::Registration(*s), readable, writable, edge }),
        ),
        r is Err ==> final(p).registered() == old(p).registered(),
{
    let mut interest = mio::Ready::empty();
    if readable {
        interest.insert(mio::Ready::readable());
    }
    if writable {
        interest.insert(mio::Ready::writable());
    }
    let opts = if edge { mio::PollOpt::edge() } else { mio::PollOpt::level() };
    mio::Evented::register(s, &p.poll, mio::Token(token), interest, opts)
}

/// Relies on `Evented::deregister` for `mio::net::TcpListener`: on success the source is registered under no token;
/// on failure nothing changes.
#[verifier::external_body]
pub(crate) fn deregister_tcp_listener(s: &mio::net::TcpListener, p: &mut Poller) -> (r: std::io::Result<()>)
    ensures
        r is Ok ==> final(p).registered() == without_source(old(p).registered(), Event::TcpListener(*s)),
        r is Err ==> final(p).registered() == old(p).registered(),
{
    mio::Evented::deregister(s, &p.poll)
}

/// Relies on `Evented::deregister` for `mio::net::TcpStream`: on success the source is registered under no token;
/// on failure nothing changes.
#[verifier::external_body]
pub(crate) fn deregister_tcp_stream(s: &mio::net::TcpStream, p: &mut Poller) -> (r: std::io::Result<()>)
    ensures
        r is Ok ==> final(p).registered() == without_source(old(p).registered(), Event::TcpStream(*s)),
        r is Err ==> final(p).registered() == old(p).registered(),
{
    mio::Evented::deregister(s, &p.poll)
}

/// Relies on `Evented::deregister` for `mio::net::UdpSocket`: on success the source is registered under no token;
/// on failure nothing changes.
#[verifier::external_body]
pub(crate) fn deregister_udp_socket(s: &mio::net::UdpSocket, p: &mut Poller) -> (r: std::io::Result<()>)
    ensures
        r is Ok ==> final(p).registered() == without_source(old(p).registered(), Event::UdpSocket(*s)),
        r is Err ==> final(p).registered() == old(p).registered(),
{
    mio::Evented::deregister(s, &p.poll)
}

/// Relies on `mio::Poll::deregister` for a `mio::Registration`, which leaves it with no interest: on success the source is registered under no token;
/// on failure nothing changes.
#[verifier::external_body]
pub(crate) fn deregister_registration(s: &mio::Registration, p: &mut Poller) -> (r: std::io::Result<()>)
    ensures
        r is Ok ==> final(p).registered() == without_source(old(p).registered(), Event::Registration(*s)),
        r is Err ==> final(p).registered() == old(p).registered(),
{
    p.poll.deregister(s)
}

} // verus!
