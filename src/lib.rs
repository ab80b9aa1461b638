//! A readiness-based event reactor over mio: a registry that hands out
//! tokens for event sources, and a poll loop that turns readiness reports
//! into wakeups of the tasks waiting on each direction of a source.

mod os;

pub mod dispatch;
pub mod poller;
pub mod waker;
pub mod registry;
pub mod actor;
