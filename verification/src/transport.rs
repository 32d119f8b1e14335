//! The decision core of the UDP transport: which local port to bind, and the
//! two reply-collection policies of an exchange — collect-first (one reply
//! or a typed failure) and collect-all (every validated reply until the
//! timeout, in receipt order).
//!
//! The socket work itself — binding, enabling broadcast, sending one
//! datagram and waiting for replies, in either the blocking or the
//! suspendable execution mode — happens outside this library; it hands each
//! outcome in as a [`CollectEvent`] and performs what these functions
//! decide.

use vstd::prelude::*;

use crate::error::Error;

verus! {

/// The protocol-fixed UDP port that discovery and command exchanges target.
pub const COMMAND_PORT: u16 = 80;

/// The default per-receive timeout of a blocking exchange, in seconds.
pub const DEFAULT_RECEIVE_TIMEOUT_SECS: u64 = 10;

/// The size of the receive buffer one datagram is read into.
pub const RECEIVE_BUFFER_SIZE: usize = 8092;

/// The local port an exchange binds: the caller's explicit choice, or the
/// ephemeral port 0 when none was given.
pub fn bind_port(port: Option<u16>) -> (p: u16)
    ensures
        p == (match port {
            Some(x) => x,
            None => 0u16,
        }),
{
    match port {
        Some(x) => x,
        None => 0,
    }
}

/// One outcome of waiting for a datagram during an exchange, after the
/// caller's interpreter judged any received bytes.
pub enum CollectEvent<R> {
    /// A datagram arrived and the interpreter validated it.
    Reply(R),
    /// A datagram arrived but failed interpretation; each reply is judged
    /// independently.
    Invalid(Error),
    /// No datagram arrived before the receive timeout.
    TimedOut,
    /// The socket itself failed while waiting.
    SocketFailed,
}

/// How a collect-all exchange ended.
#[derive(Clone, Copy, Debug, PartialEq, Eq, Structural)]
pub enum CollectEnd {
    /// The receive timeout fired: the normal end of collection.
    TimedOut,
    /// A genuine socket error ended collection; what was already gathered
    /// is kept.
    SocketFailed,
}

/// The state of a collect-all exchange: the validated replies gathered so
/// far, in receipt order, and how collection ended once it did.
pub struct CollectAll<R> {
    /// The validated replies, in the order the transport received them.
    pub results: Vec<R>,
    /// `None` while collection is still running.
    pub ended: Option<CollectEnd>,
}

impl<R> CollectAll<R> {
    /// Starts a collection with nothing gathered.
    pub fn new() -> (c: CollectAll<R>)
        ensures
            c.results@ == Seq::<R>::empty(),
            c.ended is None,
    {
        CollectAll { results: Vec::new(), ended: None }
    }

    /// Whether collection has ended.
    pub fn is_done(&self) -> (done: bool)
        ensures
            done == (self.ended is Some),
    {
        match self.ended {
            Some(_) => true,
            None => false,
        }
    }

    /// Feeds the next transport outcome into the collection: a validated
    /// reply is appended in receipt order, an invalid reply is dropped
    /// without aborting the others, a receive timeout ends collection
    /// normally, and a socket failure ends it while keeping everything
    /// gathered so far.
    pub fn on_event(&mut self, event: CollectEvent<R>)
        requires
            old(self).ended is None,
        ensures
            match event {
                CollectEvent::Reply(r) => final(self).results@ == old(self).results@.push(r)
                    && final(self).ended is None,
                CollectEvent::Invalid(_) => final(self).results@ == old(self).results@
                    && final(self).ended is None,
                CollectEvent::TimedOut => final(self).results@ == old(self).results@
                    && final(self).ended == Some(CollectEnd::TimedOut),
                CollectEvent::SocketFailed => final(self).results@ == old(self).results@
                    && final(self).ended == Some(CollectEnd::SocketFailed),
            },
    {
        match event {
            CollectEvent::Reply(r) => {
                self.results.push(r);
            },
            CollectEvent::Invalid(_) => {},
            CollectEvent::TimedOut => {
                self.ended = Some(CollectEnd::TimedOut);
            },
            CollectEvent::SocketFailed => {
                self.ended = Some(CollectEnd::SocketFailed);
            },
        }
    }

    /// Hands the gathered replies out, with how collection ended. A timeout
    /// is the normal end of a collect-all exchange — zero replies included —
    /// while a socket failure is surfaced without discarding the replies
    /// already gathered.
    pub fn into_results(self) -> (r: (Vec<R>, CollectEnd))
        requires
            self.ended is Some,
        ensures
            r.0@ == self.results@,
            r.1 == self.ended.unwrap(),
    {
        let end = match self.ended {
            Some(e) => e,
            None => CollectEnd::TimedOut,
        };
        (self.results, end)
    }
}

/// Decides a collect-first exchange from its first wait outcome: a
/// validated reply is the result; an invalid reply propagates its own
/// failure; no reply before the timeout — or a failed wait — is
/// [`Error::NoResponseError`].
pub fn collect_first<R>(event: CollectEvent<R>) -> (r: Result<R, Error>)
    ensures
        match event {
            CollectEvent::Reply(x) => r is Ok && r.unwrap() == x,
            CollectEvent::Invalid(e) => r == Err::<R, Error>(e),
            CollectEvent::TimedOut => r == Err::<R, Error>(Error::NoResponseError),
            CollectEvent::SocketFailed => r == Err::<R, Error>(Error::NoResponseError),
        },
{
    match event {
        CollectEvent::Reply(x) => Ok(x),
        CollectEvent::Invalid(e) => Err(e),
        CollectEvent::TimedOut => Err(Error::NoResponseError),
        CollectEvent::SocketFailed => Err(Error::NoResponseError),
    }
}

} // verus!
