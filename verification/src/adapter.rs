use vstd::prelude::*;

use crate::error::ConnectError;
use crate::recorder::RequestRecorder;
use crate::status::{Status, StatusCell};

verus! {

/// Relied on for echo ids: `rand::random` draws a value of the requested
/// type; nothing is promised of which value comes out.
pub assume_specification<T>[ rand::random::<T> ]() -> (r: T)
    where
        rand::distributions::Standard: rand::distributions::Distribution<T>,
;

/// Echo-id space: ids are drawn below 2^48.
pub const ECHO_BOUND: u64 = 0x1_0000_0000_0000;

/// Draws an echo id for a new request. The top bits are cleared because a
/// peer that stores the id in a floating-point field would otherwise lose
/// precision and echo back a different value.
pub fn fresh_echo() -> (r: u64)
    ensures
        r < ECHO_BOUND,
{
    let x: u64 = rand::random();
    let r = x >> 16;
    proof {
        assert(x >> 16 < 0x1_0000_0000_0000) by (bit_vector);
    }
    r
}

/// What a waiting call observes first: its correlated response, the
/// timeout window closing, or the outbound queue closing under it because
/// the sender loop died.
pub enum CallWait<R> {
    Response(R),
    TimedOut,
    Closed,
}

/// Maps what a waiting call observed to its result: a response succeeds,
/// the window closing is a timeout error, the queue closing is a
/// transport error. Nothing else can come out.
pub fn settle_call<R>(wait: CallWait<R>) -> (r: Result<R, ConnectError>)
    ensures
        wait matches CallWait::Response(resp) ==> r == Ok::<R, ConnectError>(resp),
        wait is TimedOut ==> r == Err::<R, ConnectError>(ConnectError::Timeout),
        wait is Closed ==> r == Err::<R, ConnectError>(ConnectError::WebSocket),
{
    match wait {
        CallWait::Response(resp) => Ok(resp),
        CallWait::TimedOut => Err(ConnectError::Timeout),
        CallWait::Closed => Err(ConnectError::WebSocket),
    }
}

/// Correlation state of one connection: the lifecycle status and the
/// pending-call table. The surrounding transport owns the socket and the
/// queues; every decision about admitting, resolving or abandoning a call
/// goes through here.
pub struct Connection<V> {
    status: StatusCell,
    recorder: RequestRecorder<V>,
}

impl<V> Connection<V> {
    pub closed spec fn inv(&self) -> bool {
        self.recorder.inv()
    }

    /// Current lifecycle status.
    pub closed spec fn spec_status(&self) -> Status {
        self.status@
    }

    /// The outstanding calls: echo id to completion handle.
    pub closed spec fn pending(&self) -> Map<u64, V> {
        self.recorder@
    }

    pub fn new() -> (r: Connection<V>)
        ensures
            r.inv(),
            r.spec_status() == Status::NotConnected,
            r.pending() == Map::<u64, V>::empty(),
    {
        Connection { status: StatusCell::new(), recorder: RequestRecorder::new() }
    }

    pub fn status(&self) -> (r: &Status)
        ensures
            *r == self.spec_status(),
    {
        self.status.current()
    }

    /// Records that the transport is up; a dead connection stays dead.
    pub fn mark_connected(&mut self)
        requires
            old(self).inv(),
        ensures
            final(self).inv(),
            final(self).pending() == old(self).pending(),
            old(self).spec_status() is Disconnected ==> final(self).spec_status()
                == old(self).spec_status(),
            !(old(self).spec_status() is Disconnected) ==> final(self).spec_status()
                == Status::Connected,
    {
        self.status.mark_connected();
    }

    /// Records the terminal transition; the first reason recorded is kept.
    pub fn mark_disconnected(&mut self, reason: Option<String>)
        requires
            old(self).inv(),
        ensures
            final(self).inv(),
            final(self).pending() == old(self).pending(),
            old(self).spec_status() is Disconnected ==> final(self).spec_status()
                == old(self).spec_status(),
            !(old(self).spec_status() is Disconnected) ==> final(self).spec_status()
                == Status::Disconnected(reason),
            final(self).spec_status() is Disconnected,
    {
        self.status.mark_disconnected(reason);
    }

    /// Admits a call: registers its completion handle under its echo id,
    /// or rejects it at once when the connection is not up. A rejected
    /// call leaves no trace in the table, so nothing has to be cleaned up
    /// and nothing waits out a timeout.
    pub fn try_register(&mut self, echo: u64, handle: V) -> (r: Result<(), ConnectError>)
        requires
            old(self).inv(),
        ensures
            final(self).inv(),
            final(self).spec_status() == old(self).spec_status(),
            old(self).spec_status() is Connected ==> r == Ok::<(), ConnectError>(())
                && final(self).pending() == old(self).pending().insert(echo, handle),
            !(old(self).spec_status() is Connected) ==> (r matches Err(e) && e is Status
                && final(self).pending() == old(self).pending()),
    {
        match self.status.current() {
            Status::Connected => {
                self.recorder.insert(echo, handle);
                Ok(())
            },
            Status::NotConnected => Err(ConnectError::Status("not connected")),
            Status::Disconnected(_) => Err(ConnectError::Status("disconnected")),
        }
    }

    /// Takes the completion handle registered under an echo id out of the
    /// table. The receiver loop uses this to deliver a correlated
    /// response; a call uses it on its way out, whatever its outcome, so
    /// a late or duplicate response finds no entry and is dropped. `None`
    /// means no such call is outstanding.
    pub fn remove_pending(&mut self, echo: u64) -> (r: Option<V>)
        requires
            old(self).inv(),
        ensures
            final(self).inv(),
            final(self).spec_status() == old(self).spec_status(),
            final(self).pending() == old(self).pending().remove(echo),
            r matches Some(h) ==> old(self).pending().contains_key(echo)
                && old(self).pending()[echo] == h,
            r is None ==> !old(self).pending().contains_key(echo),
            !final(self).pending().contains_key(echo),
    {
        self.recorder.remove(echo)
    }

    /// Empties the pending-call table, handing every outstanding
    /// completion handle back. Run when the connection dies: dropping
    /// the returned handles makes every call still waiting fail at once
    /// rather than wait out its timeout window.
    pub fn drain_pending(&mut self) -> (r: Vec<(u64, V)>)
        requires
            old(self).inv(),
        ensures
            final(self).inv(),
            final(self).spec_status() == old(self).spec_status(),
            final(self).pending() == Map::<u64, V>::empty(),
            forall|i: int|
                0 <= i < r@.len() ==> old(self).pending().contains_key((#[trigger] r@[i]).0)
                    && old(self).pending()[r@[i].0] == r@[i].1,
            forall|k: u64|
                old(self).pending().contains_key(k) ==> exists|i: int|
                    0 <= i < r@.len() && (#[trigger] r@[i]).0 == k,
    {
        self.recorder.drain()
    }

    /// Whether a call with this echo id is outstanding.
    pub fn is_pending(&self, echo: u64) -> (r: bool)
        ensures
            r == self.pending().contains_key(echo),
    {
        self.recorder.contains(echo)
    }
}

/// A response carrying one echo id settles exactly the call registered
/// under that id and no other: taking the entry for `resolved` out of the
/// pending-call table leaves every other outstanding call's handle in
/// place and unchanged.
pub proof fn lemma_resolution_is_exact<V>(pending: Map<u64, V>, resolved: u64, other: u64)
    requires
        pending.contains_key(other),
        resolved != other,
    ensures
        pending.remove(resolved).contains_key(other),
        pending.remove(resolved)[other] == pending[other],
{
}

} // verus!
