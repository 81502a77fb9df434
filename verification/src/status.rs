use vstd::prelude::*;

verus! {

/// Lifecycle of one connection. It only ever moves forward:
/// `NotConnected` to `Connected` to `Disconnected`, and `Disconnected`
/// is terminal. The reason carried by `Disconnected` reports why the
/// transport died, when that is known.
pub enum Status {
    NotConnected,
    Connected,
    Disconnected(Option<String>),
}

impl Status {
    /// Position of a status along the lifecycle; transitions never decrease it.
    pub open spec fn rank(&self) -> int {
        match self {
            Status::NotConnected => 0,
            Status::Connected => 1,
            Status::Disconnected(_) => 2,
        }
    }

    pub open spec fn is_connected(&self) -> bool {
        matches!(self, Status::Connected)
    }

    pub open spec fn is_disconnected(&self) -> bool {
        matches!(self, Status::Disconnected(_))
    }

    /// Whether a call may be admitted under this status.
    pub fn connected(&self) -> (r: bool)
        ensures
            r == self.is_connected(),
    {
        matches!(self, Status::Connected)
    }

    pub fn disconnected(&self) -> (r: bool)
        ensures
            r == self.is_disconnected(),
    {
        matches!(self, Status::Disconnected(_))
    }
}

/// Holder of the current `Status` that admits only forward transitions.
pub struct StatusCell {
    status: Status,
}

impl StatusCell {
    pub closed spec fn view(&self) -> Status {
        self.status
    }

    pub fn new() -> (r: StatusCell)
        ensures
            r@ == Status::NotConnected,
    {
        StatusCell { status: Status::NotConnected }
    }

    pub fn current(&self) -> (r: &Status)
        ensures
            *r == self@,
    {
        &self.status
    }

    /// Records that the transport is up. A cell already disconnected stays
    /// disconnected: the lifecycle is terminal there.
    pub fn mark_connected(&mut self)
        ensures
            old(self)@ is Disconnected ==> final(self)@ == old(self)@,
            !(old(self)@ is Disconnected) ==> final(self)@ == Status::Connected,
            final(self)@.rank() >= old(self)@.rank(),
    {
        if !matches!(self.status, Status::Disconnected(_)) {
            self.status = Status::Connected;
        }
    }

    /// Records the terminal transition. The first reason recorded is kept:
    /// a later disconnect of an already-dead connection changes nothing.
    pub fn mark_disconnected(&mut self, reason: Option<String>)
        ensures
            old(self)@ is Disconnected ==> final(self)@ == old(self)@,
            !(old(self)@ is Disconnected) ==> final(self)@ == Status::Disconnected(reason),
            final(self)@.rank() >= old(self)@.rank(),
            final(self)@ is Disconnected,
    {
        if !matches!(self.status, Status::Disconnected(_)) {
            self.status = Status::Disconnected(reason);
        }
    }
}

} // verus!
