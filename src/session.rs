use vstd::prelude::*;

verus! {

/// Identifier of one inbound connection, used to correlate a tunnel's records.
#[derive(Clone, Copy, Debug, PartialEq, Eq, Structural)]
pub struct ConnectionId {
    pub id: u64,
}

impl ConnectionId {
    pub fn new(id: u64) -> (r: ConnectionId)
        ensures
            r.id == id,
    {
        ConnectionId { id }
    }
}

/// One of the two copy directions of a tunnel.
#[derive(Clone, Copy, Debug, PartialEq, Eq, Structural)]
pub enum Direction {
    /// Inbound connection's reader to the outbound stream's writer.
    Forward,
    /// Outbound stream's reader to the inbound connection's writer.
    Backward,
}

/// The class of an I/O failure seen by a copy direction.
#[derive(Clone, Copy, Debug, PartialEq, Eq, Structural)]
pub enum FailureKind {
    ConnectionRefused,
    ConnectionReset,
    ConnectionAborted,
    BrokenPipe,
    TimedOut,
    UnexpectedEof,
    WriteZero,
    WouldBlock,
    Other,
}

/// How one copy direction ended.
#[derive(Clone, Copy, Debug, PartialEq, Eq, Structural)]
pub enum CopyOutcome {
    /// The reader reached end of stream; this many bytes were forwarded.
    Transferred(u64),
    /// The copy stopped on an I/O failure.
    Failed(FailureKind),
}

/// What a session has recorded so far.
pub struct SessionView {
    pub conn_id: ConnectionId,
    pub forward: Option<CopyOutcome>,
    pub backward: Option<CopyOutcome>,
}

impl SessionView {
    pub open spec fn outcome(self, dir: Direction) -> Option<CopyOutcome> {
        match dir {
            Direction::Forward => self.forward,
            Direction::Backward => self.backward,
        }
    }

    /// A session is complete once both directions have reported.
    pub open spec fn complete(self) -> bool {
        self.forward is Some && self.backward is Some
    }
}

/// The record of one established tunnel: its connection id and, per
/// direction, a slot that is set at most once with how that direction ended.
pub struct Session {
    conn_id: ConnectionId,
    forward: Option<CopyOutcome>,
    backward: Option<CopyOutcome>,
}

impl View for Session {
    type V = SessionView;

    closed spec fn view(&self) -> SessionView {
        SessionView { conn_id: self.conn_id, forward: self.forward, backward: self.backward }
    }
}

impl Session {
    /// A session for `conn_id` with nothing recorded.
    pub fn new(conn_id: ConnectionId) -> (r: Session)
        ensures
            r@.conn_id == conn_id,
            r@.forward is None,
            r@.backward is None,
    {
        Session { conn_id, forward: None, backward: None }
    }

    pub fn conn_id(&self) -> (r: ConnectionId)
        ensures
            r == self@.conn_id,
    {
        self.conn_id
    }

    /// The outcome recorded for `dir`, if any.
    pub fn outcome(&self, dir: Direction) -> (r: Option<CopyOutcome>)
        ensures
            r == self@.outcome(dir),
    {
        match dir {
            Direction::Forward => self.forward,
            Direction::Backward => self.backward,
        }
    }

    /// Whether both directions have reported.
    pub fn is_complete(&self) -> (r: bool)
        ensures
            r == self@.complete(),
    {
        self.forward.is_some() && self.backward.is_some()
    }

    /// Records how `dir` ended. The first record of a direction is kept; a later
    /// one is refused and changes nothing.
    pub fn record(&mut self, dir: Direction, outcome: CopyOutcome) -> (accepted: bool)
        ensures
            accepted == (old(self)@.outcome(dir) is None),
            final(self)@ == record_spec(old(self)@, dir, outcome),
    {
        match dir {
            Direction::Forward => {
                if self.forward.is_some() {
                    false
                } else {
                    self.forward = Some(outcome);
                    true
                }
            },
            Direction::Backward => {
                if self.backward.is_some() {
                    false
                } else {
                    self.backward = Some(outcome);
                    true
                }
            },
        }
    }
}

/// Recording twice for one direction leaves the first outcome in place: a
/// direction never reports two outcomes, whatever the order of the calls.
pub proof fn lemma_record_keeps_first(s: SessionView, dir: Direction, first: CopyOutcome, second: CopyOutcome)
    requires
        s.outcome(dir) is None,
    ensures
        ({
            let after_first = record_spec(s, dir, first);
            let after_second = record_spec(after_first, dir, second);
            after_second == after_first && after_second.outcome(dir) == Some(first)
        }),
{
}

/// The view after `record` on a session whose view is `s`.
pub open spec fn record_spec(s: SessionView, dir: Direction, outcome: CopyOutcome) -> SessionView {
    if s.outcome(dir) is Some {
        s
    } else {
        match dir {
            Direction::Forward => SessionView { forward: Some(outcome), ..s },
            Direction::Backward => SessionView { backward: Some(outcome), ..s },
        }
    }
}

} // verus!
