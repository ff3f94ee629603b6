use vstd::prelude::*;

use crate::session::CopyOutcome;

verus! {

/// `a + b`, held at `u64::MAX`.
pub open spec fn sat_add(a: u64, b: u64) -> u64 {
    if a + b > u64::MAX {
        u64::MAX
    } else {
        (a + b) as u64
    }
}

/// Counts aggregated over every tunnel of one endpoint. Each count stops at
/// `u64::MAX` rather than wrapping.
#[derive(Clone, Copy, Debug, PartialEq, Eq, Structural)]
pub struct TunnelStats {
    /// Handshakes whose dial failed; no session was created for them.
    pub handshakes_failed: u64,
    /// Sessions created.
    pub sessions_opened: u64,
    /// Sessions of which both directions have reported.
    pub sessions_completed: u64,
    /// Copy directions that ended at the reader's end of stream.
    pub directions_finished: u64,
    /// Copy directions that ended on an I/O failure.
    pub directions_failed: u64,
    /// Bytes forwarded by the directions that ended at end of stream.
    pub bytes_forwarded: u64,
}

impl TunnelStats {
    pub fn new() -> (r: TunnelStats)
        ensures
            r == (TunnelStats {
                handshakes_failed: 0,
                sessions_opened: 0,
                sessions_completed: 0,
                directions_finished: 0,
                directions_failed: 0,
                bytes_forwarded: 0,
            }),
    {
        TunnelStats {
            handshakes_failed: 0,
            sessions_opened: 0,
            sessions_completed: 0,
            directions_finished: 0,
            directions_failed: 0,
            bytes_forwarded: 0,
        }
    }

    /// Counts one handshake: a new session when it succeeded, a failed dial
    /// otherwise.
    pub fn on_handshake(&mut self, succeeded: bool)
        ensures
            *final(self) == (if succeeded {
                TunnelStats { sessions_opened: sat_add(old(self).sessions_opened, 1), ..*old(self) }
            } else {
                TunnelStats {
                    handshakes_failed: sat_add(old(self).handshakes_failed, 1),
                    ..*old(self)
                }
            }),
    {
        if succeeded {
            self.sessions_opened = self.sessions_opened.saturating_add(1);
        } else {
            self.handshakes_failed = self.handshakes_failed.saturating_add(1);
        }
    }

    /// Counts one direction's reported outcome; `session_complete` tells
    /// whether this report completed its session.
    pub fn on_report(&mut self, outcome: CopyOutcome, session_complete: bool)
        ensures
            final(self).handshakes_failed == old(self).handshakes_failed,
            final(self).sessions_opened == old(self).sessions_opened,
            final(self).sessions_completed == (if session_complete {
                sat_add(old(self).sessions_completed, 1)
            } else {
                old(self).sessions_completed
            }),
            final(self).directions_finished == (match outcome {
                CopyOutcome::Transferred(_) => sat_add(old(self).directions_finished, 1),
                CopyOutcome::Failed(_) => old(self).directions_finished,
            }),
            final(self).directions_failed == (match outcome {
                CopyOutcome::Transferred(_) => old(self).directions_failed,
                CopyOutcome::Failed(_) => sat_add(old(self).directions_failed, 1),
            }),
            final(self).bytes_forwarded == (match outcome {
                CopyOutcome::Transferred(n) => sat_add(old(self).bytes_forwarded, n),
                CopyOutcome::Failed(_) => old(self).bytes_forwarded,
            }),
    {
        match outcome {
            CopyOutcome::Transferred(n) => {
                self.directions_finished = self.directions_finished.saturating_add(1);
                self.bytes_forwarded = self.bytes_forwarded.saturating_add(n);
            },
            CopyOutcome::Failed(_) => {
                self.directions_failed = self.directions_failed.saturating_add(1);
            },
        }
        if session_complete {
            self.sessions_completed = self.sessions_completed.saturating_add(1);
        }
    }
}

} // verus!
