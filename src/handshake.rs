use vstd::prelude::*;

use crate::copy::{CopyState, TunnelCopy};
use crate::session::{ConnectionId, FailureKind, Session};

verus! {

/// An established tunnel: its session record and its two copy directions,
/// which the driver runs as two independent tasks.
pub struct Tunnel {
    pub session: Session,
    /// Inbound reader to outbound writer.
    pub forward: TunnelCopy,
    /// Outbound reader to inbound writer.
    pub backward: TunnelCopy,
}

impl Tunnel {
    /// A tunnel for `conn_id` on which nothing has happened yet.
    pub open spec fn is_fresh(&self, conn_id: ConnectionId) -> bool {
        &&& self.session@.conn_id == conn_id
        &&& self.session@.forward is None
        &&& self.session@.backward is None
        &&& self.forward.wf()
        &&& self.forward@ == CopyState::initial()
        &&& self.backward.wf()
        &&& self.backward@ == CopyState::initial()
    }
}

/// Completes the handshake of inbound connection `conn_id` once the outbound
/// side has been dialed (a stream opened on the pooled QUIC connection, or a
/// TCP connection to the destination). A failed dial fails the handshake with
/// the same error and yields no session and no copy direction, so nothing is
/// ever read from the inbound connection. A successful dial yields the
/// outbound stream back together with a fresh session and exactly two fresh
/// copy directions.
pub fn handshake<S>(conn_id: ConnectionId, dialed: Result<S, FailureKind>) -> (r: Result<
    (Tunnel, S),
    FailureKind,
>)
    ensures
        r is Ok <==> dialed is Ok,
        dialed is Err ==> r == Err::<(Tunnel, S), FailureKind>(dialed->Err_0),
        r is Ok ==> r->Ok_0.0.is_fresh(conn_id) && r->Ok_0.1 == dialed->Ok_0,
{
    match dialed {
        Err(kind) => Err(kind),
        Ok(outbound) => {
            let tunnel = Tunnel {
                session: Session::new(conn_id),
                forward: TunnelCopy::new(),
                backward: TunnelCopy::new(),
            };
            Ok((tunnel, outbound))
        },
    }
}

} // verus!
