use qtun::copy::{CopyAction, CopyEvent, CopyPhase, TunnelCopy};
use qtun::handshake::handshake;
use qtun::session::{ConnectionId, CopyOutcome, Direction, FailureKind, Session};
use qtun::stats::TunnelStats;

/// A deterministic pseudo-random payload.
fn payload(len: usize, seed: u64) -> Vec<u8> {
    let mut x = seed;
    let mut out = Vec::with_capacity(len);
    for _ in 0..len {
        x = x.wrapping_mul(6364136223846793005).wrapping_add(1442695040888963407);
        out.push((x >> 33) as u8);
    }
    out
}

/// A writer that accepts at most `limit` bytes per write and panics on a
/// second close.
struct MockWriter {
    limit: usize,
    data: Vec<u8>,
    closes: usize,
}

impl MockWriter {
    fn new(limit: usize) -> Self {
        MockWriter { limit, data: Vec::new(), closes: 0 }
    }

    fn write(&mut self, bytes: &[u8]) -> usize {
        let n = bytes.len().min(self.limit);
        self.data.extend_from_slice(&bytes[..n]);
        n
    }

    fn close(&mut self) {
        assert_eq!(self.closes, 0, "writer closed twice");
        self.closes += 1;
    }
}

/// Runs one copy direction over `input`, read in chunks of `chunk` bytes,
/// into `writer`; returns the reported outcome.
fn drive(input: &[u8], chunk: usize, writer: &mut MockWriter) -> CopyOutcome {
    let mut copy = TunnelCopy::new();
    let mut pos = 0;
    let mut action = CopyAction::Read;
    loop {
        let event = match action {
            CopyAction::Read => {
                let end = (pos + chunk).min(input.len());
                let bytes = input[pos..end].to_vec();
                pos = end;
                CopyEvent::Read(bytes)
            }
            CopyAction::Write(bytes) => CopyEvent::Wrote(writer.write(&bytes)),
            CopyAction::Close => {
                writer.close();
                CopyEvent::Closed
            }
            CopyAction::Report(outcome) => return outcome,
            CopyAction::Idle => panic!("copy went idle"),
        };
        action = copy.step(event);
    }
}

#[test]
fn round_trip_64k_payload_matches() {
    let input = payload(64 * 1024, 7);
    let mut forward_sink = MockWriter::new(1000);
    let outcome = drive(&input, 4096, &mut forward_sink);
    assert_eq!(outcome, CopyOutcome::Transferred(65536));
    assert_eq!(forward_sink.data, input);
    assert_eq!(forward_sink.closes, 1);

    let reply = payload(64 * 1024, 11);
    let mut backward_sink = MockWriter::new(333);
    let outcome = drive(&reply, 1500, &mut backward_sink);
    assert_eq!(outcome, CopyOutcome::Transferred(65536));
    assert_eq!(backward_sink.data, reply);
}

#[test]
fn empty_stream_closes_once_and_reports_zero() {
    let mut sink = MockWriter::new(10);
    let outcome = drive(&[], 10, &mut sink);
    assert_eq!(outcome, CopyOutcome::Transferred(0));
    assert_eq!(sink.closes, 1);
    assert!(sink.data.is_empty());
}

#[test]
fn end_of_stream_asks_for_one_close() {
    let mut copy = TunnelCopy::new();
    assert_eq!(copy.step(CopyEvent::Read(vec![1, 2, 3])), CopyAction::Write(vec![1, 2, 3]));
    assert_eq!(copy.step(CopyEvent::Wrote(2)), CopyAction::Write(vec![3]));
    assert_eq!(copy.step(CopyEvent::Wrote(1)), CopyAction::Read);
    assert_eq!(copy.transferred(), 3);
    assert_eq!(copy.step(CopyEvent::Read(vec![])), CopyAction::Close);
    assert_eq!(copy.phase(), CopyPhase::Closing);
    // A second end of stream while closing asks for nothing more.
    assert_eq!(copy.step(CopyEvent::Read(vec![])), CopyAction::Idle);
    assert_eq!(copy.step(CopyEvent::Closed), CopyAction::Report(CopyOutcome::Transferred(3)));
    assert_eq!(copy.phase(), CopyPhase::Done);
}

#[test]
fn second_close_reports_nothing() {
    let mut copy = TunnelCopy::new();
    assert_eq!(copy.step(CopyEvent::Read(vec![])), CopyAction::Close);
    assert_eq!(copy.step(CopyEvent::Closed), CopyAction::Report(CopyOutcome::Transferred(0)));
    assert_eq!(copy.step(CopyEvent::Closed), CopyAction::Idle);
    assert_eq!(copy.step(CopyEvent::CloseFailed(FailureKind::BrokenPipe)), CopyAction::Idle);
    assert_eq!(copy.phase(), CopyPhase::Done);

    let mut session = Session::new(ConnectionId::new(1));
    assert!(session.record(Direction::Forward, CopyOutcome::Transferred(0)));
    assert!(!session.record(Direction::Forward, CopyOutcome::Failed(FailureKind::Other)));
    assert_eq!(session.outcome(Direction::Forward), Some(CopyOutcome::Transferred(0)));
    assert_eq!(session.outcome(Direction::Backward), None);
}

#[test]
fn read_failure_still_closes_writer() {
    let mut copy = TunnelCopy::new();
    assert_eq!(copy.step(CopyEvent::ReadFailed(FailureKind::ConnectionReset)), CopyAction::Close);
    assert_eq!(
        copy.step(CopyEvent::Closed),
        CopyAction::Report(CopyOutcome::Failed(FailureKind::ConnectionReset))
    );
}

#[test]
fn write_failure_still_closes_writer() {
    let mut copy = TunnelCopy::new();
    assert_eq!(copy.step(CopyEvent::Read(vec![9; 5])), CopyAction::Write(vec![9; 5]));
    assert_eq!(copy.step(CopyEvent::WriteFailed(FailureKind::BrokenPipe)), CopyAction::Close);
    assert_eq!(
        copy.step(CopyEvent::Closed),
        CopyAction::Report(CopyOutcome::Failed(FailureKind::BrokenPipe))
    );
}

#[test]
fn zero_length_write_is_a_failure() {
    let mut copy = TunnelCopy::new();
    copy.step(CopyEvent::Read(vec![1]));
    assert_eq!(copy.step(CopyEvent::Wrote(0)), CopyAction::Close);
    assert_eq!(
        copy.step(CopyEvent::Closed),
        CopyAction::Report(CopyOutcome::Failed(FailureKind::WriteZero))
    );
}

#[test]
fn overlong_write_count_is_a_failure() {
    let mut copy = TunnelCopy::new();
    copy.step(CopyEvent::Read(vec![1, 2]));
    assert_eq!(copy.step(CopyEvent::Wrote(3)), CopyAction::Close);
    assert_eq!(
        copy.step(CopyEvent::CloseFailed(FailureKind::Other)),
        CopyAction::Report(CopyOutcome::Failed(FailureKind::Other))
    );
}

#[test]
fn close_failure_keeps_copy_outcome() {
    let mut copy = TunnelCopy::new();
    copy.step(CopyEvent::Read(vec![4, 5]));
    copy.step(CopyEvent::Wrote(2));
    assert_eq!(copy.step(CopyEvent::Read(vec![])), CopyAction::Close);
    assert_eq!(
        copy.step(CopyEvent::CloseFailed(FailureKind::ConnectionAborted)),
        CopyAction::Report(CopyOutcome::Transferred(2))
    );
}

#[test]
fn stray_events_are_ignored() {
    let mut copy = TunnelCopy::new();
    assert_eq!(copy.step(CopyEvent::Wrote(4)), CopyAction::Idle);
    assert_eq!(copy.step(CopyEvent::Closed), CopyAction::Idle);
    assert_eq!(copy.phase(), CopyPhase::Reading);
    copy.step(CopyEvent::Read(vec![1]));
    assert_eq!(copy.step(CopyEvent::Read(vec![2])), CopyAction::Idle);
    assert_eq!(copy.phase(), CopyPhase::Writing);
}

#[test]
fn failed_dial_gives_no_tunnel() {
    let r = handshake::<u32>(ConnectionId::new(3), Err(FailureKind::ConnectionRefused));
    match r {
        Err(kind) => assert_eq!(kind, FailureKind::ConnectionRefused),
        Ok(_) => panic!("a failed dial must fail the handshake"),
    }
}

#[test]
fn successful_dial_gives_fresh_tunnel() {
    let (tunnel, stream) = match handshake(ConnectionId::new(42), Ok("stream-7")) {
        Ok(t) => t,
        Err(_) => panic!("dial succeeded"),
    };
    assert_eq!(stream, "stream-7");
    assert_eq!(tunnel.session.conn_id(), ConnectionId::new(42));
    assert_eq!(tunnel.session.outcome(Direction::Forward), None);
    assert_eq!(tunnel.session.outcome(Direction::Backward), None);
    assert!(!tunnel.session.is_complete());
    assert_eq!(tunnel.forward.phase(), CopyPhase::Reading);
    assert_eq!(tunnel.backward.phase(), CopyPhase::Reading);
    assert_eq!(tunnel.forward.transferred(), 0);
}

#[test]
fn session_completes_in_either_order() {
    let mut a = Session::new(ConnectionId::new(1));
    assert!(a.record(Direction::Backward, CopyOutcome::Failed(FailureKind::TimedOut)));
    assert!(!a.is_complete());
    assert!(a.record(Direction::Forward, CopyOutcome::Transferred(10)));
    assert!(a.is_complete());

    let mut b = Session::new(ConnectionId::new(2));
    assert!(b.record(Direction::Forward, CopyOutcome::Transferred(10)));
    assert!(!b.is_complete());
    assert!(b.record(Direction::Backward, CopyOutcome::Transferred(0)));
    assert!(b.is_complete());
}

#[test]
fn concurrent_tunnels_do_not_mix_bytes() {
    let mut a = TunnelCopy::new();
    let mut b = TunnelCopy::new();
    let mut out_a = Vec::new();
    let mut out_b = Vec::new();
    for i in 0..10u8 {
        if let CopyAction::Write(bytes) = a.step(CopyEvent::Read(vec![b'a', i])) {
            out_a.extend_from_slice(&bytes);
            a.step(CopyEvent::Wrote(bytes.len()));
        }
        if let CopyAction::Write(bytes) = b.step(CopyEvent::Read(vec![b'b', i, i])) {
            out_b.extend_from_slice(&bytes);
            b.step(CopyEvent::Wrote(bytes.len()));
        }
    }
    assert_eq!(out_a.len(), 20);
    assert_eq!(out_b.len(), 30);
    assert!(out_a.chunks(2).all(|c| c[0] == b'a'));
    assert!(out_b.chunks(3).all(|c| c[0] == b'b'));
    assert_eq!(a.transferred(), 20);
    assert_eq!(b.transferred(), 30);
}

#[test]
fn stats_count_handshakes_and_reports() {
    let mut stats = TunnelStats::new();
    stats.on_handshake(false);
    stats.on_handshake(true);
    stats.on_report(CopyOutcome::Transferred(100), false);
    stats.on_report(CopyOutcome::Failed(FailureKind::ConnectionReset), true);
    assert_eq!(stats.handshakes_failed, 1);
    assert_eq!(stats.sessions_opened, 1);
    assert_eq!(stats.sessions_completed, 1);
    assert_eq!(stats.directions_finished, 1);
    assert_eq!(stats.directions_failed, 1);
    assert_eq!(stats.bytes_forwarded, 100);

    stats.on_report(CopyOutcome::Transferred(u64::MAX), true);
    assert_eq!(stats.bytes_forwarded, u64::MAX);
    assert_eq!(stats.sessions_completed, 2);
}
