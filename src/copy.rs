use vstd::prelude::*;

use crate::session::{CopyOutcome, FailureKind};

verus! {

/// Where one copy direction stands.
#[derive(Clone, Copy, Debug, PartialEq, Eq, Structural)]
pub enum CopyPhase {
    /// Waiting for the reader to yield bytes, end of stream or a failure.
    Reading,
    /// Bytes are read and not yet all accepted by the writer.
    Writing,
    /// The copy loop is over and the writer is being half-closed.
    Closing,
    /// The outcome has been reported; nothing more happens.
    Done,
}

/// What the reader, the writer or the close of the writer came back with.
#[derive(Clone, Debug, PartialEq, Eq)]
pub enum CopyEvent {
    /// The reader yielded these bytes; none means end of stream.
    Read(Vec<u8>),
    ReadFailed(FailureKind),
    /// The writer accepted this many bytes from the front of the last write.
    Wrote(usize),
    WriteFailed(FailureKind),
    /// The writer's half-close succeeded.
    Closed,
    /// The writer's half-close failed; this does not change the outcome.
    CloseFailed(FailureKind),
}

pub enum EventView {
    Read(Seq<u8>),
    ReadFailed(FailureKind),
    Wrote(nat),
    WriteFailed(FailureKind),
    Closed,
    CloseFailed(FailureKind),
}

impl View for CopyEvent {
    type V = EventView;

    open spec fn view(&self) -> EventView {
        match self {
            CopyEvent::Read(b) => EventView::Read(b@),
            CopyEvent::ReadFailed(k) => EventView::ReadFailed(*k),
            CopyEvent::Wrote(n) => EventView::Wrote(*n as nat),
            CopyEvent::WriteFailed(k) => EventView::WriteFailed(*k),
            CopyEvent::Closed => EventView::Closed,
            CopyEvent::CloseFailed(k) => EventView::CloseFailed(*k),
        }
    }
}

/// What the driver of a copy direction is to do next.
#[derive(Clone, Debug, PartialEq, Eq)]
pub enum CopyAction {
    /// Read from the reader.
    Read,
    /// Write these bytes to the writer.
    Write(Vec<u8>),
    /// Half-close the writer.
    Close,
    /// Record this outcome on the session; the direction is finished.
    Report(CopyOutcome),
    /// The event did not fit the current phase and was ignored.
    Idle,
}

pub enum ActionView {
    Read,
    Write(Seq<u8>),
    Close,
    Report(CopyOutcome),
    Idle,
}

impl View for CopyAction {
    type V = ActionView;

    open spec fn view(&self) -> ActionView {
        match self {
            CopyAction::Read => ActionView::Read,
            CopyAction::Write(b) => ActionView::Write(b@),
            CopyAction::Close => ActionView::Close,
            CopyAction::Report(o) => ActionView::Report(*o),
            CopyAction::Idle => ActionView::Idle,
        }
    }
}

/// A byte count as the copy reports it: the length, saturated at `u64::MAX`.
pub open spec fn count_of(len: nat) -> u64 {
    if len > u64::MAX {
        u64::MAX
    } else {
        len as u64
    }
}

/// The abstract state of one copy direction. `received` is every byte the
/// reader yielded, `forwarded` every byte the writer accepted, `pending` what
/// is read and not yet written; `closes` and `reports` count the half-close
/// requests and the outcome reports issued so far.
pub struct CopyState {
    pub phase: CopyPhase,
    pub pending: Seq<u8>,
    pub received: Seq<u8>,
    pub forwarded: Seq<u8>,
    pub outcome: CopyOutcome,
    pub closes: nat,
    pub reports: nat,
}

impl CopyState {
    pub open spec fn initial() -> CopyState {
        CopyState {
            phase: CopyPhase::Reading,
            pending: Seq::empty(),
            received: Seq::empty(),
            forwarded: Seq::empty(),
            outcome: CopyOutcome::Transferred(0),
            closes: 0,
            reports: 0,
        }
    }

    pub open spec fn inv(self) -> bool {
        &&& self.forwarded + self.pending == self.received
        &&& self.phase == CopyPhase::Reading ==> self.pending.len() == 0 && self.closes == 0
            && self.reports == 0
        &&& self.phase == CopyPhase::Writing ==> self.pending.len() > 0 && self.closes == 0
            && self.reports == 0
        &&& self.phase == CopyPhase::Closing ==> self.closes == 1 && self.reports == 0
        &&& self.phase == CopyPhase::Done ==> self.closes == 1 && self.reports == 1
        &&& (self.phase == CopyPhase::Closing || self.phase == CopyPhase::Done)
            && self.outcome is Transferred ==> self.pending.len() == 0
            && self.outcome == CopyOutcome::Transferred(count_of(self.forwarded.len()))
    }

    /// The copy loop ends with `outcome`: the writer is to be half-closed.
    pub open spec fn stop(self, outcome: CopyOutcome) -> (CopyState, ActionView) {
        (
            CopyState {
                phase: CopyPhase::Closing,
                outcome,
                closes: self.closes + 1,
                ..self
            },
            ActionView::Close,
        )
    }

    /// The state after event `e`, and the action it calls for.
    pub open spec fn next(self, e: EventView) -> (CopyState, ActionView) {
        match self.phase {
            CopyPhase::Reading => match e {
                EventView::Read(b) => if b.len() == 0 {
                    self.stop(CopyOutcome::Transferred(count_of(self.forwarded.len())))
                } else {
                    (
                        CopyState {
                            phase: CopyPhase::Writing,
                            pending: b,
                            received: self.received + b,
                            ..self
                        },
                        ActionView::Write(b),
                    )
                },
                EventView::ReadFailed(k) => self.stop(CopyOutcome::Failed(k)),
                _ => (self, ActionView::Idle),
            },
            CopyPhase::Writing => match e {
                EventView::Wrote(n) => if n == 0 {
                    self.stop(CopyOutcome::Failed(FailureKind::WriteZero))
                } else if n > self.pending.len() {
                    self.stop(CopyOutcome::Failed(FailureKind::Other))
                } else {
                    let rest = self.pending.subrange(n as int, self.pending.len() as int);
                    let s = CopyState {
                        pending: rest,
                        forwarded: self.forwarded + self.pending.subrange(0, n as int),
                        ..self
                    };
                    if rest.len() == 0 {
                        (CopyState { phase: CopyPhase::Reading, ..s }, ActionView::Read)
                    } else {
                        (s, ActionView::Write(rest))
                    }
                },
                EventView::WriteFailed(k) => self.stop(CopyOutcome::Failed(k)),
                _ => (self, ActionView::Idle),
            },
            CopyPhase::Closing => match e {
                EventView::Closed | EventView::CloseFailed(_) => (
                    CopyState { phase: CopyPhase::Done, reports: self.reports + 1, ..self },
                    ActionView::Report(self.outcome),
                ),
                _ => (self, ActionView::Idle),
            },
            CopyPhase::Done => (self, ActionView::Idle),
        }
    }
}

proof fn lemma_next_inv(s: CopyState, e: EventView)
    requires
        s.inv(),
    ensures
        s.next(e).0.inv(),
{
    match s.phase {
        CopyPhase::Writing => match e {
            EventView::Wrote(n) => {
                if 0 < n <= s.pending.len() {
                    let rest = s.pending.subrange(n as int, s.pending.len() as int);
                    assert(s.forwarded + s.pending.subrange(0, n as int) + rest =~= s.forwarded
                        + s.pending);
                }
            },
            _ => {},
        },
        _ => {},
    }
}

/// The state after the events `evs`, in order, starting from `s`.
pub open spec fn run(s: CopyState, evs: Seq<EventView>) -> CopyState
    decreases evs.len(),
{
    if evs.len() == 0 {
        s
    } else {
        run(s.next(evs[0]).0, evs.drop_first())
    }
}

/// The actions answering the events `evs`, in order, starting from `s`.
pub open spec fn run_actions(s: CopyState, evs: Seq<EventView>) -> Seq<ActionView>
    decreases evs.len(),
{
    if evs.len() == 0 {
        Seq::empty()
    } else {
        seq![s.next(evs[0]).1] + run_actions(s.next(evs[0]).0, evs.drop_first())
    }
}

/// How many half-close requests `acts` holds.
pub open spec fn closes_in(acts: Seq<ActionView>) -> nat
    decreases acts.len(),
{
    if acts.len() == 0 {
        0
    } else {
        (if acts[0] is Close { 1nat } else { 0nat }) + closes_in(acts.drop_first())
    }
}

/// How many outcome reports `acts` holds.
pub open spec fn reports_in(acts: Seq<ActionView>) -> nat
    decreases acts.len(),
{
    if acts.len() == 0 {
        0
    } else {
        (if acts[0] is Report { 1nat } else { 0nat }) + reports_in(acts.drop_first())
    }
}

proof fn lemma_run_facts(s: CopyState, evs: Seq<EventView>)
    requires
        s.inv(),
    ensures
        run(s, evs).inv(),
        s.closes + closes_in(run_actions(s, evs)) == run(s, evs).closes,
        s.reports + reports_in(run_actions(s, evs)) == run(s, evs).reports,
    decreases evs.len(),
{
    if evs.len() > 0 {
        let (t, a) = s.next(evs[0]);
        lemma_next_inv(s, evs[0]);
        lemma_run_facts(t, evs.drop_first());
        let acts = run_actions(s, evs);
        assert(acts.drop_first() =~= run_actions(t, evs.drop_first()));
    }
}

proof fn lemma_run_actions_len(s: CopyState, evs: Seq<EventView>)
    ensures
        run_actions(s, evs).len() == evs.len(),
    decreases evs.len(),
{
    if evs.len() > 0 {
        lemma_run_actions_len(s.next(evs[0]).0, evs.drop_first());
    }
}

proof fn lemma_run_action_at(s: CopyState, evs: Seq<EventView>, i: int)
    requires
        0 <= i < evs.len(),
    ensures
        run_actions(s, evs).len() == evs.len(),
        run_actions(s, evs)[i] == run(s, evs.take(i)).next(evs[i]).1,
    decreases i,
{
    let t = s.next(evs[0]).0;
    lemma_run_actions_len(s, evs);
    lemma_run_actions_len(t, evs.drop_first());
    if i > 0 {
        lemma_run_action_at(t, evs.drop_first(), i - 1);
        assert(evs.take(i).drop_first() =~= evs.drop_first().take(i - 1));
    } else {
        assert(evs.take(0) =~= Seq::<EventView>::empty());
    }
}

proof fn lemma_closes_in_positive(acts: Seq<ActionView>, i: int)
    requires
        0 <= i < acts.len(),
        acts[i] is Close,
    ensures
        closes_in(acts) >= 1,
    decreases i,
{
    if i > 0 {
        lemma_closes_in_positive(acts.drop_first(), i - 1);
    }
}

/// Bytes leave a copy direction exactly as they came in: at every point what
/// the writer accepted, followed by what is still pending, is what the reader
/// yielded; once the reader's end of stream ends the copy, the writer has
/// accepted every byte read, in order and unmodified.
pub proof fn lemma_bytes_forwarded_in_order(evs: Seq<EventView>)
    ensures
        ({
            let t = run(CopyState::initial(), evs);
            &&& t.forwarded + t.pending == t.received
            &&& t.forwarded.is_prefix_of(t.received)
            &&& (t.phase == CopyPhase::Closing || t.phase == CopyPhase::Done)
                && t.outcome is Transferred ==> t.forwarded == t.received
        }),
{
    assert(CopyState::initial().forwarded + CopyState::initial().pending =~= CopyState::initial().received);
    lemma_run_facts(CopyState::initial(), evs);
    let t = run(CopyState::initial(), evs);
    assert(t.received.subrange(0, t.forwarded.len() as int) =~= t.forwarded);
    assert((t.phase == CopyPhase::Closing || t.phase == CopyPhase::Done) && t.outcome is Transferred
        ==> t.forwarded + t.pending =~= t.forwarded);
}

/// An end of stream from the reader, while the copy is reading, is answered by
/// a half-close of the writer, and over the whole run the writer is asked to
/// half-close exactly once.
pub proof fn lemma_end_of_stream_closes_once(evs: Seq<EventView>, i: int)
    requires
        0 <= i < evs.len(),
        run(CopyState::initial(), evs.take(i)).phase == CopyPhase::Reading,
        evs[i] == EventView::Read(Seq::empty()),
    ensures
        run_actions(CopyState::initial(), evs)[i] is Close,
        closes_in(run_actions(CopyState::initial(), evs)) == 1,
{
    assert(CopyState::initial().forwarded + CopyState::initial().pending =~= CopyState::initial().received);
    lemma_run_action_at(CopyState::initial(), evs, i);
    lemma_run_facts(CopyState::initial(), evs);
    lemma_closes_in_positive(run_actions(CopyState::initial(), evs), i);
}

/// A copy direction never asks for more than one half-close of its writer and
/// never reports more than one outcome, whatever events reach it; once it has
/// reported, further events (a second close completion included) change
/// nothing and report nothing.
pub proof fn lemma_outcome_reported_once(evs: Seq<EventView>, more: Seq<EventView>)
    ensures
        closes_in(run_actions(CopyState::initial(), evs)) <= 1,
        reports_in(run_actions(CopyState::initial(), evs)) <= 1,
        run(CopyState::initial(), evs).phase == CopyPhase::Done ==> run(
            run(CopyState::initial(), evs),
            more,
        ) == run(CopyState::initial(), evs) && reports_in(
            run_actions(run(CopyState::initial(), evs), more),
        ) == 0,
{
    assert(CopyState::initial().forwarded + CopyState::initial().pending =~= CopyState::initial().received);
    lemma_run_facts(CopyState::initial(), evs);
    let t = run(CopyState::initial(), evs);
    if t.phase == CopyPhase::Done {
        lemma_done_is_final(t, more);
    }
}

proof fn lemma_done_is_final(s: CopyState, more: Seq<EventView>)
    requires
        s.phase == CopyPhase::Done,
    ensures
        run(s, more) == s,
        reports_in(run_actions(s, more)) == 0,
    decreases more.len(),
{
    if more.len() > 0 {
        lemma_done_is_final(s, more.drop_first());
        assert(run_actions(s, more).drop_first() =~= run_actions(s, more.drop_first()));
    }
}

/// One copy direction: the pump from a reader to a writer, driven by the
/// events its I/O produces. It forwards bytes in the order read, half-closes
/// the writer once when the copy loop ends (end of stream or failure), and
/// then reports the outcome once.
pub struct TunnelCopy {
    phase: CopyPhase,
    pending: Vec<u8>,
    transferred: u64,
    outcome: CopyOutcome,
    received: Ghost<Seq<u8>>,
    forwarded: Ghost<Seq<u8>>,
    closes: Ghost<nat>,
    reports: Ghost<nat>,
}

impl View for TunnelCopy {
    type V = CopyState;

    closed spec fn view(&self) -> CopyState {
        CopyState {
            phase: self.phase,
            pending: self.pending@,
            received: self.received@,
            forwarded: self.forwarded@,
            outcome: self.outcome,
            closes: self.closes@,
            reports: self.reports@,
        }
    }
}

impl TunnelCopy {
    pub closed spec fn wf(&self) -> bool {
        &&& self@.inv()
        &&& self.transferred == count_of(self.forwarded@.len())
    }

    /// A copy that has moved nothing yet; its first action is to read.
    pub fn new() -> (r: TunnelCopy)
        ensures
            r.wf(),
            r@ == CopyState::initial(),
    {
        TunnelCopy {
            phase: CopyPhase::Reading,
            pending: Vec::new(),
            transferred: 0,
            outcome: CopyOutcome::Transferred(0),
            received: Ghost(Seq::empty()),
            forwarded: Ghost(Seq::empty()),
            closes: Ghost(0),
            reports: Ghost(0),
        }
    }

    pub fn phase(&self) -> (r: CopyPhase)
        ensures
            r == self@.phase,
    {
        self.phase
    }

    /// Bytes the writer has accepted so far, saturated at `u64::MAX`.
    pub fn transferred(&self) -> (r: u64)
        requires
            self.wf(),
        ensures
            r == count_of(self@.forwarded.len()),
    {
        self.transferred
    }

    fn stop(&mut self, outcome: CopyOutcome) -> (a: CopyAction)
        requires
            old(self).wf(),
            old(self)@.phase == CopyPhase::Reading || old(self)@.phase == CopyPhase::Writing,
            outcome is Transferred ==> old(self)@.pending.len() == 0 && outcome
                == CopyOutcome::Transferred(count_of(old(self)@.forwarded.len())),
        ensures
            final(self).wf(),
            (final(self)@, a@) == old(self)@.stop(outcome),
    {
        self.phase = CopyPhase::Closing;
        self.outcome = outcome;
        self.closes = Ghost(self.closes@ + 1);
        CopyAction::Close
    }

    /// Takes the result of the last action and returns the next one.
    pub fn step(&mut self, e: CopyEvent) -> (a: CopyAction)
        requires
            old(self).wf(),
        ensures
            final(self).wf(),
            (final(self)@, a@) == old(self)@.next(e@),
    {
        proof {
            lemma_next_inv(self@, e@);
        }
        match self.phase {
            CopyPhase::Reading => match e {
                CopyEvent::Read(b) => {
                    if b.len() == 0 {
                        let n = self.transferred;
                        self.stop(CopyOutcome::Transferred(n))
                    } else {
                        let out = copy_from(&b, 0);
                        assert(out@ =~= b@);
                        self.received = Ghost(self.received@ + b@);
                        self.pending = b;
                        self.phase = CopyPhase::Writing;
                        CopyAction::Write(out)
                    }
                },
                CopyEvent::ReadFailed(k) => self.stop(CopyOutcome::Failed(k)),
                _ => CopyAction::Idle,
            },
            CopyPhase::Writing => match e {
                CopyEvent::Wrote(n) => {
                    if n == 0 {
                        self.stop(CopyOutcome::Failed(FailureKind::WriteZero))
                    } else if n > self.pending.len() {
                        self.stop(CopyOutcome::Failed(FailureKind::Other))
                    } else {
                        let rest = self.pending.split_off(n);
                        self.forwarded = Ghost(self.forwarded@ + self.pending@);
                        self.transferred = self.transferred.saturating_add(n as u64);
                        self.pending = rest;
                        if self.pending.len() == 0 {
                            self.phase = CopyPhase::Reading;
                            CopyAction::Read
                        } else {
                            let out = copy_from(&self.pending, 0);
                            assert(out@ =~= self.pending@);
                            CopyAction::Write(out)
                        }
                    }
                },
                CopyEvent::WriteFailed(k) => self.stop(CopyOutcome::Failed(k)),
                _ => CopyAction::Idle,
            },
            CopyPhase::Closing => match e {
                CopyEvent::Closed | CopyEvent::CloseFailed(_) => {
                    self.phase = CopyPhase::Done;
                    self.reports = Ghost(self.reports@ + 1);
                    CopyAction::Report(self.outcome)
                },
                _ => CopyAction::Idle,
            },
            CopyPhase::Done => CopyAction::Idle,
        }
    }
}

/// The bytes of `v` from index `from` on.
fn copy_from(v: &Vec<u8>, from: usize) -> (r: Vec<u8>)
    requires
        from <= v@.len(),
    ensures
        r@ == v@.subrange(from as int, v@.len() as int),
{
    let mut r: Vec<u8> = Vec::new();
    let mut i: usize = from;
    while i < v.len()
        invariant
            from <= i <= v@.len(),
            r@ == v@.subrange(from as int, i as int),
        decreases v@.len() - i,
    {
        r.push(v[i]);
        i = i + 1;
    }
    r
}

} // verus!
