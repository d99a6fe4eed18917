use vstd::prelude::*;

verus! {

/// Seconds of silence tolerated on one read before the session probes.
/// Conservative on purpose: the expected client is a phone, and probing
/// more often would cost it battery for nothing.
pub const KEEPALIVE_SECONDS: u64 = 240;

/// Seconds allowed for one outbound write (the greeting or a probe).
pub const WRITE_TIMEOUT_SECONDS: u64 = 5;

/// TCP port the connection listener binds.
pub const LISTEN_PORT: u16 = 5005;

/// Largest staleness that keeps the session monitoring.  A successful
/// probe that starts from this value is the sixth consecutive idle cycle
/// and terminates the session.
pub const MAX_STALENESS: u64 = 5;

/// Where a session stands in its life.  The phases only ever advance:
/// `Greeting -> Monitoring -> Terminated -> Departed`.
#[derive(Clone, Copy, Debug, PartialEq, Eq)]
pub enum Phase {
    /// Just accepted; the greeting and the `+1` event are still owed.
    Greeting,
    /// Watching the connection for traffic.
    Monitoring,
    /// Done with the connection; the `-1` event is still owed.
    Terminated,
    /// The `-1` event has been handed out; nothing remains to do.
    Departed,
}

/// What one bounded read of the connection came to.  A read error is
/// reported as `TimedOut`: like a timeout it only means nothing arrived,
/// and the probe that follows settles whether the peer is still there.
#[derive(Clone, Copy, Debug, PartialEq, Eq)]
pub enum ReadOutcome {
    /// The read returned this many bytes; zero means the peer closed.
    Received(usize),
    /// Nothing arrived within the keepalive window.
    TimedOut,
}

/// What the session asks its caller to do next.
#[derive(Clone, Copy, Debug, PartialEq, Eq)]
pub enum SessionCommand {
    /// Keep monitoring: read again.
    Proceed,
    /// Write one probe byte, then report how that went.
    SendProbe,
    /// Stop: hand the `-1` event to the coordinator and drop the connection.
    Terminate,
}

/// One step a session can take, as a value: the abstract counterpart of
/// the methods below, used to state laws about whole runs.
#[derive(Clone, Copy, Debug, PartialEq, Eq)]
pub enum SessionOp {
    /// Greeting sent and the `+1` event emitted.
    Connect,
    /// One bounded read came back with this outcome.
    Read(ReadOutcome),
    /// A probe was written; `true` means the write succeeded.
    ProbeResult(bool),
    /// The `-1` event emitted.
    Disconnect,
}

/// The per-connection liveness state machine.  It owns no I/O: the caller
/// reads and writes the connection and feeds the outcomes in, then carries
/// out the command handed back.
pub struct Session {
    /// Current phase of the session's life.
    pub phase: Phase,
    /// Consecutive idle cycles (timed-out read answered by a successful
    /// probe) since traffic was last seen.
    pub staleness: u64,
}

/// Whether `op` may be taken from state `s`: each phase admits exactly
/// the steps the session's methods accept there.
pub open spec fn op_enabled(s: Session, op: SessionOp) -> bool {
    match op {
        SessionOp::Connect => s.phase is Greeting,
        SessionOp::Read(_) => s.phase is Monitoring,
        SessionOp::ProbeResult(_) => s.phase is Monitoring && s.staleness <= MAX_STALENESS,
        SessionOp::Disconnect => s.phase is Terminated,
    }
}

/// The state after taking `op` from `s`: the mathematical transition the
/// session's methods implement.
pub open spec fn apply_op(s: Session, op: SessionOp) -> Session {
    match op {
        SessionOp::Connect => Session { phase: Phase::Monitoring, staleness: 0 },
        SessionOp::Read(outcome) => match outcome {
            ReadOutcome::Received(n) => if n == 0 {
                Session { phase: Phase::Terminated, staleness: s.staleness }
            } else {
                Session { phase: s.phase, staleness: 0 }
            },
            ReadOutcome::TimedOut => s,
        },
        SessionOp::ProbeResult(ok) => if !ok {
            Session { phase: Phase::Terminated, staleness: s.staleness }
        } else if s.staleness >= MAX_STALENESS {
            Session { phase: Phase::Terminated, staleness: (s.staleness + 1) as u64 }
        } else {
            Session { phase: s.phase, staleness: (s.staleness + 1) as u64 }
        },
        SessionOp::Disconnect => Session { phase: Phase::Departed, staleness: s.staleness },
    }
}

impl Session {
    /// The state machine's invariant: while the session monitors, the
    /// staleness counter stays within the six-cycle budget.
    pub open spec fn wf(self) -> bool {
        self.phase is Monitoring ==> self.staleness <= MAX_STALENESS
    }

    /// The state of a freshly accepted session.
    pub open spec fn spec_init() -> Session {
        Session { phase: Phase::Greeting, staleness: 0 }
    }

    /// A session for a just-accepted connection, still owing its greeting.
    pub fn new() -> (s: Session)
        ensures
            s == Session::spec_init(),
            s.phase is Greeting,
            s.staleness == 0,
            s.wf(),
    {
        Session { phase: Phase::Greeting, staleness: 0 }
    }

    /// The greeting was sent: the session starts monitoring and hands back
    /// the `+1` presence event for the coordinator.  Presence is asserted
    /// here, before the first read, so the sentinel can appear on accept,
    /// not on first traffic.
    pub fn connect(&mut self) -> (delta: i64)
        requires
            old(self).phase is Greeting,
        ensures
            delta == 1,
            *final(self) == apply_op(*old(self), SessionOp::Connect),
            final(self).phase is Monitoring,
            final(self).staleness == 0,
            final(self).wf(),
    {
        self.phase = Phase::Monitoring;
        self.staleness = 0;
        1
    }

    /// React to one bounded read.  Zero bytes mean the peer closed and end
    /// the session at once, whatever the staleness; any traffic proves the
    /// peer alive and resets the staleness to zero; a timeout changes
    /// nothing yet, the caller must probe and report back.
    pub fn on_read(&mut self, outcome: ReadOutcome) -> (cmd: SessionCommand)
        requires
            old(self).phase is Monitoring,
            old(self).wf(),
        ensures
            *final(self) == apply_op(*old(self), SessionOp::Read(outcome)),
            (outcome is Received && outcome->0 == 0) ==> (cmd is Terminate
                && final(self).phase is Terminated),
            (outcome is Received && outcome->0 > 0) ==> (cmd is Proceed
                && final(self).phase is Monitoring && final(self).staleness == 0),
            outcome is TimedOut ==> (cmd is SendProbe && *final(self) == *old(self)),
            final(self).wf(),
    {
        match outcome {
            ReadOutcome::Received(n) => {
                if n == 0 {
                    self.phase = Phase::Terminated;
                    SessionCommand::Terminate
                } else {
                    self.staleness = 0;
                    SessionCommand::Proceed
                }
            },
            ReadOutcome::TimedOut => SessionCommand::SendProbe,
        }
    }

    /// React to the outcome of a probe write.  A failed write means the
    /// connection is dead: terminate.  A successful write counts one more
    /// idle cycle; the sixth in a row (staleness already at its cap)
    /// terminates the session.
    pub fn on_probe_result(&mut self, ok: bool) -> (cmd: SessionCommand)
        requires
            old(self).phase is Monitoring,
            old(self).wf(),
        ensures
            *final(self) == apply_op(*old(self), SessionOp::ProbeResult(ok)),
            !ok ==> (cmd is Terminate && final(self).phase is Terminated
                && final(self).staleness == old(self).staleness),
            ok ==> final(self).staleness == old(self).staleness + 1,
            (ok && old(self).staleness < MAX_STALENESS) ==> (cmd is Proceed
                && final(self).phase is Monitoring),
            (ok && old(self).staleness == MAX_STALENESS) ==> (cmd is Terminate
                && final(self).phase is Terminated),
            final(self).wf(),
    {
        if !ok {
            self.phase = Phase::Terminated;
            SessionCommand::Terminate
        } else {
            self.staleness = self.staleness + 1;
            if self.staleness > MAX_STALENESS {
                self.phase = Phase::Terminated;
                SessionCommand::Terminate
            } else {
                SessionCommand::Proceed
            }
        }
    }

    /// The session is done: hand back the `-1` presence event that closes
    /// this session's `+1`.  Asking for it moves the session to `Departed`,
    /// so each session yields it exactly once.
    pub fn disconnect(&mut self) -> (delta: i64)
        requires
            old(self).phase is Terminated,
        ensures
            delta == -1,
            *final(self) == apply_op(*old(self), SessionOp::Disconnect),
            final(self).phase is Departed,
            final(self).staleness == old(self).staleness,
            final(self).wf(),
    {
        self.phase = Phase::Departed;
        -1
    }
}

/// The state after taking every step of `ops` in order, starting from `s`.
pub open spec fn run_ops(s: Session, ops: Seq<SessionOp>) -> Session
    decreases ops.len(),
{
    if ops.len() == 0 {
        s
    } else {
        apply_op(run_ops(s, ops.drop_last()), ops.last())
    }
}

/// A run is valid when every step is enabled in the state the steps before
/// it produced: exactly the `requires` of the session's methods.
pub open spec fn valid_run(s: Session, ops: Seq<SessionOp>) -> bool {
    forall|i: int| 0 <= i < ops.len()
        ==> #[trigger] op_enabled(run_ops(s, ops.take(i)), ops[i])
}

/// Whether some step of `ops` is the `+1` emission.
pub open spec fn has_connect(ops: Seq<SessionOp>) -> bool {
    exists|i: int| 0 <= i < ops.len() && ops[i] is Connect
}

/// Whether some step of `ops` is the `-1` emission.
pub open spec fn has_disconnect(ops: Seq<SessionOp>) -> bool {
    exists|i: int| 0 <= i < ops.len() && ops[i] is Disconnect
}

/// Every prefix of a valid run is itself a valid run.
proof fn lemma_valid_run_prefix(s: Session, ops: Seq<SessionOp>, k: int)
    requires
        valid_run(s, ops),
        0 <= k <= ops.len(),
    ensures
        valid_run(s, ops.take(k)),
{
    let p = ops.take(k);
    assert forall|i: int| 0 <= i < p.len()
        implies #[trigger] op_enabled(run_ops(s, p.take(i)), p[i]) by {
        assert(p.take(i) =~= ops.take(i));
        assert(op_enabled(run_ops(s, ops.take(i)), ops[i]));
        assert(p[i] == ops[i]);
    }
}

/// Dropping the last step keeps or drops a connect (or disconnect)
/// exactly as that last step is one.
proof fn lemma_has_snoc(ops: Seq<SessionOp>)
    requires
        ops.len() > 0,
    ensures
        has_connect(ops) <==> (has_connect(ops.drop_last()) || ops.last() is Connect),
        has_disconnect(ops) <==> (has_disconnect(ops.drop_last()) || ops.last() is Disconnect),
{
    let pre = ops.drop_last();
    assert(forall|i: int| 0 <= i < pre.len() ==> pre[i] == ops[i]);
    assert(ops.last() == ops[ops.len() - 1]);
    if has_connect(ops) {
        let i = choose|i: int| 0 <= i < ops.len() && ops[i] is Connect;
        if i < ops.len() - 1 {
            assert(pre[i] is Connect);
        }
    }
    if has_connect(pre) {
        let i = choose|i: int| 0 <= i < pre.len() && pre[i] is Connect;
        assert(ops[i] is Connect);
    }
    if has_disconnect(ops) {
        let i = choose|i: int| 0 <= i < ops.len() && ops[i] is Disconnect;
        if i < ops.len() - 1 {
            assert(pre[i] is Disconnect);
        }
    }
    if has_disconnect(pre) {
        let i = choose|i: int| 0 <= i < pre.len() && pre[i] is Disconnect;
        assert(ops[i] is Disconnect);
    }
}

/// Along any valid run from a fresh session, the `+1` has been emitted
/// exactly when the session has left `Greeting`, and the `-1` exactly
/// when it has reached `Departed`.
proof fn lemma_run_phases(s: Session, ops: Seq<SessionOp>)
    requires
        s.phase is Greeting,
        valid_run(s, ops),
    ensures
        has_connect(ops) <==> !(run_ops(s, ops).phase is Greeting),
        has_disconnect(ops) <==> run_ops(s, ops).phase is Departed,
    decreases ops.len(),
{
    if ops.len() > 0 {
        let pre = ops.drop_last();
        let last = ops.last();
        lemma_valid_run_prefix(s, ops, ops.len() - 1);
        assert(ops.take(ops.len() - 1) =~= pre);
        lemma_run_phases(s, pre);
        lemma_has_snoc(ops);
        assert(op_enabled(run_ops(s, ops.take(ops.len() - 1)), ops[ops.len() - 1]));
        let mid = run_ops(s, pre);
        assert(op_enabled(mid, last));
        assert(run_ops(s, ops) == apply_op(mid, last));
    }
}

/// Pairing law: in any valid run of one session from its initial state,
/// the `+1` is taken at most once, the `-1` at most once and only after
/// the `+1`; and a session that has fully departed has emitted exactly
/// one of each, whichever termination path it took.
pub proof fn lemma_session_pairing(ops: Seq<SessionOp>)
    requires
        valid_run(Session::spec_init(), ops),
    ensures
        forall|i: int, j: int| #![trigger ops[i], ops[j]]
            0 <= i < j < ops.len() ==> !(ops[i] is Connect && ops[j] is Connect),
        forall|i: int, j: int| #![trigger ops[i], ops[j]]
            0 <= i < j < ops.len() ==> !(ops[i] is Disconnect && ops[j] is Disconnect),
        forall|j: int| #![trigger ops[j]]
            0 <= j < ops.len() && ops[j] is Disconnect
                ==> exists|i: int| 0 <= i < j && ops[i] is Connect,
        run_ops(Session::spec_init(), ops).phase is Departed
            ==> has_connect(ops) && has_disconnect(ops),
{
    let s0 = Session::spec_init();
    assert forall|i: int, j: int| #![trigger ops[i], ops[j]]
        0 <= i < j < ops.len() implies !(ops[i] is Connect && ops[j] is Connect) by {
        if ops[i] is Connect && ops[j] is Connect {
            lemma_valid_run_prefix(s0, ops, j);
            lemma_run_phases(s0, ops.take(j));
            assert(ops.take(j)[i] is Connect);
            assert(has_connect(ops.take(j)));
            assert(op_enabled(run_ops(s0, ops.take(j)), ops[j]));
        }
    }
    assert forall|i: int, j: int| #![trigger ops[i], ops[j]]
        0 <= i < j < ops.len() implies !(ops[i] is Disconnect && ops[j] is Disconnect) by {
        if ops[i] is Disconnect && ops[j] is Disconnect {
            lemma_valid_run_prefix(s0, ops, j);
            lemma_run_phases(s0, ops.take(j));
            assert(ops.take(j)[i] is Disconnect);
            assert(has_disconnect(ops.take(j)));
            assert(op_enabled(run_ops(s0, ops.take(j)), ops[j]));
        }
    }
    assert forall|j: int| #![trigger ops[j]]
        0 <= j < ops.len() && ops[j] is Disconnect
            implies exists|i: int| 0 <= i < j && ops[i] is Connect by {
        lemma_valid_run_prefix(s0, ops, j);
        lemma_run_phases(s0, ops.take(j));
        assert(op_enabled(run_ops(s0, ops.take(j)), ops[j]));
        assert(!(run_ops(s0, ops.take(j)).phase is Greeting));
        assert(has_connect(ops.take(j)));
        let i = choose|i: int| 0 <= i < ops.take(j).len() && ops.take(j)[i] is Connect;
        assert(ops[i] is Connect);
    }
    lemma_run_phases(s0, ops);
}

/// `k` consecutive idle cycles.
pub open spec fn idle_cycles(k: nat) -> Seq<SessionOp>
    decreases k,
{
    if k == 0 {
        Seq::empty()
    } else {
        idle_cycles((k - 1) as nat)
            .push(SessionOp::Read(ReadOutcome::TimedOut))
            .push(SessionOp::ProbeResult(true))
    }
}

/// Timeout accumulation: a monitoring session with no idle cycles behind
/// it survives five further consecutive idle cycles, its staleness
/// counting them, and the sixth terminates it — neither the fifth nor a
/// seventh decides.
pub proof fn lemma_timeout_accumulation(s: Session, k: nat)
    requires
        s.phase is Monitoring,
        s.staleness == 0,
        k <= 6,
    ensures
        valid_run(s, idle_cycles(k)),
        run_ops(s, idle_cycles(k)).staleness == k,
        k <= 5 ==> run_ops(s, idle_cycles(k)).phase is Monitoring,
        k == 6 ==> run_ops(s, idle_cycles(k)).phase is Terminated,
    decreases k,
{
    if k == 0 {
        assert(idle_cycles(0) =~= Seq::<SessionOp>::empty());
    } else {
        lemma_timeout_accumulation(s, (k - 1) as nat);
        let a = idle_cycles((k - 1) as nat);
        let q1 = a.push(SessionOp::Read(ReadOutcome::TimedOut));
        let q2 = q1.push(SessionOp::ProbeResult(true));
        assert(q1.drop_last() =~= a);
        assert(q2.drop_last() =~= q1);
        let mid = run_ops(s, a);
        assert(run_ops(s, q1) == apply_op(mid, SessionOp::Read(ReadOutcome::TimedOut)));
        assert(run_ops(s, q2) == apply_op(run_ops(s, q1), SessionOp::ProbeResult(true)));
        assert forall|i: int| 0 <= i < q2.len()
            implies #[trigger] op_enabled(run_ops(s, q2.take(i)), q2[i]) by {
            if i < a.len() {
                assert(q2.take(i) =~= a.take(i));
                assert(op_enabled(run_ops(s, a.take(i)), a[i]));
                assert(q2[i] == a[i]);
            } else if i == a.len() {
                assert(q2.take(i) =~= a);
                assert(q2[i] == SessionOp::Read(ReadOutcome::TimedOut));
            } else {
                assert(q2.take(i) =~= q1);
                assert(q2[i] == SessionOp::ProbeResult(true));
            }
        }
    }
}

/// The fixed two-byte greeting (ASCII `"hi"`) owed to every peer on accept.
pub open spec fn greeting_bytes() -> Seq<u8> {
    seq![104u8, 105u8]
}

/// The greeting as sendable bytes.
pub fn greeting() -> (v: Vec<u8>)
    ensures
        v@ == greeting_bytes(),
{
    let mut v: Vec<u8> = Vec::new();
    v.push(104);
    v.push(105);
    assert(v@ =~= greeting_bytes());
    v
}

/// The single probe byte (ASCII `"."`) written to a silent peer.
pub fn probe_byte() -> (b: u8)
    ensures
        b == 46u8,
{
    46
}

} // verus!
