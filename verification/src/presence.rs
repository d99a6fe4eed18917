use vstd::prelude::*;

verus! {

/// One presence event as the coordinator receives it, tagged with the
/// identity of the session that sent it: `Connect` is the session's `+1`,
/// `Disconnect` its `-1`.  Ghost only: it exists to state trace-level
/// laws about the count.
pub enum PresenceEvent {
    /// The session with this identity started monitoring.
    Connect(nat),
    /// The session with this identity terminated.
    Disconnect(nat),
}

/// The signed unit the coordinator folds into the count for an event.
pub open spec fn event_delta(e: PresenceEvent) -> int {
    match e {
        PresenceEvent::Connect(_) => 1,
        PresenceEvent::Disconnect(_) => -1,
    }
}

/// The presence count a coordinator that started at zero holds after
/// folding every event of `t`, in order.
pub open spec fn sum_deltas(t: Seq<PresenceEvent>) -> int
    decreases t.len(),
{
    if t.len() == 0 {
        0
    } else {
        sum_deltas(t.drop_last()) + event_delta(t.last())
    }
}

/// Whether the session `sid` has emitted its `+1` somewhere in `t`.
pub open spec fn connected_in(t: Seq<PresenceEvent>, sid: nat) -> bool {
    exists|i: int| 0 <= i < t.len() && t[i] == PresenceEvent::Connect(sid)
}

/// Whether the session `sid` has emitted its `-1` somewhere in `t`.
pub open spec fn disconnected_in(t: Seq<PresenceEvent>, sid: nat) -> bool {
    exists|i: int| 0 <= i < t.len() && t[i] == PresenceEvent::Disconnect(sid)
}

/// The sessions that have emitted their `+1` but not yet their `-1`.
pub open spec fn open_sessions(t: Seq<PresenceEvent>) -> Set<nat> {
    Set::new(|sid: nat| connected_in(t, sid) && !disconnected_in(t, sid))
}

/// A well-formed trace: every session connects at most once, disconnects
/// at most once, and disconnects only after its own connect.  This is
/// exactly the per-session pairing discipline that
/// `session::lemma_session_pairing` proves each session keeps, lifted to
/// the interleaved stream the coordinator sees.
pub open spec fn wf_trace(t: Seq<PresenceEvent>) -> bool {
    &&& (forall|i: int, j: int| #![trigger t[i], t[j]]
        0 <= i < j < t.len() ==> !(t[i] is Connect && t[j] is Connect
            && t[i]->Connect_0 == t[j]->Connect_0))
    &&& (forall|i: int, j: int| #![trigger t[i], t[j]]
        0 <= i < j < t.len() ==> !(t[i] is Disconnect && t[j] is Disconnect
            && t[i]->Disconnect_0 == t[j]->Disconnect_0))
    &&& (forall|j: int| #![trigger t[j]]
        0 <= j < t.len() && t[j] is Disconnect
            ==> connected_in(t.take(j), t[j]->Disconnect_0))
}

/// Extending a trace by one event adds exactly that event's connect or
/// disconnect to what the trace records for each session.
proof fn lemma_events_in_snoc(t: Seq<PresenceEvent>, x: nat)
    requires
        t.len() > 0,
    ensures
        connected_in(t, x)
            <==> (connected_in(t.drop_last(), x) || t.last() == PresenceEvent::Connect(x)),
        disconnected_in(t, x)
            <==> (disconnected_in(t.drop_last(), x) || t.last() == PresenceEvent::Disconnect(x)),
{
    let pre = t.drop_last();
    assert(forall|i: int| 0 <= i < pre.len() ==> pre[i] == t[i]);
    assert(t.last() == t[t.len() - 1]);
    if connected_in(t, x) {
        let i = choose|i: int| 0 <= i < t.len() && t[i] == PresenceEvent::Connect(x);
        if i < t.len() - 1 {
            assert(pre[i] == PresenceEvent::Connect(x));
        }
    }
    if connected_in(pre, x) {
        let i = choose|i: int| 0 <= i < pre.len() && pre[i] == PresenceEvent::Connect(x);
        assert(t[i] == PresenceEvent::Connect(x));
    }
    if disconnected_in(t, x) {
        let i = choose|i: int| 0 <= i < t.len() && t[i] == PresenceEvent::Disconnect(x);
        if i < t.len() - 1 {
            assert(pre[i] == PresenceEvent::Disconnect(x));
        }
    }
    if disconnected_in(pre, x) {
        let i = choose|i: int| 0 <= i < pre.len() && pre[i] == PresenceEvent::Disconnect(x);
        assert(t[i] == PresenceEvent::Disconnect(x));
    }
}

/// Every prefix of a well-formed trace is well formed.
proof fn lemma_wf_trace_prefix(t: Seq<PresenceEvent>, k: int)
    requires
        wf_trace(t),
        0 <= k <= t.len(),
    ensures
        wf_trace(t.take(k)),
{
    let p = t.take(k);
    assert(forall|i: int| 0 <= i < p.len() ==> p[i] == t[i]);
    assert forall|j: int| #![trigger p[j]]
        0 <= j < p.len() && p[j] is Disconnect
            implies connected_in(p.take(j), p[j]->Disconnect_0) by {
        assert(t[j] is Disconnect);
        assert(connected_in(t.take(j), t[j]->Disconnect_0));
        assert(p.take(j) =~= t.take(j));
    }
}

/// Presence-count invariant: after any well-formed trace the running sum
/// of the deltas — the count a coordinator that started at zero holds —
/// is exactly the number of sessions that have emitted their `+1` but not
/// yet their `-1`.  In particular it is never negative.
pub proof fn lemma_count_is_open_sessions(t: Seq<PresenceEvent>)
    requires
        wf_trace(t),
    ensures
        open_sessions(t).finite(),
        sum_deltas(t) == open_sessions(t).len(),
    decreases t.len(),
{
    broadcast use vstd::set::group_set_axioms;

    if t.len() == 0 {
        assert(open_sessions(t) =~= Set::<nat>::empty());
    } else {
        let pre = t.drop_last();
        let e = t.last();
        assert(t.take(t.len() - 1) =~= pre);
        lemma_wf_trace_prefix(t, t.len() - 1);
        lemma_count_is_open_sessions(pre);
        assert(forall|i: int| 0 <= i < pre.len() ==> pre[i] == t[i]);
        assert(e == t[t.len() - 1]);
        match e {
            PresenceEvent::Connect(sid) => {
                assert(!connected_in(pre, sid)) by {
                    if connected_in(pre, sid) {
                        let i = choose|i: int|
                            0 <= i < pre.len() && pre[i] == PresenceEvent::Connect(sid);
                        assert(t[i] is Connect && t[t.len() - 1] is Connect);
                    }
                }
                assert forall|x: nat|
                    open_sessions(t).contains(x)
                        == #[trigger] open_sessions(pre).insert(sid).contains(x) by {
                    lemma_events_in_snoc(t, x);
                }
                assert(open_sessions(t) =~= open_sessions(pre).insert(sid));
            },
            PresenceEvent::Disconnect(sid) => {
                assert(connected_in(pre, sid)) by {
                    assert(t[t.len() - 1] is Disconnect);
                    assert(connected_in(t.take(t.len() - 1), sid));
                }
                assert(!disconnected_in(pre, sid)) by {
                    if disconnected_in(pre, sid) {
                        let i = choose|i: int|
                            0 <= i < pre.len() && pre[i] == PresenceEvent::Disconnect(sid);
                        assert(t[i] is Disconnect && t[t.len() - 1] is Disconnect);
                    }
                }
                assert(open_sessions(pre).contains(sid));
                assert forall|x: nat|
                    open_sessions(t).contains(x)
                        == #[trigger] open_sessions(pre).remove(sid).contains(x) by {
                    lemma_events_in_snoc(t, x);
                }
                assert(open_sessions(t) =~= open_sessions(pre).remove(sid));
            },
        }
    }
}

/// Along a well-formed trace the count never dips below zero: after every
/// prefix it equals the number of then-open sessions, so the coordinator
/// never reaches its fatal branch.
pub proof fn lemma_trace_never_negative(t: Seq<PresenceEvent>, k: int)
    requires
        wf_trace(t),
        0 <= k <= t.len(),
    ensures
        sum_deltas(t.take(k)) == open_sessions(t.take(k)).len(),
        sum_deltas(t.take(k)) >= 0,
{
    lemma_wf_trace_prefix(t, k);
    lemma_count_is_open_sessions(t.take(k));
}

} // verus!
