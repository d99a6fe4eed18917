use vstd::prelude::*;

verus! {

/// What the caller must do to the external lock resource (the sentinel)
/// after one event has been folded into the presence count.
#[derive(Clone, Copy, Debug, PartialEq, Eq)]
pub enum LockAction {
    /// No client remains connected: remove the sentinel.
    Release,
    /// At least one client is connected: create the sentinel (idempotent,
    /// so issuing it while the sentinel already exists is harmless).
    Acquire,
    /// The count went negative: some session broke the pairing discipline
    /// (one `+1`, then one `-1`).  This is a logic defect, not a runtime
    /// condition; the process must abort.
    Fatal,
}

/// The single owner of the presence count and of the intended sentinel
/// state.  It consumes the sessions' signed unit events strictly one at a
/// time, so the count needs no synchronisation.
pub struct Coordinator {
    /// How many clients are currently counted as connected.
    pub count: i64,
    /// Whether the sentinel is meant to be present.  The coordinator only
    /// decides; the caller performs the filesystem action it returns.
    pub lock_held: bool,
}

impl Coordinator {
    /// The coordinator's invariant: the count never goes negative, and the
    /// sentinel is held exactly when at least one client is connected.
    pub open spec fn wf(self) -> bool {
        &&& self.count >= 0
        &&& self.lock_held == (self.count > 0)
    }

    /// A fresh coordinator: no clients counted, sentinel released.  The
    /// caller must force the external resource to the released state to
    /// match, clearing any stale sentinel a crashed run left behind.
    pub fn new() -> (c: Coordinator)
        ensures
            c.count == 0,
            !c.lock_held,
            c.wf(),
    {
        Coordinator { count: 0, lock_held: false }
    }

    /// Fold one signed unit event into the count and decide what must
    /// happen to the lock resource: release it when the count reaches
    /// zero, (re-)acquire it while the count is positive, and abort when
    /// the count dips below zero.  The sentinel decision is taken after
    /// every event, not only on the 0/1 boundary, which is why the
    /// external acquire/release must be idempotent.
    pub fn apply(&mut self, delta: i64) -> (action: LockAction)
        requires
            old(self).wf(),
            delta == 1 || delta == -1,
            old(self).count < i64::MAX,
        ensures
            final(self).count == old(self).count + delta,
            final(self).count == 0 ==> action is Release && !final(self).lock_held,
            final(self).count > 0 ==> action is Acquire && final(self).lock_held,
            final(self).count < 0 ==> action is Fatal && final(self).lock_held == old(self).lock_held,
            final(self).count >= 0 ==> final(self).wf(),
    {
        self.count = self.count + delta;
        if self.count == 0 {
            self.lock_held = false;
            LockAction::Release
        } else if self.count > 0 {
            self.lock_held = true;
            LockAction::Acquire
        } else {
            LockAction::Fatal
        }
    }
}

} // verus!
