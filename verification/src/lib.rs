//! Core logic of a presence-tracking service.
//!
//! Long-lived clients connect over TCP; each connection is watched by a
//! per-connection liveness state machine ([`session`]), and a single
//! coordinator ([`coordinator`]) folds the sessions' connect/disconnect
//! events into one presence count that drives an external lock resource
//! (a filesystem sentinel other processes observe to decide whether the
//! host may sleep).  The [`presence`] module states and proves the
//! trace-level invariants that tie the two together.
//!
//! All I/O (listening, reading, writing, touching the sentinel) lives
//! outside this crate; callers feed the state machines plain values and
//! carry out the actions they return.

pub mod coordinator;
pub mod presence;
pub mod session;

pub use coordinator::Coordinator;
pub use coordinator::LockAction;
pub use presence::PresenceEvent;
pub use session::greeting;
pub use session::probe_byte;
pub use session::Phase;
pub use session::ReadOutcome;
pub use session::Session;
pub use session::SessionCommand;
pub use session::SessionOp;
pub use session::KEEPALIVE_SECONDS;
pub use session::LISTEN_PORT;
pub use session::MAX_STALENESS;
pub use session::WRITE_TIMEOUT_SECONDS;
