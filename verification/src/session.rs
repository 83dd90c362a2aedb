//! Session lifecycle: one encrypted transport connection, from handshake
//! to close.
//!
//! A session is owned by the task that created it; these rules say what
//! that task may do at each step.  Closing is idempotent, streams are
//! admitted only under the configured cap, and once the session is closed
//! every further stream operation observes `SessionClosed`.

use vstd::prelude::*;

use crate::config::{admit_stream, session_expired, TransportConfig};
use crate::errors::TransportError;

verus! {

/// Where the session stands in its life.
#[derive(Clone, Copy, PartialEq, Eq, Structural, Debug)]
pub enum SessionState {
    /// Transport negotiation still in progress.
    Handshaking,
    /// Handshake done; streams may open.
    Open,
    /// Connection gone, by local close or by the peer dropping it.
    Closed,
}

/// One transport session: its state and how many unidirectional streams
/// it currently has open.
#[derive(Clone, Copy, PartialEq, Eq, Structural, Debug)]
pub struct Session {
    pub state: SessionState,
    pub open_streams: u32,
    pub config: TransportConfig,
}

/// Streams exist only while the session is open, and never beyond the cap.
pub open spec fn wf_session(s: Session) -> bool {
    &&& s.open_streams <= s.config.max_concurrent_uni_streams
    &&& !(s.state is Open) ==> s.open_streams == 0
}

/// Closing: every stream is torn down with the connection.
pub open spec fn close_transition(s: Session) -> Session {
    Session { state: SessionState::Closed, open_streams: 0, ..s }
}

impl Session {
    /// A session right after connect or accept, still handshaking.
    pub fn new(config: TransportConfig) -> (s: Session)
        ensures
            wf_session(s),
            s.state is Handshaking,
            s.open_streams == 0,
            s.config == config,
    {
        Session { state: SessionState::Handshaking, open_streams: 0, config }
    }

    /// The transport handshake finished: the session opens exactly when
    /// the trust decision accepted it; otherwise it is closed for good.
    pub fn handshake_done(&mut self, accepted: bool)
        requires
            wf_session(*old(self)),
            old(self).state is Handshaking,
        ensures
            wf_session(*final(self)),
            final(self).config == old(self).config,
            final(self).open_streams == 0,
            accepted ==> final(self).state is Open,
            !accepted ==> final(self).state is Closed,
    {
        self.state = if accepted {
            SessionState::Open
        } else {
            SessionState::Closed
        };
    }

    /// Try to open one more unidirectional stream. Fails with
    /// `SessionClosed` on a session that is not open — an in-flight user
    /// of a dropped connection observes exactly this — and with
    /// `StreamOpenFailed` when the admission cap is reached.
    pub fn open_stream(&mut self) -> (r: Result<(), TransportError>)
        requires
            wf_session(*old(self)),
        ensures
            wf_session(*final(self)),
            final(self).state == old(self).state,
            final(self).config == old(self).config,
            match r {
                Ok(_) => old(self).state is Open && old(self).open_streams
                    < old(self).config.max_concurrent_uni_streams && final(self).open_streams
                    == old(self).open_streams + 1,
                Err(e) => final(self).open_streams == old(self).open_streams && if !(old(
                    self,
                ).state is Open) {
                    e == TransportError::SessionClosed
                } else {
                    e == TransportError::StreamOpenFailed && old(self).open_streams >= old(
                        self,
                    ).config.max_concurrent_uni_streams
                },
            },
    {
        if !matches!(self.state, SessionState::Open) {
            return Err(TransportError::SessionClosed);
        }
        if !admit_stream(self.open_streams, &self.config) {
            return Err(TransportError::StreamOpenFailed);
        }
        self.open_streams = self.open_streams + 1;
        Ok(())
    }

    /// One stream finished its single message (or failed): it is released
    /// whatever happened on it, so one stream's failure never leaks a slot.
    pub fn stream_done(&mut self)
        requires
            wf_session(*old(self)),
            old(self).open_streams > 0,
        ensures
            wf_session(*final(self)),
            final(self).state == old(self).state,
            final(self).config == old(self).config,
            final(self).open_streams == old(self).open_streams - 1,
    {
        self.open_streams = self.open_streams - 1;
    }

    /// Liveness probe: a session quiet for longer than the keep-alive
    /// interval is half-open and closes; recent traffic leaves it alone.
    pub fn check_liveness(&mut self, now: u64, last_traffic: u64)
        requires
            wf_session(*old(self)),
            last_traffic <= now,
        ensures
            wf_session(*final(self)),
            now - last_traffic > old(self).config.keep_alive_interval ==> *final(self)
                == close_transition(*old(self)),
            now - last_traffic <= old(self).config.keep_alive_interval ==> *final(self) == *old(
                self,
            ),
    {
        if session_expired(now, last_traffic, &self.config) {
            self.close();
        }
    }

    /// Close the session and release every stream.
    pub fn close(&mut self)
        requires
            wf_session(*old(self)),
        ensures
            wf_session(*final(self)),
            *final(self) == close_transition(*old(self)),
    {
        self.state = SessionState::Closed;
        self.open_streams = 0;
    }
}

/// Law: closing a session is idempotent — a second close changes nothing.
pub proof fn lemma_close_idempotent(s: Session)
    ensures
        close_transition(close_transition(s)) == close_transition(s),
{
}

} // verus!
