//! Transport configuration: explicit values for what would otherwise be
//! ambient library settings.

use vstd::prelude::*;

verus! {

/// Knobs of one transport session, passed into session construction.
#[derive(Clone, Copy, PartialEq, Eq, Structural, Debug)]
pub struct TransportConfig {
    /// Time units between liveness probes; a session with no traffic for
    /// longer than this is considered half-open and closed.
    pub keep_alive_interval: u64,
    /// Cap on concurrently open unidirectional streams per session.
    pub max_concurrent_uni_streams: u32,
}

impl Default for TransportConfig {
    /// The stock configuration: probe every 10 time units, admit up to 100
    /// concurrent unidirectional streams.
    fn default() -> (c: Self)
        ensures
            c.keep_alive_interval == 10,
            c.max_concurrent_uni_streams == 100,
    {
        TransportConfig { keep_alive_interval: 10, max_concurrent_uni_streams: 100 }
    }
}

/// Bounded admission control: one more unidirectional stream may open only
/// while the session is under its configured cap.
pub fn admit_stream(open_streams: u32, cfg: &TransportConfig) -> (r: bool)
    ensures
        r == (open_streams < cfg.max_concurrent_uni_streams),
{
    open_streams < cfg.max_concurrent_uni_streams
}

/// Liveness check: a session is expired exactly when it has seen no traffic
/// for longer than the keep-alive interval.
pub fn session_expired(now: u64, last_traffic: u64, cfg: &TransportConfig) -> (r: bool)
    requires
        last_traffic <= now,
    ensures
        r == (now - last_traffic > cfg.keep_alive_interval),
{
    now - last_traffic > cfg.keep_alive_interval
}

} // verus!
