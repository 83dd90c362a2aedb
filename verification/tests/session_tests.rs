use ordercast::config::{admit_stream, session_expired, TransportConfig};
use ordercast::creds::make_server_credentials;
use ordercast::errors::TransportError;
use ordercast::trust::{client_handshake_outcome, evaluate_server_cert, TrustPolicy};

#[test]
fn trust_all_accepts_untrusted_certificate() {
    let d = evaluate_server_cert(&TrustPolicy::TrustAll, false);
    assert!(d.accept);
    assert!(d.insecure_warning);
    assert!(client_handshake_outcome(&TrustPolicy::TrustAll, false).is_ok());
}

#[test]
fn verify_rejects_untrusted_certificate() {
    let d = evaluate_server_cert(&TrustPolicy::Verify, false);
    assert!(!d.accept);
    assert!(!d.insecure_warning);
    let r = client_handshake_outcome(&TrustPolicy::Verify, false);
    assert_eq!(r.unwrap_err(), TransportError::HandshakeFailed);
}

#[test]
fn verify_accepts_trusted_certificate() {
    let d = evaluate_server_cert(&TrustPolicy::Verify, true);
    assert!(d.accept);
    assert!(!d.insecure_warning);
    assert!(client_handshake_outcome(&TrustPolicy::Verify, true).is_ok());
}

#[test]
fn default_transport_config() {
    let c = TransportConfig::default();
    assert_eq!(c.keep_alive_interval, 10);
    assert_eq!(c.max_concurrent_uni_streams, 100);
}

#[test]
fn stream_admission_is_bounded() {
    let c = TransportConfig::default();
    assert!(admit_stream(0, &c));
    assert!(admit_stream(99, &c));
    assert!(!admit_stream(100, &c));
    assert!(!admit_stream(200, &c));
}

#[test]
fn keep_alive_expiry() {
    let c = TransportConfig::default();
    assert!(!session_expired(20, 10, &c));
    assert!(session_expired(21, 10, &c));
}

#[test]
fn self_signed_credentials_are_generated() {
    let creds = make_server_credentials().expect("credential generation must succeed here");
    assert!(!creds.cert_der.is_empty());
    assert!(!creds.key_der.is_empty());
}

#[test]
fn session_lifecycle_and_stream_cap() {
    let cfg = TransportConfig { keep_alive_interval: 10, max_concurrent_uni_streams: 2 };
    let mut s = ordercast::session::Session::new(cfg);
    s.handshake_done(true);
    assert!(s.open_stream().is_ok());
    assert!(s.open_stream().is_ok());
    assert_eq!(s.open_stream().unwrap_err(), TransportError::StreamOpenFailed);
    s.stream_done();
    assert!(s.open_stream().is_ok());
}

#[test]
fn closed_session_rejects_streams() {
    let mut s = ordercast::session::Session::new(TransportConfig::default());
    s.handshake_done(true);
    s.close();
    assert_eq!(s.open_stream().unwrap_err(), TransportError::SessionClosed);
}

#[test]
fn close_is_idempotent() {
    let mut s = ordercast::session::Session::new(TransportConfig::default());
    s.handshake_done(true);
    assert!(s.open_stream().is_ok());
    s.close();
    let once = s;
    s.close();
    assert_eq!(s, once);
}

#[test]
fn rejected_handshake_closes_session() {
    let mut s = ordercast::session::Session::new(TransportConfig::default());
    s.handshake_done(false);
    assert_eq!(s.open_stream().unwrap_err(), TransportError::SessionClosed);
}

#[test]
fn quiet_session_is_closed_by_keep_alive() {
    let mut s = ordercast::session::Session::new(TransportConfig::default());
    s.handshake_done(true);
    s.check_liveness(15, 10);
    assert!(s.open_stream().is_ok());
    s.stream_done();
    s.check_liveness(21, 10);
    assert_eq!(s.open_stream().unwrap_err(), TransportError::SessionClosed);
}
