use moonlight_web::session::{SessionError, SessionManager, TOKEN_EXPIRATION_MS};

#[test]
fn register_then_claim_succeeds_once() {
    let mut m = SessionManager::new();
    m.register_with_id("sess-a".to_string(), "tok-a".to_string(), 1_000);
    assert_eq!(m.session_count(), 1);

    let grant = m.claim_session(&"tok-a".to_string(), 2_000).unwrap();
    assert_eq!(grant.session_id, "sess-a");
    assert!(!grant.notify_primary);
    assert!(m.is_input_connected(&"sess-a".to_string()));

    // The claim consumed the token: its index entry is gone, so a second
    // claim of the same token finds no session for it.
    let again = m.claim_session(&"tok-a".to_string(), 3_000);
    assert!(matches!(again, Err(SessionError::SessionNotFound)));
}

#[test]
fn consumed_token_string_can_be_registered_again() {
    let mut m = SessionManager::new();
    m.register_with_id("sess-x".to_string(), "tok-x".to_string(), 0);
    m.claim_session(&"tok-x".to_string(), 1_000).unwrap();
    // The consumed token left the index, so the same token string is free
    // for a new session while the claimed one still lives.
    let reg = m.register_session("tok-x".to_string(), 2_000).unwrap();
    assert_eq!(reg.token, "tok-x");
    assert_eq!(m.session_count(), 2);
}

#[test]
fn claim_unknown_token_is_not_found() {
    let mut m = SessionManager::new();
    let r = m.claim_session(&"no-such".to_string(), 0);
    assert!(matches!(r, Err(SessionError::SessionNotFound)));
}

#[test]
fn claim_at_expiry_boundaries() {
    let mut m = SessionManager::new();
    m.register_with_id("sess-b".to_string(), "tok-b".to_string(), 10_000);
    let expires = 10_000 + TOKEN_EXPIRATION_MS;

    // One instant before expiry the claim succeeds.
    let mut m2 = SessionManager::new();
    m2.register_with_id("sess-b".to_string(), "tok-b".to_string(), 10_000);
    assert!(m2.claim_session(&"tok-b".to_string(), expires - 1).is_ok());

    // One instant past expiry the claim reports an expired token.
    let r = m.claim_session(&"tok-b".to_string(), expires + 1);
    assert!(matches!(r, Err(SessionError::TokenExpired)));
}

#[test]
fn sweeper_removes_expired_unclaimed_sessions() {
    let mut m = SessionManager::new();
    m.register_with_id("sess-c".to_string(), "tok-c".to_string(), 0);
    m.register_with_id("sess-d".to_string(), "tok-d".to_string(), 50_000);

    // At 40 s the first token (expiring at 30 s) is swept, the second stays.
    let removed = m.cleanup_expired(40_000);
    assert_eq!(removed, 1);
    assert_eq!(m.session_count(), 1);
    assert!(!m.is_session_active(&"sess-c".to_string()));
    assert!(m.is_session_active(&"sess-d".to_string()));

    // A late join with the swept token finds no session.
    let r = m.claim_session(&"tok-c".to_string(), 41_000);
    assert!(matches!(r, Err(SessionError::SessionNotFound)));
}

#[test]
fn sweeper_never_removes_connected_sessions() {
    let mut m = SessionManager::new();
    m.register_with_id("sess-e".to_string(), "tok-e".to_string(), 0);
    m.claim_session(&"tok-e".to_string(), 1_000).unwrap();

    // Hours later the connected session is still not swept.
    let removed = m.cleanup_expired(10_000_000);
    assert_eq!(removed, 0);
    assert!(m.is_session_active(&"sess-e".to_string()));
}

#[test]
fn primary_disconnect_removes_session_and_notifies_input() {
    let mut m = SessionManager::new();
    m.register_with_id("sess-f".to_string(), "tok-f".to_string(), 0);
    m.claim_session(&"tok-f".to_string(), 1_000).unwrap();
    m.set_input_notify(&"sess-f".to_string());

    let notify_input = m.primary_disconnected(&"sess-f".to_string());
    assert!(notify_input);
    assert_eq!(m.session_count(), 0);
    assert!(!m.is_session_active(&"sess-f".to_string()));

    // A repeated disconnect owes nothing: the session is already gone.
    assert!(!m.primary_disconnected(&"sess-f".to_string()));
}

#[test]
fn input_disconnect_mints_reconnection_token() {
    let mut m = SessionManager::new();
    m.register_with_id("sess-g".to_string(), "tok-g".to_string(), 0);
    m.claim_session(&"tok-g".to_string(), 1_000).unwrap();
    m.set_primary_notify(&"sess-g".to_string());

    let offer = m.input_disconnected(&"sess-g".to_string(), 5_000).unwrap();
    assert!(offer.notify_primary);
    assert!(!m.is_input_connected(&"sess-g".to_string()));

    // The old token stays consumed; the minted token claims the session.
    let stale = m.claim_session(&"tok-g".to_string(), 6_000);
    assert!(stale.is_err());
    let grant = m.claim_session(&offer.new_token, 6_000).unwrap();
    assert_eq!(grant.session_id, "sess-g");
}

#[test]
fn input_then_primary_disconnect_leaves_no_trace() {
    let mut m = SessionManager::new();
    m.register_with_id("sess-h".to_string(), "tok-h".to_string(), 0);
    m.claim_session(&"tok-h".to_string(), 1_000).unwrap();
    let offer = m.input_disconnected(&"sess-h".to_string(), 2_000).unwrap();

    m.primary_disconnected(&"sess-h".to_string());
    assert_eq!(m.session_count(), 0);

    // Neither the original token nor the reconnection token leads anywhere.
    assert!(m.claim_session(&"tok-h".to_string(), 3_000).is_err());
    assert!(m.claim_session(&offer.new_token, 3_000).is_err());
}

#[test]
fn force_close_reports_both_notices() {
    let mut m = SessionManager::new();
    m.register_with_id("sess-i".to_string(), "tok-i".to_string(), 0);
    m.set_primary_notify(&"sess-i".to_string());
    let notices = m.force_close_session(&"sess-i".to_string()).unwrap();
    assert!(notices.notify_primary);
    assert!(!notices.notify_input);
    assert!(m.force_close_session(&"sess-i".to_string()).is_none());
}

#[test]
fn register_session_mints_identifier_and_keeps_token() {
    let mut m = SessionManager::new();
    let reg = m.register_session("tok-j".to_string(), 0).unwrap();
    assert_eq!(reg.token, "tok-j");
    assert_eq!(reg.session_id.len(), 36);
    assert!(m.is_session_active(&reg.session_id));

    // The same token cannot be registered twice.
    assert!(m.register_session("tok-j".to_string(), 0).is_none());
}

#[test]
fn session_error_messages() {
    assert_eq!(SessionError::TokenExpired.message(), "Session token has expired");
    assert_eq!(SessionError::SessionNotFound.message(), "No session found for token");
    assert_eq!(
        SessionError::InputAlreadyConnected.message(),
        "Input connection already established"
    );
}
