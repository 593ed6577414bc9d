use openbao_certificate_client::address::Url;
use openbao_certificate_client::config::{DeploymentConfig, IdentityConfig, OpenBaoConfig};
use openbao_certificate_client::error::AppError;
use openbao_certificate_client::secret::{new_code, new_container_id, new_nonce, Secret};
use openbao_certificate_client::state::{
    accept_session, apply_renewal, ensure_server_settings_editable, get_app_status, metadata_from,
    renewal_candidate, require_active_session, require_mapped_claim, seconds_or_zero, unix_now,
    PublicSession, RuntimeState, Session,
};
use tokio_util::sync::CancellationToken;

fn session_with_metadata(pairs: &[(&str, &str)]) -> Session {
    let pairs: Vec<(String, String)> = pairs
        .iter()
        .map(|(name, value)| (name.to_string(), value.to_string()))
        .collect();
    Session {
        token: Secret::new("test-token".to_owned()),
        identity: "display".into(),
        metadata: metadata_from(&pairs),
        expires_at: 0,
        renewable: false,
    }
}

fn signed_in(expires_at: u64, renewable: bool) -> RuntimeState {
    let mut session = session_with_metadata(&[("sub", "user-uuid")]);
    session.expires_at = expires_at;
    session.renewable = renewable;
    RuntimeState {
        session: Some(session),
        login_cancel: None,
        pending_root: None,
    }
}

fn claims() -> IdentityConfig {
    IdentityConfig {
        display_claim: "email".into(),
        subject_claim: "sub".into(),
    }
}

fn message<T>(result: Result<T, AppError>) -> String {
    match result {
        Ok(_) => panic!("an error was expected"),
        Err(error) => error.message(),
    }
}

#[test]
fn mapped_claim_requires_present_non_empty_metadata() {
    let session = session_with_metadata(&[("sub", "user-uuid")]);
    assert!(require_mapped_claim(&session, "sub", "immutable subject").is_ok());
    assert!(require_mapped_claim(&session, "preferred_username", "display identity").is_err());
}

#[test]
fn mapped_claim_rejects_blank_metadata() {
    let session = session_with_metadata(&[("sub", "   ")]);
    assert!(require_mapped_claim(&session, "sub", "immutable subject").is_err());
}

#[test]
fn unix_now_is_nonzero() {
    assert!(unix_now() > 0);
}

#[test]
fn a_clock_before_the_epoch_reads_zero() {
    assert_eq!(seconds_or_zero(None), 0);
    assert_eq!(seconds_or_zero(Some(17)), 17);
}

#[test]
fn a_missing_claim_is_named() {
    let session = session_with_metadata(&[]);
    assert_eq!(
        message(require_mapped_claim(&session, "sub", "immutable subject")),
        "Configuration error: OpenBao OIDC metadata is missing required immutable subject claim 'sub'"
    );
}

#[test]
fn the_later_of_two_values_counts() {
    let session = session_with_metadata(&[("sub", "a"), ("email", "b"), ("sub", "c")]);
    assert_eq!(session.claim("sub").as_deref(), Some("c"));
    assert_eq!(session.claim("email").as_deref(), Some("b"));
}

#[test]
fn accepted_sessions_carry_both_claims() {
    let session = session_with_metadata(&[("email", "alice@example.test"), ("sub", "id")]);
    let session = accept_session(session, &claims())
        .unwrap_or_else(|error| panic!("{}", error.message()));
    assert_eq!(session.identity, "alice@example.test");
    assert_eq!(session.token.expose(), "test-token");

    let session = session_with_metadata(&[("sub", "id")]);
    assert_eq!(
        message(accept_session(session, &claims())),
        "Configuration error: OpenBao OIDC metadata is missing required display identity claim 'email'"
    );
    let session = session_with_metadata(&[("email", "alice"), ("sub", "\t")]);
    assert_eq!(
        message(accept_session(session, &claims())),
        "Configuration error: OpenBao OIDC metadata is missing required immutable subject claim 'sub'"
    );
}

#[test]
fn a_session_ends_with_its_lease() {
    let mut runtime = signed_in(100, true);
    assert!(require_active_session(&mut runtime, 99).is_ok());
    assert!(runtime.session.is_some());
    assert_eq!(
        message(require_active_session(&mut runtime, 100)),
        "You must sign in first"
    );
    assert!(runtime.session.is_none());
    assert_eq!(
        message(require_active_session(&mut runtime, 0)),
        "You must sign in first"
    );
}

#[test]
fn settings_wait_for_the_user_to_sign_out() {
    let expected =
        "Configuration error: sign out or cancel authentication before changing server settings";
    assert!(ensure_server_settings_editable(&mut RuntimeState::new(), 0).is_ok());
    let mut runtime = signed_in(1, false);
    assert_eq!(
        message(ensure_server_settings_editable(&mut runtime, 0)),
        expected
    );
    assert!(runtime.session.is_some());
    assert!(ensure_server_settings_editable(&mut runtime, 1).is_ok());
    assert!(runtime.session.is_none());
    let mut runtime = RuntimeState::new();
    runtime.login_cancel = Some(CancellationToken::new());
    assert_eq!(message(ensure_server_settings_editable(&mut runtime, 0)), expected);
}

#[test]
fn sessions_are_renewed_in_their_last_five_minutes() {
    assert!(renewal_candidate(&RuntimeState::new(), 0).is_none());
    assert!(renewal_candidate(&signed_in(1000, false), 999).is_none());
    assert!(renewal_candidate(&signed_in(1000, true), 699).is_none());
    let (token, identity) = renewal_candidate(&signed_in(1000, true), 700).unwrap();
    assert_eq!(token.expose(), "test-token");
    assert_eq!(identity, "display");
    assert!(renewal_candidate(&signed_in(u64::MAX, true), u64::MAX - 5).is_some());
}

#[test]
fn a_renewal_is_for_the_same_user() {
    let mut runtime = signed_in(1000, true);
    apply_renewal(&mut runtime, "someone else", 900, 3600, false);
    assert_eq!(runtime.session.as_ref().unwrap().expires_at, 1000);
    apply_renewal(&mut runtime, "display", 900, 3600, false);
    let session = runtime.session.as_ref().unwrap();
    assert_eq!(session.expires_at, 4500);
    assert!(!session.renewable);
    assert_eq!(session.claim("sub").as_deref(), Some("user-uuid"));
    apply_renewal(&mut runtime, "display", u64::MAX, 1, true);
    assert_eq!(runtime.session.as_ref().unwrap().expires_at, u64::MAX);
    let mut runtime = RuntimeState::new();
    apply_renewal(&mut runtime, "display", 900, 3600, false);
    assert!(runtime.session.is_none());
}

#[test]
fn the_status_shows_no_token() {
    let config = DeploymentConfig {
        schema_version: 1,
        configured: false,
        deployment_name: "Lab".into(),
        openbao: OpenBaoConfig {
            address: Url::parse("https://bao.test").unwrap(),
            namespace: Some("ns".into()),
            auth_mount: "oidc".into(),
            oidc_role: "desktop".into(),
            minimum_version: "2.5.0".into(),
        },
        identity: claims(),
        roots: Vec::new(),
        profiles: Vec::new(),
    };
    let mut runtime = signed_in(7, true);
    let status = get_app_status(&config, &mut runtime, true, 6);
    assert!(!status.configured);
    assert!(status
        .configuration_message
        .starts_with("This build has no embedded trust roots or certificate profiles."));
    assert_eq!(status.deployment_name, "Lab");
    let session = status.session.unwrap();
    assert_eq!(
        (session.identity.as_str(), session.expires_at, session.renewable),
        ("display", 7, true)
    );
    assert_eq!(status.server_settings.schema_version, 1);
    assert_eq!(status.server_settings.address.as_str(), "https://bao.test/");
    assert_eq!(status.server_settings.namespace.as_deref(), Some("ns"));
    assert!(status.server_override);
    assert!(runtime.session.is_some());
    assert!(get_app_status(&config, &mut runtime, true, 7).session.is_none());
    assert!(runtime.session.is_none());

    let mut config = config;
    config.configured = true;
    let status = get_app_status(&config, &mut RuntimeState::new(), false, 0);
    assert_eq!(status.configuration_message, "");
    assert!(status.session.is_none());
}

#[test]
fn public_sessions_show_three_fields() {
    let session = session_with_metadata(&[]);
    let public = PublicSession::from(&session).clone();
    assert_eq!(public.identity, "display");
    assert_eq!(public.expires_at, 0);
    assert!(!public.renewable);
}

#[test]
fn secrets_are_handed_on_unchanged() {
    let secret = Secret::new("s.abc".into());
    assert_eq!(secret.duplicate().expose(), "s.abc");
}

#[test]
fn random_identifiers_have_their_forms() {
    let nonce = new_nonce();
    assert_eq!(nonce.expose().len(), 32);
    assert!(nonce.expose().bytes().all(|b| matches!(b, b'0'..=b'9' | b'a'..=b'f')));
    assert_ne!(nonce.expose(), new_nonce().expose());
    assert_eq!(new_code().len(), 32);
    assert_ne!(new_code(), new_code());
    let id = new_container_id();
    let groups: Vec<usize> = id.split('-').map(str::len).collect();
    assert_eq!(groups, vec![8, 4, 4, 4, 12]);
    assert!(id
        .bytes()
        .all(|b| matches!(b, b'0'..=b'9' | b'a'..=b'f' | b'-')));
}
