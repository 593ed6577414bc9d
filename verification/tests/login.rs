use openbao_certificate_client::address::Url;
use openbao_certificate_client::api::{OidcChallenge, PollResult, ServerHealth};
use openbao_certificate_client::certificates::RootInfo;
use openbao_certificate_client::config::{
    DeploymentConfig, IdentityConfig, OpenBaoConfig, RootConfig,
};
use openbao_certificate_client::error::{AppError, AppResult};
use openbao_certificate_client::login::{
    begin_login, cancel_login, finish_login, logout, take_session, Login, LoginAction, LoginEvent,
    LoginStart, LOGIN_SECONDS,
};
use openbao_certificate_client::secret::Secret;
use openbao_certificate_client::state::{metadata_from, RuntimeState, Session};
use tokio_util::sync::CancellationToken;

fn config() -> DeploymentConfig {
    DeploymentConfig {
        schema_version: 1,
        configured: true,
        deployment_name: "Lab".into(),
        openbao: OpenBaoConfig {
            address: Url::parse("https://bao.test:8200").unwrap(),
            namespace: None,
            auth_mount: "kanidm".into(),
            oidc_role: "desktop".into(),
            minimum_version: "2.5.0".into(),
        },
        identity: IdentityConfig {
            display_claim: "email".into(),
            subject_claim: "sub".into(),
        },
        roots: Vec::new(),
        profiles: Vec::new(),
    }
}

fn session(pairs: &[(&str, &str)]) -> Session {
    let pairs: Vec<(String, String)> = pairs
        .iter()
        .map(|(name, value)| (name.to_string(), value.to_string()))
        .collect();
    Session {
        token: Secret::new("s.token".into()),
        identity: "OpenBao user".into(),
        metadata: metadata_from(&pairs),
        expires_at: 50,
        renewable: true,
    }
}

fn alice() -> Session {
    session(&[("email", "alice@example.test"), ("sub", "alice-id")])
}

fn message<T>(result: AppResult<T>) -> String {
    match result {
        Ok(_) => panic!("an error was expected"),
        Err(error) => error.message(),
    }
}

fn done(action: LoginAction) -> AppResult<Session> {
    match action {
        LoginAction::Done(result) => result,
        _ => panic!("the login goes on"),
    }
}

fn healthy(version: Option<&str>) -> LoginEvent {
    LoginEvent::Health(Ok(ServerHealth {
        version: version.map(str::to_owned),
    }))
}

fn challenged(interval: u64) -> LoginEvent {
    LoginEvent::Challenge(Ok(OidcChallenge {
        auth_url: "https://idp.test/auth".into(),
        state: "st".into(),
        client_nonce: Secret::new("nonce".into()),
        poll_interval_seconds: interval,
    }))
}

fn polling(interval: u64) -> Login {
    let (login, action) = Login::begin().step(&config(), healthy(Some("2.5.1")));
    match action {
        LoginAction::RequestChallenge(uri) => {
            assert_eq!(uri, "https://bao.test:8200/v1/auth/kanidm/oidc/callback");
        }
        _ => panic!("a challenge is asked for"),
    }
    assert!(login.challenge().is_none());
    let (login, action) = login.step(&config(), challenged(interval));
    assert!(matches!(action, LoginAction::OpenBrowser(url) if url == "https://idp.test/auth"));
    let (login, action) = login.step(&config(), LoginEvent::Opened(true));
    assert!(matches!(action, LoginAction::Wait(seconds) if seconds == interval));
    assert_eq!(login.challenge().unwrap().state, "st");
    login
}

fn polled(login: Login, result: AppResult<PollResult>) -> (Login, LoginAction) {
    let (login, action) = login.step(&config(), LoginEvent::Waited);
    assert!(matches!(action, LoginAction::Poll));
    login.step(&config(), LoginEvent::Polled(result))
}

#[test]
fn a_login_ends_with_a_session() {
    assert_eq!(LOGIN_SECONDS, 300);
    let (login, action) = polled(polling(5), Ok(PollResult::Pending));
    assert!(matches!(action, LoginAction::Wait(5)));
    let (login, action) = polled(login, Ok(PollResult::Complete(alice())));
    let session = done(action).unwrap_or_else(|error| panic!("{}", error.message()));
    assert_eq!(session.identity, "alice@example.test");
    assert_eq!(session.token.expose(), "s.token");
    assert_eq!(message(done(login.step(&config(), LoginEvent::Waited).1)), "Internal error");
}

#[test]
fn a_server_that_asks_for_patience_gets_it() {
    let (login, action) = polled(polling(5), Ok(PollResult::SlowDown));
    assert!(matches!(action, LoginAction::Wait(10)));
    let (login, action) = polled(login, Ok(PollResult::Pending));
    assert!(matches!(action, LoginAction::Wait(10)));
    let (_, action) = polled(login, Ok(PollResult::SlowDown));
    assert!(matches!(action, LoginAction::Wait(20)));
    let (_, action) = polled(polling(u64::MAX - 1), Ok(PollResult::SlowDown));
    assert!(matches!(action, LoginAction::Wait(u64::MAX)));
}

#[test]
fn an_old_server_sees_no_login() {
    let (_, action) = Login::begin().step(&config(), healthy(Some("v2.4.0")));
    assert_eq!(
        message(done(action)),
        "OpenBao request failed: OpenBao 2.5.0 or newer is required; server reported 2.4.0"
    );
    let (_, action) = Login::begin().step(&config(), healthy(None));
    assert!(matches!(action, LoginAction::RequestChallenge(_)));
    let (_, action) = Login::begin().step(&config(), LoginEvent::Health(Err(AppError::Internal)));
    assert_eq!(message(done(action)), "Internal error");
}

#[test]
fn each_end_of_a_login_is_named() {
    let health = || Login::begin().step(&config(), healthy(None)).0;
    let refused = LoginEvent::Challenge(Err(AppError::Api("no".into())));
    assert_eq!(
        message(done(health().step(&config(), refused).1)),
        "OpenBao request failed: no"
    );
    let browser = health().step(&config(), challenged(5)).0;
    assert_eq!(
        message(done(browser.step(&config(), LoginEvent::Opened(false)).1)),
        "OpenBao request failed: the system browser could not be opened"
    );
    assert_eq!(
        message(done(polling(5).step(&config(), LoginEvent::Cancelled).1)),
        "Authentication was cancelled"
    );
    assert_eq!(
        message(done(polling(5).step(&config(), LoginEvent::Deadline).1)),
        "Authentication timed out"
    );
    assert_eq!(
        message(done(polled(polling(5), Err(AppError::Api("gone".into()))).1)),
        "OpenBao request failed: gone"
    );
}

#[test]
fn a_session_without_its_claims_is_refused() {
    let (_, action) = polled(polling(5), Ok(PollResult::Complete(session(&[("sub", "x")]))));
    assert_eq!(
        message(done(action)),
        "Configuration error: OpenBao OIDC metadata is missing required display identity claim 'email'"
    );
    let (_, action) = polled(polling(5), Ok(PollResult::Complete(session(&[("email", "x")]))));
    assert_eq!(
        message(done(action)),
        "Configuration error: OpenBao OIDC metadata is missing required immutable subject claim 'sub'"
    );
}

#[test]
fn one_login_runs_at_a_time() {
    let mut runtime = RuntimeState::new();
    assert!(matches!(
        begin_login(&config(), Vec::new(), &mut runtime, CancellationToken::new(), 49),
        Ok(LoginStart::Started)
    ));
    assert!(runtime.login_cancel.is_some());
    assert_eq!(
        message(begin_login(&config(), Vec::new(), &mut runtime, CancellationToken::new(), 49)),
        "OpenBao request failed: authentication is already in progress"
    );
    let public = finish_login(&mut runtime, Ok(alice())).unwrap();
    assert_eq!(public.expires_at, 50);
    assert!(runtime.login_cancel.is_none());
    match begin_login(&config(), Vec::new(), &mut runtime, CancellationToken::new(), 49) {
        Ok(LoginStart::SignedIn(public)) => assert_eq!(public.identity, "OpenBao user"),
        _ => panic!("the user is signed in"),
    }
    assert!(runtime.login_cancel.is_none());
}

#[test]
fn nobody_signs_in_unready() {
    let mut runtime = RuntimeState::new();
    runtime.session = Some(alice());
    let token = CancellationToken::new;
    let mut unconfigured = config();
    unconfigured.configured = false;
    assert_eq!(
        message(begin_login(&unconfigured, Vec::new(), &mut runtime, token(), 50)),
        "Configuration error: this build has not been configured for a homelab"
    );
    let mut rooted = config();
    rooted.roots.push(RootConfig {
        id: "home".into(),
        pem: "junk".into(),
        sha256: String::new(),
        refresh_path: None,
    });
    let found = |installed: bool| RootInfo {
        id: "home".into(),
        subject: String::new(),
        issuer: String::new(),
        fingerprint: String::new(),
        not_before: String::new(),
        not_after: String::new(),
        installed,
        machine_installed: true,
        conflicting_subject: false,
        refreshable: false,
    };
    assert_eq!(
        message(begin_login(&rooted, vec![Ok(found(false))], &mut runtime, token(), 50)),
        "Certificate operation failed: install the embedded root certificate before signing in"
    );
    let broken = || Err(AppError::Certificate("broken".into()));
    assert_eq!(
        message(begin_login(&rooted, vec![broken()], &mut runtime, token(), 50)),
        "Certificate operation failed: broken"
    );
    assert!(runtime.session.is_some());
    assert!(runtime.login_cancel.is_none());
    assert!(matches!(
        begin_login(&rooted, vec![Ok(found(true))], &mut runtime, token(), 50),
        Ok(LoginStart::Started)
    ));
}

#[test]
fn an_expired_session_does_not_stand_in_for_a_login() {
    let mut runtime = RuntimeState::new();
    runtime.session = Some(alice());
    assert!(matches!(
        begin_login(&config(), Vec::new(), &mut runtime, CancellationToken::new(), 50),
        Ok(LoginStart::Started)
    ));
    assert!(runtime.session.is_none());
    assert!(runtime.login_cancel.is_some());
    runtime.session = Some(alice());
    assert_eq!(
        message(begin_login(&config(), Vec::new(), &mut runtime, CancellationToken::new(), 50)),
        "OpenBao request failed: authentication is already in progress"
    );
    assert!(runtime.session.is_none());
}

#[test]
fn a_failed_login_leaves_nobody_signed_in() {
    let mut runtime = RuntimeState::new();
    begin_login(&config(), Vec::new(), &mut runtime, CancellationToken::new(), 49)
        .unwrap_or_else(|error| panic!("{}", error.message()));
    assert_eq!(
        message(finish_login(&mut runtime, Err(AppError::Timeout))),
        "Authentication timed out"
    );
    assert!(runtime.session.is_none());
    assert!(runtime.login_cancel.is_none());
}

#[test]
fn a_login_can_be_cancelled() {
    let mut runtime = RuntimeState::new();
    assert!(cancel_login(&mut runtime).is_none());
    let token = CancellationToken::new();
    begin_login(&config(), Vec::new(), &mut runtime, token.clone(), 49)
        .unwrap_or_else(|error| panic!("{}", error.message()));
    cancel_login(&mut runtime).unwrap().cancel();
    assert!(token.is_cancelled());
    assert!(runtime.login_cancel.is_none());
}

#[test]
fn logging_out_gives_up_session_and_login() {
    let mut runtime = RuntimeState::new();
    runtime.session = Some(alice());
    runtime.login_cancel = Some(CancellationToken::new());
    let (cancel, session) = logout(&mut runtime);
    assert!(cancel.is_some());
    assert_eq!(session.unwrap().token.expose(), "s.token");
    assert!(runtime.session.is_none() && runtime.login_cancel.is_none());
    let (cancel, session) = logout(&mut runtime);
    assert!(cancel.is_none() && session.is_none());
}

#[test]
fn the_session_is_taken_for_revocation() {
    let mut runtime = RuntimeState::new();
    assert!(take_session(&mut runtime).is_none());
    runtime.session = Some(alice());
    runtime.login_cancel = Some(CancellationToken::new());
    assert!(take_session(&mut runtime).is_some());
    assert!(runtime.session.is_none());
    assert!(runtime.login_cancel.is_some());
}
