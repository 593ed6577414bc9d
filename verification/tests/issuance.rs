use openbao_certificate_client::address::Url;
use openbao_certificate_client::api::PkiSignData;
use openbao_certificate_client::certificates::{IssuedCertificate, PersonalCertificate};
use openbao_certificate_client::config::{
    CertificateProfile, CertificatePurpose, DeploymentConfig, IdentityConfig, OpenBaoConfig,
    RootConfig, ServerSettings,
};
use openbao_certificate_client::error::{AppError, AppResult};
use openbao_certificate_client::issuance::{
    certificate_identities, chain_candidates, ensure_configured, find_profile, issue_certificate,
    issue_yubikey_certificate, list_certificate_status, reset_server_settings, save_server_settings,
    settings_removed,
    trusted_fingerprints, Issuance, IssueAction, IssueEvent, Removal, SettingsFault,
};
use openbao_certificate_client::secret::Secret;
use openbao_certificate_client::state::{metadata_from, RuntimeState, Session};

fn profile(id: &str, san_claim: Option<&str>) -> CertificateProfile {
    CertificateProfile {
        id: id.into(),
        label: "Label".into(),
        description: String::new(),
        purpose: CertificatePurpose::Mtls,
        pki_mount: "pki".into(),
        pki_role: "role".into(),
        subject_claim: "email".into(),
        san_claim: san_claim.map(str::to_owned),
        destination_store: "My".into(),
        key_algorithm: "rsa-3072".into(),
        expected_eku_oids: vec!["1.3.6.1.5.5.7.3.2".into()],
    }
}

fn root(id: &str) -> RootConfig {
    RootConfig {
        id: id.into(),
        pem: format!("{id} pem"),
        sha256: format!("{id} sha256"),
        refresh_path: None,
    }
}

fn config() -> DeploymentConfig {
    DeploymentConfig {
        schema_version: 1,
        configured: true,
        deployment_name: "Lab".into(),
        openbao: OpenBaoConfig {
            address: Url::parse("https://bao.test:8200").unwrap(),
            namespace: None,
            auth_mount: "oidc".into(),
            oidc_role: "desktop".into(),
            minimum_version: "2.5.0".into(),
        },
        identity: IdentityConfig {
            display_claim: "email".into(),
            subject_claim: "sub".into(),
        },
        roots: vec![root("first"), root("second")],
        profiles: vec![profile("mtls", Some("name")), profile("plain", None)],
    }
}

fn signed_in(pairs: &[(&str, &str)]) -> RuntimeState {
    let pairs: Vec<(String, String)> = pairs
        .iter()
        .map(|(name, value)| (name.to_string(), value.to_string()))
        .collect();
    RuntimeState {
        session: Some(Session {
            token: Secret::new("s.token".into()),
            identity: "alice".into(),
            metadata: metadata_from(&pairs),
            expires_at: 100,
            renewable: true,
        }),
        login_cancel: None,
        pending_root: None,
    }
}

fn alice() -> RuntimeState {
    signed_in(&[("email", "alice@example.test"), ("name", "alice.example.test")])
}

fn installed(name: &str) -> PersonalCertificate {
    PersonalCertificate {
        thumbprint: "a".repeat(40),
        serial_number: "01".into(),
        subject: String::new(),
        issuer: String::new(),
        simple_name: name.into(),
        dns_names: Vec::new(),
        email_names: Vec::new(),
        not_before: String::new(),
        not_after: String::new(),
        has_private_key: true,
        eku_oids: Vec::new(),
    }
}

fn signed(issuing_ca: &str) -> PkiSignData {
    PkiSignData {
        certificate: "leaf".into(),
        issuing_ca: issuing_ca.into(),
        ca_chain: vec!["chain".into()],
    }
}

fn issued() -> IssuedCertificate {
    IssuedCertificate {
        thumbprint: "ab".into(),
        subject: "CN=alice".into(),
        not_after: "2120".into(),
        warnings: Vec::new(),
    }
}

fn message<T>(result: AppResult<T>) -> String {
    match result {
        Ok(_) => panic!("an error was expected"),
        Err(error) => error.message(),
    }
}

fn accepted<T>(result: AppResult<T>) -> T {
    result.unwrap_or_else(|error| panic!("{}", error.message()))
}

fn done(action: IssueAction) -> AppResult<IssuedCertificate> {
    match action {
        IssueAction::Done(result) => result,
        _ => panic!("the issuance goes on"),
    }
}

fn begun(profile: &str, replace: bool) -> Issuance {
    accepted(issue_certificate(&config(), &mut alice(), 99, profile, replace))
}

#[test]
fn a_certificate_is_issued_step_by_step() {
    let issuance = begun("mtls", false);
    assert_eq!(issuance.identity, "alice@example.test");
    assert_eq!(issuance.token.expose(), "s.token");
    assert_eq!(issuance.profile.pki_role, "role");
    let (issuance, action) = issuance.step(IssueEvent::Inventory(Ok(vec![installed("bob")])));
    assert!(matches!(action, IssueAction::GenerateRequest));
    let (issuance, action) = issuance.step(IssueEvent::Generated(Ok("csr".into())));
    assert!(matches!(action, IssueAction::ReadAlternative));
    let name = accepted(issuance.read_alternative(&mut alice(), 99));
    assert_eq!(name, "alice.example.test");
    let (issuance, action) = issuance.step(IssueEvent::Alternative(Ok(name)));
    assert!(matches!(action, IssueAction::Sign));
    let request = issuance.sign_request();
    assert_eq!(request.csr, "csr");
    assert_eq!(request.common_name, "alice@example.test");
    assert_eq!(request.alt_names, Some("alice.example.test"));
    assert_eq!(request.format, "pem");
    assert!(!request.exclude_cn_from_sans);
    let fingerprints = trusted_fingerprints(&config());
    let policy = issuance.policy(&fingerprints);
    assert_eq!(policy.expected_identity, "alice@example.test");
    assert_eq!(policy.expected_san, Some("alice.example.test"));
    assert_eq!(*policy.expected_purpose, CertificatePurpose::Mtls);
    assert_eq!(policy.expected_eku_oids, &vec!["1.3.6.1.5.5.7.3.2".to_string()]);
    assert_eq!(policy.trusted_root_fingerprints.len(), 2);
    let (issuance, action) = issuance.step(IssueEvent::Signed(Ok(signed("ca"))));
    assert!(matches!(&action, IssueAction::Accept(data) if data.certificate == "leaf"));
    let (issuance, action) = issuance.step(IssueEvent::Accepted(Ok(issued())));
    let issued = accepted(done(action));
    assert_eq!(issued.thumbprint, "ab");
    assert!(issued.warnings.is_empty());
    let (_, action) = issuance.step(IssueEvent::Accepted(Err(AppError::Timeout)));
    assert_eq!(message(done(action)), "Internal error");
}

#[test]
fn a_profile_without_alternative_name_asks_for_none() {
    let issuance = begun("plain", false);
    assert_eq!(accepted(issuance.read_alternative(&mut alice(), 99)), "");
    let issuance = issuance.step(IssueEvent::Inventory(Ok(Vec::new()))).0;
    let issuance = issuance.step(IssueEvent::Generated(Ok("csr".into()))).0;
    let issuance = issuance.step(IssueEvent::Alternative(Ok(String::new()))).0;
    let request = issuance.sign_request();
    assert_eq!(request.alt_names, None);
    assert!(request.exclude_cn_from_sans);
    let fingerprints = trusted_fingerprints(&config());
    assert_eq!(issuance.policy(&fingerprints).expected_san, None);
}

#[test]
fn replacement_needs_leave_and_leaves_a_warning() {
    let inventory = || {
        IssueEvent::Inventory(Ok(vec![
            installed("Alice@example.test"),
            installed("bob"),
            installed("alice@example.test"),
        ]))
    };
    assert_eq!(
        message(done(begun("mtls", false).step(inventory()).1)),
        "Certificate operation failed: a matching certificate is already installed; confirm replacement to continue"
    );
    let (issuance, action) = begun("mtls", true).step(inventory());
    assert!(matches!(action, IssueAction::GenerateRequest));
    let issuance = issuance.step(IssueEvent::Generated(Ok("csr".into()))).0;
    let issuance = issuance.step(IssueEvent::Alternative(Ok("name".into()))).0;
    let issuance = issuance.step(IssueEvent::Signed(Ok(signed("")))).0;
    let (_, action) = issuance.step(IssueEvent::Accepted(Ok(issued())));
    assert_eq!(
        accepted(done(action)).warnings,
        vec!["2 previous matching certificate(s) were retained until the new certificate is verified"]
    );
}

#[test]
fn each_refusal_to_begin_is_named() {
    let begin = |config: &DeploymentConfig, runtime: &mut RuntimeState, now: u64, id: &str| {
        message(issue_certificate(config, runtime, now, id, false))
    };
    let mut unconfigured = config();
    unconfigured.configured = false;
    assert_eq!(
        begin(&unconfigured, &mut alice(), 99, "mtls"),
        "Configuration error: this build has not been configured for a homelab"
    );
    assert_eq!(
        begin(&config(), &mut alice(), 99, "other"),
        "Certificate operation failed: unknown certificate profile"
    );
    assert_eq!(
        begin(&config(), &mut RuntimeState::new(), 99, "mtls"),
        "You must sign in first"
    );
    let mut runtime = alice();
    assert_eq!(begin(&config(), &mut runtime, 100, "mtls"), "You must sign in first");
    assert!(runtime.session.is_none());
    let mut runtime = signed_in(&[("sub", "x")]);
    assert_eq!(
        begin(&config(), &mut runtime, 99, "mtls"),
        "Certificate operation failed: OIDC session is missing required mapped claim email"
    );
    assert!(runtime.session.is_some());
}

#[test]
fn each_failed_step_ends_the_issuance() {
    let failure = || AppError::Certificate("x".into());
    let expected = "Certificate operation failed: x";
    let begin = || begun("mtls", false);
    let generation = || begin().step(IssueEvent::Inventory(Ok(Vec::new()))).0;
    let alternative = || generation().step(IssueEvent::Generated(Ok("csr".into()))).0;
    let signing = || alternative().step(IssueEvent::Alternative(Ok("n".into()))).0;
    let acceptance = || signing().step(IssueEvent::Signed(Ok(signed("")))).0;
    for (issuance, event) in [
        (begin(), IssueEvent::Inventory(Err(failure()))),
        (generation(), IssueEvent::Generated(Err(failure()))),
        (alternative(), IssueEvent::Alternative(Err(failure()))),
        (signing(), IssueEvent::Signed(Err(failure()))),
        (acceptance(), IssueEvent::Accepted(Err(failure()))),
    ] {
        assert_eq!(message(done(issuance.step(event).1)), expected);
    }
    assert_eq!(
        message(alternative().read_alternative(&mut signed_in(&[]), 99)),
        "Certificate operation failed: OIDC session is missing required mapped claim name"
    );
    assert_eq!(
        message(alternative().read_alternative(&mut RuntimeState::new(), 99)),
        "You must sign in first"
    );
}

#[test]
fn a_device_issuance_reads_its_claims_at_once() {
    let begin = |runtime: &mut RuntimeState, id: &str| {
        issue_yubikey_certificate(&config(), runtime, 99, id, true)
    };
    let issuance = accepted(begin(&mut alice(), "mtls"));
    let (issuance, action) = issuance.step(IssueEvent::Generated(Ok("csr".into())));
    assert!(matches!(action, IssueAction::Sign));
    assert_eq!(issuance.sign_request().alt_names, Some("alice.example.test"));
    let issuance = accepted(begin(&mut alice(), "plain"));
    let issuance = issuance.step(IssueEvent::Generated(Ok("csr".into()))).0;
    assert_eq!(issuance.sign_request().alt_names, None);
    assert!(issuance.sign_request().exclude_cn_from_sans);
    assert_eq!(
        message(begin(&mut signed_in(&[("email", "a")]), "mtls")),
        "Certificate operation failed: OIDC session is missing required mapped claim name"
    );
    assert_eq!(
        message(begin(&mut alice(), "other")),
        "Certificate operation failed: unknown certificate profile"
    );
}

#[test]
fn embedded_roots_close_the_chain() {
    assert_eq!(
        trusted_fingerprints(&config()),
        vec!["first sha256", "second sha256"]
    );
    assert_eq!(
        chain_candidates(&config(), &signed("ca")),
        vec!["chain", "ca", "first pem", "second pem"]
    );
    assert_eq!(
        chain_candidates(&config(), &signed("")),
        vec!["chain", "first pem", "second pem"]
    );
}

#[test]
fn profiles_are_found_by_their_identifier() {
    assert!(ensure_configured(&config()).is_ok());
    assert_eq!(accepted(find_profile(&config(), "plain")).san_claim, None);
    assert!(find_profile(&config(), "Plain").is_err());
}

#[test]
fn the_status_lists_each_profile() {
    let identities = accepted(certificate_identities(&config(), &mut alice(), 99));
    assert_eq!(identities, vec!["alice@example.test", "alice@example.test"]);
    let mut other = installed("alice@example.test");
    other.eku_oids = vec!["1.2.3".into()];
    let all = vec![installed("alice@example.test"), installed("bob"), other];
    let status = list_certificate_status(&config(), &identities, &all);
    let summary: Vec<(&str, usize)> = status
        .iter()
        .map(|status| (status.profile_id.as_str(), status.certificates.len()))
        .collect();
    assert_eq!(summary, vec![("mtls", 1), ("plain", 1)]);
    assert_eq!(
        message(certificate_identities(&config(), &mut signed_in(&[]), 99)),
        "Certificate operation failed: OIDC session is missing required mapped claim email"
    );
    let mut runtime = alice();
    assert_eq!(
        message(certificate_identities(&config(), &mut runtime, 100)),
        "You must sign in first"
    );
    assert!(runtime.session.is_none());
}

#[test]
fn settings_are_saved_while_nobody_is_signed_in() {
    let mut config = config();
    config.configured = false;
    config.roots.clear();
    let settings = ServerSettings::from(&config.openbao);
    assert!(save_server_settings(&mut RuntimeState::new(), &config, &settings, 0).is_ok());
    assert_eq!(
        message(save_server_settings(&mut alice(), &config, &settings, 0)),
        "Configuration error: sign out or cancel authentication before changing server settings"
    );
    let mut runtime = alice();
    assert!(save_server_settings(&mut runtime, &config, &settings, 100).is_ok());
    assert!(runtime.session.is_none());
    let mut bad = settings.clone();
    bad.auth_mount = "a b".into();
    assert_eq!(
        message(save_server_settings(&mut RuntimeState::new(), &config, &bad, 0)),
        "Configuration error: auth_mount must contain only letters, numbers, '-' or '_'"
    );
}

#[test]
fn faults_with_the_settings_file_are_named() {
    for (fault, expected) in [
        (
            SettingsFault::NoDirectory,
            "server settings path has no parent directory",
        ),
        (
            SettingsFault::DirectoryNotCreated,
            "server settings directory could not be created",
        ),
        (SettingsFault::NotEncoded, "server settings could not be encoded"),
        (SettingsFault::NotSaved, "server settings could not be saved"),
        (
            SettingsFault::NotRemoved,
            "saved server settings could not be removed",
        ),
    ] {
        assert_eq!(
            fault.error().message(),
            format!("Configuration error: {expected}")
        );
    }
    assert!(settings_removed(Removal::Removed).is_ok());
    assert!(settings_removed(Removal::NotFound).is_ok());
    assert_eq!(
        message(settings_removed(Removal::Failed)),
        "Configuration error: saved server settings could not be removed"
    );
}

#[test]
fn settings_are_reset_while_nobody_is_signed_in() {
    assert!(reset_server_settings(&mut RuntimeState::new(), 0).is_ok());
    let mut runtime = alice();
    assert_eq!(
        message(reset_server_settings(&mut runtime, 0)),
        "Configuration error: sign out or cancel authentication before changing server settings"
    );
    assert!(runtime.session.is_some());
    assert!(reset_server_settings(&mut runtime, 100).is_ok());
    assert!(runtime.session.is_none());
}
