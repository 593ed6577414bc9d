use openbao_certificate_client::address::Url;
use openbao_certificate_client::api::{
    challenge_from, check_version, decode, judge_refused_poll, judge_version, keep_present,
    loggable_errors, parse_errors, parse_poll_interval, user_safe_error, ApiRequest, AuthData,
    AuthUrlData, Envelope, HealthData, Member, Method, OidcChallenge, OpenBaoClient, PkiSignData,
    PkiSignRequest, PollResult, Reply, ServerHealth,
};
use openbao_certificate_client::config::{DeploymentConfig, IdentityConfig, OpenBaoConfig};
use openbao_certificate_client::error::{transport_error, AppError};
use openbao_certificate_client::secret::Secret;
use openbao_certificate_client::state::{metadata_from, Session};

fn deployment(namespace: Option<&str>) -> DeploymentConfig {
    DeploymentConfig {
        schema_version: 1,
        configured: false,
        deployment_name: "Lab".into(),
        openbao: OpenBaoConfig {
            address: Url::parse("https://bao.example.test:8200").unwrap(),
            namespace: namespace.map(str::to_owned),
            auth_mount: "kanidm".into(),
            oidc_role: "desktop".into(),
            minimum_version: "2.5.0".into(),
        },
        identity: IdentityConfig {
            display_claim: "email".into(),
            subject_claim: "sub".into(),
        },
        roots: Vec::new(),
        profiles: Vec::new(),
    }
}

fn client() -> OpenBaoClient {
    OpenBaoClient::new(&deployment(Some("homelab")))
}

fn secret(text: &str) -> Secret {
    Secret::new(text.to_owned())
}

fn reply<T>(status: u16, body: &str, parsed: Option<Envelope<T>>) -> Reply<T> {
    Reply {
        status,
        body: body.into(),
        parsed,
    }
}

fn with_data<T>(data: T) -> Option<Envelope<T>> {
    Some(Envelope {
        data: Some(data),
        auth: None,
    })
}

fn auth_url(url: &str, state: &str, interval: &str) -> Option<Envelope<AuthUrlData>> {
    with_data(AuthUrlData {
        auth_url: url.into(),
        state: state.into(),
        poll_interval: interval.into(),
    })
}

fn auth(display_name: Option<&str>, pairs: &[(&str, &str)]) -> Option<Envelope<bool>> {
    let pairs: Vec<(String, String)> = pairs
        .iter()
        .map(|(name, value)| (name.to_string(), value.to_string()))
        .collect();
    Some(Envelope {
        data: None,
        auth: Some(AuthData {
            client_token: secret("s.token"),
            lease_duration: 3600,
            renewable: true,
            display_name: display_name.map(str::to_owned),
            metadata: metadata_from(&pairs),
        }),
    })
}

fn message<T>(result: Result<T, AppError>) -> String {
    match result {
        Ok(_) => panic!("an error was expected"),
        Err(error) => error.message(),
    }
}

fn api_message<T>(result: Result<T, AppError>) -> String {
    let message = message(result);
    message.strip_prefix("OpenBao request failed: ").unwrap().into()
}

fn header<'a>(request: &'a ApiRequest, name: &str) -> Option<&'a str> {
    request
        .headers
        .iter()
        .find(|(key, _)| key == name)
        .map(|(_, value)| value.as_str())
}

fn members(request: &ApiRequest) -> Vec<String> {
    request
        .members
        .as_ref()
        .unwrap()
        .iter()
        .map(|(name, value)| match value {
            Member::Text(text) => format!("{name}={text}"),
            Member::Flag(flag) => format!("{name}={flag}"),
        })
        .collect()
}

#[test]
fn parses_openbao_errors() {
    assert_eq!(
        parse_errors(r#"{"errors":["authorization_pending"]}"#),
        vec!["authorization_pending"]
    );
}

#[test]
fn rejects_zero_poll_interval() {
    assert_eq!(parse_poll_interval("60").unwrap(), 60);
    assert!(parse_poll_interval("0").is_err());
    assert!(parse_poll_interval("soon").is_err());
}

#[test]
fn hides_forbidden_details() {
    assert_eq!(
        user_safe_error(
            reqwest::StatusCode::FORBIDDEN.as_u16(),
            &["sensitive policy path".into()]
        ),
        "access was denied by OpenBao policy"
    );
}

#[test]
fn pki_sign_request_can_exclude_human_cn_from_sans() {
    let request = PkiSignRequest {
        csr: "-----BEGIN CERTIFICATE REQUEST-----\n-----END CERTIFICATE REQUEST-----",
        common_name: "nicholas",
        alt_names: None,
        format: "pem",
        exclude_cn_from_sans: true,
    };
    let mut json = serde_json::Map::new();
    for (name, value) in request.members() {
        let value = match value {
            Member::Text(text) => serde_json::Value::String(text),
            Member::Flag(flag) => serde_json::Value::Bool(flag),
        };
        json.insert(name, value);
    }
    assert_eq!(json["exclude_cn_from_sans"], true);
    assert!(json.get("alt_names").is_none());
}

#[test]
fn sign_requests_name_their_alternatives() {
    let request = PkiSignRequest {
        csr: "csr",
        common_name: "alice",
        alt_names: Some("alice@example.test"),
        format: "pem",
        exclude_cn_from_sans: false,
    };
    let names: Vec<String> = request.members().into_iter().map(|(name, _)| name).collect();
    assert_eq!(
        names,
        vec!["csr", "common_name", "alt_names", "format", "exclude_cn_from_sans"]
    );
}

#[test]
fn errors_are_texts_in_a_list() {
    assert_eq!(
        parse_errors(r#"{"errors":["a",1,null,"b",["c"]]}"#),
        vec!["a", "b"]
    );
    for body in ["", "not json", "[]", "{}", r#"{"errors":"a"}"#, r#"{"error":["a"]}"#] {
        assert!(parse_errors(body).is_empty(), "{body}");
    }
    assert_eq!(
        keep_present(vec![None, Some("x".into()), None, Some("y".into())]),
        vec!["x", "y"]
    );
}

#[test]
fn logged_errors_are_joined_and_redacted() {
    assert_eq!(
        loggable_errors(r#"{"errors":["token=abc","denied"]}"#),
        "token=[REDACTED] denied"
    );
    assert_eq!(
        loggable_errors(r#"{"errors":["first","second"]}"#),
        "first; second"
    );
    assert_eq!(loggable_errors("oops"), "");
}

#[test]
fn poll_intervals_are_whole_seconds() {
    assert_eq!(parse_poll_interval("+5").unwrap(), 5);
    assert_eq!(parse_poll_interval("18446744073709551615").unwrap(), u64::MAX);
    for text in ["", "+", "-1", "18446744073709551616", " 5", "5s", "٥"] {
        assert_eq!(
            api_message(parse_poll_interval(text)),
            "OpenBao returned an invalid OIDC poll interval"
        );
    }
}

#[test]
fn errors_shown_to_users_say_little() {
    let details = ["policy at secret/path".to_string()];
    for status in [401_u16, 403, 500, 503, 599] {
        assert_eq!(user_safe_error(status, &details), user_safe_error(status, &[]));
    }
    assert_eq!(
        user_safe_error(401, &details),
        "the OpenBao session is no longer valid"
    );
    assert_eq!(user_safe_error(503, &details), "OpenBao is temporarily unavailable");
    assert_eq!(
        user_safe_error(400, &["bad token=abc here".into(), "second".into()]),
        "bad token=[REDACTED] here"
    );
    assert_eq!(user_safe_error(400, &[]), "HTTP 400 Bad Request");
    assert_eq!(
        user_safe_error(799, &[]),
        "HTTP 799 <unknown status code>"
    );
    assert_eq!(user_safe_error(400, &["é".repeat(120)]), "é".repeat(120));
    assert_eq!(
        user_safe_error(400, &["é".repeat(121)]),
        "OpenBao rejected the request"
    );
}

#[test]
fn replies_are_decoded_or_refused() {
    assert!(decode(reply(200, "{}", with_data(7_u8))).unwrap().data == Some(7));
    assert_eq!(
        api_message(decode::<u8>(reply(204, "", None))),
        "OpenBao returned an invalid JSON response"
    );
    assert_eq!(
        api_message(decode(reply(302, r#"{"errors":["moved"]}"#, with_data(7_u8)))),
        "moved"
    );
}

#[test]
fn the_authorization_request_names_role_callback_and_nonce() {
    let request = client()
        .begin_oidc_request("https://bao/callback", &secret("nonce"))
        .unwrap();
    assert_eq!(request.method, Method::Post);
    assert_eq!(
        request.url,
        "https://bao.example.test:8200/v1/auth/kanidm/oidc/auth_url"
    );
    assert_eq!(header(&request, "X-Vault-Namespace"), Some("homelab"));
    assert_eq!(header(&request, "X-Vault-Token"), None);
    assert_eq!(
        members(&request),
        vec!["role=desktop", "redirect_uri=https://bao/callback", "client_nonce=nonce"]
    );
}

#[test]
fn health_is_read_without_credentials() {
    let request = OpenBaoClient::new(&deployment(None))
        .server_health_request()
        .unwrap();
    assert_eq!(request.method, Method::Get);
    assert_eq!(request.url, "https://bao.example.test:8200/v1/sys/health");
    assert!(request.headers.is_empty());
    assert!(request.members.is_none());
}

#[test]
fn polls_carry_state_and_nonce() {
    let challenge = OidcChallenge {
        auth_url: "https://idp.test/".into(),
        state: "st".into(),
        client_nonce: secret("no"),
        poll_interval_seconds: 5,
    };
    let request = client().poll_oidc_request(&challenge).unwrap();
    assert_eq!(request.method, Method::Post);
    assert_eq!(
        request.url,
        "https://bao.example.test:8200/v1/auth/kanidm/oidc/poll"
    );
    assert_eq!(members(&request), vec!["state=st", "client_nonce=no"]);
    assert_eq!(header(&request, "X-Vault-Token"), None);
}

#[test]
fn authenticated_requests_carry_the_token() {
    let token = secret("s.abc");
    let revoke = client().revoke_request(&token).unwrap();
    assert_eq!(
        revoke.url,
        "https://bao.example.test:8200/v1/auth/token/revoke-self"
    );
    assert_eq!(revoke.method, Method::Post);
    assert_eq!(header(&revoke, "X-Vault-Token"), Some("s.abc"));
    assert!(members(&revoke).is_empty());

    let renew = client().renew_request(&token).unwrap();
    assert_eq!(
        renew.url,
        "https://bao.example.test:8200/v1/auth/token/renew-self"
    );
    assert_eq!(renew.method, Method::Post);
    assert_eq!(header(&renew, "X-Vault-Token"), Some("s.abc"));
    assert!(members(&renew).is_empty());

    let pem = client().read_pem_request(&token, "pki/ca/pem").unwrap();
    assert_eq!(pem.method, Method::Get);
    assert_eq!(pem.url, "https://bao.example.test:8200/v1/pki/ca/pem");
    assert!(pem.members.is_none());

    let request = PkiSignRequest {
        csr: "csr",
        common_name: "alice",
        alt_names: None,
        format: "pem",
        exclude_cn_from_sans: true,
    };
    let sign = client()
        .sign_csr_request(&token, "pki", "mtls", &request)
        .unwrap();
    assert_eq!(sign.url, "https://bao.example.test:8200/v1/pki/sign/mtls");
    assert_eq!(
        members(&sign),
        vec!["csr=csr", "common_name=alice", "format=pem", "exclude_cn_from_sans=true"]
    );
}

#[test]
fn header_values_hold_no_line_breaks() {
    assert_eq!(
        message(client().revoke_request(&secret("a\nb"))),
        "Internal error"
    );
    assert_eq!(
        message(OpenBaoClient::new(&deployment(Some("a\u{7f}"))).server_health_request()),
        "Configuration error: namespace is not a valid header value"
    );
    for text in ["", "a b\tc", "é", "a\u{7f}", "a\r", "\u{1f}", "~"] {
        assert_eq!(
            client().renew_request(&secret(text)).is_ok(),
            reqwest::header::HeaderValue::from_str(text).is_ok(),
            "{text:?}"
        );
    }
}

#[test]
fn a_challenge_comes_from_a_safe_reply() {
    let challenge = client()
        .begin_oidc(
            reply(200, "", auth_url("https://IDP.test/auth?state=s", "st", "5")),
            secret("nonce"),
        )
        .unwrap_or_else(|error| panic!("{}", error.message()));
    assert_eq!(challenge.auth_url, "https://idp.test/auth?state=s");
    assert_eq!(challenge.state, "st");
    assert_eq!(challenge.client_nonce.expose(), "nonce");
    assert_eq!(challenge.poll_interval_seconds, 5);
}

#[test]
fn each_faulty_challenge_is_refused() {
    let begin = |status: u16, parsed: Option<Envelope<AuthUrlData>>| {
        api_message(client().begin_oidc(reply(status, "", parsed), secret("n")))
    };
    assert_eq!(
        begin(404, auth_url("https://idp.test", "st", "5")),
        "OIDC auth endpoint was not found at /v1/auth/kanidm/oidc/auth_url; verify the client's Auth mount setting matches the OpenBao auth method path"
    );
    assert_eq!(begin(400, None), "HTTP 400 Bad Request");
    assert_eq!(begin(200, None), "OpenBao returned an invalid JSON response");
    assert_eq!(
        begin(200, Some(Envelope { data: None, auth: None })),
        "authorization URL was not returned; verify the OpenBao OIDC role and redirect URI"
    );
    let incomplete = "OpenBao returned an incomplete OIDC challenge";
    assert_eq!(begin(200, auth_url("", "st", "5")), incomplete);
    assert_eq!(begin(200, auth_url("https://idp.test", "", "5")), incomplete);
    assert_eq!(
        begin(200, auth_url("idp.test", "st", "5")),
        "OpenBao returned an invalid OIDC authorization URL"
    );
    let unsafe_url = "OpenBao returned an unsafe OIDC authorization URL";
    assert_eq!(begin(200, auth_url("http://idp.test", "st", "5")), unsafe_url);
    assert_eq!(begin(200, auth_url("https://u@idp.test", "st", "5")), unsafe_url);
    assert_eq!(begin(200, auth_url("https://:p@idp.test", "st", "5")), unsafe_url);
    assert_eq!(begin(200, auth_url("file:///etc/passwd", "st", "5")), unsafe_url);
    assert_eq!(
        begin(200, auth_url("https://idp.test", "st", "0")),
        "OpenBao returned an invalid OIDC poll interval"
    );
}

fn completed(result: Result<PollResult, AppError>) -> Session {
    match result {
        Ok(PollResult::Complete(session)) => session,
        Ok(_) => panic!("a session was expected"),
        Err(error) => panic!("{}", error.message()),
    }
}

#[test]
fn polls_wait_slow_down_or_complete() {
    let poll = |status: u16, body: &str| {
        client().poll_oidc::<bool>(reply(status, body, None), "email", 100)
    };
    assert!(matches!(
        poll(400, r#"{"errors":["x","error: authorization_pending"]}"#),
        Ok(PollResult::Pending)
    ));
    assert!(matches!(
        poll(400, r#"{"errors":["slow_down"]}"#),
        Ok(PollResult::SlowDown)
    ));
    assert!(matches!(
        poll(400, r#"{"errors":["slow_down","authorization_pending"]}"#),
        Ok(PollResult::Pending)
    ));
    assert_eq!(
        api_message(poll(400, r#"{"errors":["slow_down now"]}"#)),
        "slow_down now"
    );
    assert_eq!(
        api_message(poll(200, r#"{"errors":["slow_down"]}"#)),
        "OpenBao returned an invalid authentication response"
    );
    let empty = Some(Envelope { data: Some(true), auth: None });
    assert_eq!(
        api_message(client().poll_oidc(reply(200, "", empty), "email", 100)),
        "OpenBao did not return an authentication token"
    );
}

#[test]
fn a_completed_poll_gives_a_session() {
    let claims = [("email", "alice@example.test"), ("sub", "alice-id")];
    let session = completed(client().poll_oidc(
        reply(200, "", auth(Some("oidc-alice"), &claims)),
        "email",
        100,
    ));
    assert_eq!(session.token.expose(), "s.token");
    assert_eq!(session.identity, "alice@example.test");
    assert_eq!(session.expires_at, 3700);
    assert!(session.renewable);
    assert_eq!(session.claim("sub").as_deref(), Some("alice-id"));
    assert_eq!(session.claim("groups"), None);

    let session = completed(client().poll_oidc(
        reply(200, "", auth(Some("oidc-alice"), &[])),
        "email",
        u64::MAX,
    ));
    assert_eq!(session.identity, "oidc-alice");
    assert_eq!(session.expires_at, u64::MAX);

    let session = completed(client().poll_oidc(reply(200, "", auth(None, &[])), "email", 0));
    assert_eq!(session.identity, "OpenBao user");
}

#[test]
fn revocation_goes_by_the_status() {
    assert!(client().revoke(204).is_ok());
    assert_eq!(api_message(client().revoke(403)), "token revocation failed");
    assert_eq!(api_message(client().revoke(302)), "token revocation failed");
}

#[test]
fn renewal_gives_the_new_lease() {
    assert_eq!(
        client().renew(reply(200, "", auth(None, &[]))).unwrap(),
        (3600, true)
    );
    let empty = Some(Envelope { data: Some(1_u8), auth: None });
    assert_eq!(
        api_message(client().renew(reply(200, "", empty))),
        "OpenBao returned no renewed session"
    );
    assert_eq!(
        api_message(client().renew::<u8>(reply(403, "", None))),
        "access was denied by OpenBao policy"
    );
}

#[test]
fn certificates_are_read_as_pem() {
    let body = "-----BEGIN CERTIFICATE-----";
    assert_eq!(client().read_pem(200, body.into()).unwrap(), body);
    let invalid = "OpenBao returned an invalid CA certificate";
    assert_eq!(api_message(client().read_pem(200, "{}".into())), invalid);
    let limit = format!("BEGIN CERTIFICATE{}", "x".repeat(256 * 1024 - 17));
    assert!(client().read_pem(200, limit.clone()).is_ok());
    assert_eq!(api_message(client().read_pem(200, format!("{limit}x"))), invalid);
    assert_eq!(
        api_message(client().read_pem(404, r#"{"errors":["no issuer"]}"#.into())),
        "no issuer"
    );
}

#[test]
fn a_signature_comes_with_its_chain() {
    let data = PkiSignData {
        certificate: "leaf".into(),
        issuing_ca: "ca".into(),
        ca_chain: vec!["root".into()],
    };
    let signed = client()
        .sign_csr(reply(200, "", with_data(data)))
        .unwrap_or_else(|error| panic!("{}", error.message()));
    assert_eq!(signed.certificate, "leaf");
    assert_eq!(signed.issuing_ca, "ca");
    assert_eq!(signed.ca_chain, vec!["root"]);
    assert_eq!(
        api_message(client().sign_csr(reply(200, "", Some(Envelope { data: None, auth: None })))),
        "OpenBao returned no signed certificate"
    );
}

#[test]
fn versions_are_compared() {
    assert!(check_version(None, "nonsense").is_ok());
    assert!(check_version(Some("2.5.0"), "2.5.0").is_ok());
    assert!(check_version(Some("v2.10.0"), "v2.9.1").is_ok());
    assert_eq!(
        api_message(check_version(Some("v2.4.9"), "2.5.0")),
        "OpenBao 2.5.0 or newer is required; server reported 2.4.9"
    );
    assert_eq!(
        api_message(check_version(Some("2.5.0-beta1"), "2.5.0")),
        "OpenBao 2.5.0 or newer is required; server reported 2.5.0-beta1"
    );
    assert_eq!(
        api_message(check_version(Some("two"), "two")),
        "OpenBao reported an invalid server version"
    );
    assert_eq!(
        message(check_version(Some("2.5.0"), "2.5")),
        "Configuration error: minimum_version is not valid semantic versioning"
    );
}

#[test]
fn health_without_a_version_passes() {
    let health = client().server_health(Some(HealthData {
        version: Some("2.4.0".into()),
    }));
    assert_eq!(health.version.as_deref(), Some("2.4.0"));
    assert!(client().require_minimum_version(&health, "2.5.0").is_err());
    let health = client().server_health(None);
    assert_eq!(health.version, None);
    assert!(client().require_minimum_version(&health, "2.5.0").is_ok());
    let health = ServerHealth { version: Some("2.5.0".into()) };
    assert!(client().require_minimum_version(&health, "2.5.0").is_ok());
}

#[test]
fn failed_exchanges_are_classified() {
    assert_eq!(
        transport_error(true, true).message(),
        "OpenBao request failed: request timed out"
    );
    assert_eq!(
        transport_error(false, true).message(),
        "OpenBao request failed: connection failed"
    );
    assert_eq!(
        transport_error(false, false).message(),
        "OpenBao request failed: unexpected HTTP error"
    );
}

#[test]
fn errors_read_as_sentences() {
    assert_eq!(AppError::Cancelled.message(), "Authentication was cancelled");
    assert_eq!(AppError::Timeout.message(), "Authentication timed out");
    assert_eq!(AppError::NotAuthenticated.message(), "You must sign in first");
    assert_eq!(
        AppError::Certificate("x".into()).message(),
        "Certificate operation failed: x"
    );
    assert_eq!(AppError::Internal.message(), "Internal error");
}

#[test]
fn a_challenge_is_made_of_a_read_url() {
    let url = |text: &str| Url::parse(text);
    let challenge = challenge_from(url("https://idp.test"), "st".into(), "7", secret("n"))
        .unwrap_or_else(|error| panic!("{}", error.message()));
    assert_eq!(challenge.auth_url, "https://idp.test/");
    assert_eq!(challenge.poll_interval_seconds, 7);
    assert_eq!(
        api_message(challenge_from(None, "st".into(), "7", secret("n"))),
        "OpenBao returned an invalid OIDC authorization URL"
    );
    assert_eq!(
        api_message(challenge_from(url("ftp://idp.test"), "st".into(), "7", secret("n"))),
        "OpenBao returned an unsafe OIDC authorization URL"
    );
}

#[test]
fn a_refused_poll_is_judged_by_its_messages() {
    let judge = |errors: &[&str]| {
        let errors: Vec<String> = errors.iter().map(|error| error.to_string()).collect();
        judge_refused_poll(400, &errors)
    };
    assert!(matches!(judge(&["x: authorization_pending"]), Ok(PollResult::Pending)));
    assert!(matches!(judge(&["x", "slow_down"]), Ok(PollResult::SlowDown)));
    assert_eq!(api_message(judge(&["expired"])), "expired");
    assert_eq!(api_message(judge(&[])), "HTTP 400 Bad Request");
}

#[test]
fn versions_are_judged_as_they_were_read() {
    let text = |text: &str| Some(text.to_string());
    assert!(judge_version(text("2"), text("1"), Some(false)).is_ok());
    assert_eq!(
        api_message(judge_version(text("1"), text("2"), Some(true))),
        "OpenBao 2 or newer is required; server reported 1"
    );
    assert!(judge_version(None, None, None).is_err());
    assert!(judge_version(text("1"), None, None).is_err());
}
