use openbao_certificate_client::oidc::{
    basic_credentials, credentials_in, userinfo_authorized, AuthorizationQuery, AuthorizeReply,
    Provider, StringPair, TokenForm, TokenReply,
};

const CALLBACK: &str = "http://127.0.0.1:18200/v1/auth/oidc/oidc/callback";
const VERIFIER: &str = "dBjftJeZ4CVP-mB92K27uhbUJU1p1r_wW1gFWFOEjXk";
const CHALLENGE: &str = "E9Melhoa2OwvFrEMTJguCHaoeK1t8URWbuGJSstw-cM";

fn query() -> AuthorizationQuery {
    AuthorizationQuery {
        client_id: "openbao-lab".into(),
        redirect_uri: CALLBACK.into(),
        state: "a&b".into(),
        nonce: "nonce".into(),
        code_challenge: CHALLENGE.into(),
        code_challenge_method: "S256".into(),
        response_type: "code".into(),
    }
}

fn form() -> TokenForm {
    TokenForm {
        grant_type: "authorization_code".into(),
        code: "code-1".into(),
        redirect_uri: CALLBACK.into(),
        code_verifier: VERIFIER.into(),
        client_id: Some("openbao-lab".into()),
        client_secret: Some("openbao-lab-secret".into()),
    }
}

fn provider() -> Provider {
    let mut provider = Provider::new("http://127.0.0.1:19090//");
    match provider.authorize(&query(), "code-1") {
        Some(AuthorizeReply::Redirect(url)) => {
            assert_eq!(url, format!("{CALLBACK}?code=code-1&state=a%26b"));
        }
        _ => panic!("the request is authorized"),
    }
    provider
}

fn refusal(reply: TokenReply) -> (u16, &'static str) {
    match reply {
        TokenReply::Refused { status, error } => (status, error),
        TokenReply::Granted(_) => panic!("a refusal was expected"),
    }
}

#[test]
fn a_code_is_exchanged_for_claims() {
    let claims = match provider().token(None, &form(), 1000) {
        TokenReply::Granted(claims) => claims,
        TokenReply::Refused { error, .. } => panic!("{error}"),
    };
    assert_eq!(claims.iss, "http://127.0.0.1:19090");
    assert_eq!(claims.sub, "alice-id");
    assert_eq!(claims.aud, "openbao-lab");
    assert_eq!((claims.iat, claims.exp), (1000, 1300));
    assert_eq!(claims.nonce, "nonce");
    assert_eq!(claims.email, "alice@example.test");
    assert!(claims.email_verified);
    assert_eq!(claims.preferred_username, "alice");
    assert_eq!(claims.groups, ["certificate_users"]);
}

#[test]
fn a_code_is_used_once() {
    let mut provider = provider();
    assert!(matches!(provider.token(None, &form(), 0), TokenReply::Granted(_)));
    assert_eq!(refusal(provider.token(None, &form(), 0)), (400, "invalid_grant"));
    assert!(provider.authorize(&query(), "code-2").is_some());
    let mut other = form();
    other.code = "code-2".into();
    other.code_verifier = "guess".into();
    assert_eq!(refusal(provider.token(None, &other, 0)), (400, "invalid_grant"));
    other.code_verifier = VERIFIER.into();
    assert_eq!(refusal(provider.token(None, &other, 0)), (400, "invalid_grant"));
}

#[test]
fn a_stranger_does_not_spend_a_code() {
    let mut provider = provider();
    let mut strange = form();
    strange.client_secret = Some("guess".into());
    assert_eq!(refusal(provider.token(None, &strange, 0)), (401, "invalid_client"));
    strange.client_secret = None;
    assert_eq!(refusal(provider.token(None, &strange, 0)), (401, "invalid_client"));
    let mut strange = form();
    strange.grant_type = "password".into();
    assert_eq!(refusal(provider.token(None, &strange, 0)), (401, "invalid_client"));
    assert!(matches!(provider.token(None, &form(), 0), TokenReply::Granted(_)));
}

#[test]
fn the_header_goes_before_the_form() {
    let good = "Basic b3BlbmJhby1sYWI6b3BlbmJhby1sYWItc2VjcmV0";
    let bad = "Basic b3BlbmJhby1sYWI6Z3Vlc3M=";
    let mut plain = form();
    plain.client_id = None;
    plain.client_secret = None;
    assert!(matches!(provider().token(Some(good), &plain, 0), TokenReply::Granted(_)));
    assert_eq!(
        refusal(provider().token(Some(bad), &form(), 0)),
        (401, "invalid_client")
    );
    assert!(matches!(
        provider().token(Some("Bearer x"), &form(), 0),
        TokenReply::Granted(_)
    ));
}

#[test]
fn the_callback_must_be_the_same() {
    let mut other = form();
    other.redirect_uri = format!("{CALLBACK}/");
    assert_eq!(refusal(provider().token(None, &other, 0)), (400, "invalid_grant"));
}

#[test]
fn only_the_lab_is_authorized() {
    for change in 0..4 {
        let mut bad = query();
        match change {
            0 => bad.client_id = "other".into(),
            1 => bad.response_type = "token".into(),
            2 => bad.code_challenge_method = "plain".into(),
            _ => bad.redirect_uri = "http://127.0.0.1:18201/v1/auth/oidc/oidc/callback".into(),
        }
        let mut provider = Provider::new("http://127.0.0.1:19090");
        assert!(matches!(
            provider.authorize(&bad, "code-1"),
            Some(AuthorizeReply::BadRequest)
        ));
        assert_eq!(refusal(provider.token(None, &form(), 0)), (400, "invalid_grant"));
    }
    let mut longer = query();
    longer.redirect_uri = format!("{CALLBACK}?x=1");
    match Provider::new("http://127.0.0.1:19090").authorize(&longer, "c") {
        Some(AuthorizeReply::Redirect(url)) => {
            assert_eq!(url, format!("{CALLBACK}?x=1&code=c&state=a%26b"));
        }
        _ => panic!("the request is authorized"),
    }
}

#[test]
fn basic_credentials_are_decoded() {
    let pair = basic_credentials(Some("Basic YTpiOmM=")).unwrap();
    assert_eq!(pair.as_refs(), ("a", "b:c"));
    for header in [
        None,
        Some("basic YTpi"),
        Some("Basic %%%"),
        Some("Basic YWI="),
        Some("Basic //8="),
        Some("Bearer YTpi"),
    ] {
        assert!(basic_credentials(header).is_none(), "{header:?}");
    }
    assert_eq!(StringPair("x".into(), "y".into()).as_refs(), ("x", "y"));
}

#[test]
fn user_information_needs_the_lab_token() {
    assert!(userinfo_authorized(Some("Bearer lab-access-token")));
    assert!(!userinfo_authorized(Some("bearer lab-access-token")));
    assert!(!userinfo_authorized(Some("Bearer other")));
    assert!(!userinfo_authorized(None));
}

#[test]
fn endpoints_are_below_the_issuer() {
    let endpoints = Provider::new("http://lab/").discovery();
    assert_eq!(endpoints.issuer, "http://lab");
    assert_eq!(endpoints.authorization_endpoint, "http://lab/authorize");
    assert_eq!(endpoints.token_endpoint, "http://lab/token");
    assert_eq!(endpoints.userinfo_endpoint, "http://lab/userinfo");
    assert_eq!(endpoints.jwks_uri, "http://lab/jwks");
}

#[test]
fn a_code_is_redeemed_with_its_challenge() {
    let client = || Some(StringPair("openbao-lab".into(), "openbao-lab-secret".into()));
    assert!(matches!(
        provider().redeem(client(), CHALLENGE, &form(), 0),
        TokenReply::Granted(_)
    ));
    assert_eq!(
        refusal(provider().redeem(client(), "other", &form(), 0)),
        (400, "invalid_grant")
    );
    assert_eq!(
        refusal(provider().redeem(None, CHALLENGE, &form(), 0)),
        (401, "invalid_client")
    );
}

#[test]
fn decoded_credentials_are_split() {
    assert_eq!(credentials_in(Some(b"a:b:c".to_vec())).unwrap().as_refs(), ("a", "b:c"));
    assert!(credentials_in(Some(b"ab".to_vec())).is_none());
    assert!(credentials_in(Some(vec![0xff])).is_none());
    assert!(credentials_in(None).is_none());
}
