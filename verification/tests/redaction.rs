use openbao_certificate_client::redaction::redact;

#[test]
fn redacts_query_and_json_secrets() {
    let value = redact(
        "token=abc123&x=1 client_token\":\"secret\", private_key=hidden csr=request pin=123456",
    );
    assert!(!value.contains("abc123"));
    assert!(!value.contains("secret"));
    assert!(!value.contains("hidden"));
    assert!(!value.contains("request"));
    assert!(!value.contains("123456"));
}

#[test]
fn values_end_at_separators_quotes_and_white_space() {
    assert_eq!(
        redact("code=a&state=b,pin=c\"nonce csr=d\u{3000}e"),
        "code=[REDACTED]&state=[REDACTED],pin=[REDACTED]\"nonce csr=[REDACTED]\u{3000}e"
    );
    assert_eq!(
        redact("{\"client_nonce\": \"x\", \"id_token\":\"y\"}"),
        "{\"client_nonce\": \"[REDACTED]\", \"id_token\":\"[REDACTED]\"}"
    );
    assert_eq!(redact("token="), "token=[REDACTED]");
    assert_eq!(redact("token=\n"), "token=[REDACTED]\n");
}

#[test]
fn keys_are_found_in_any_case_and_inside_words() {
    assert_eq!(redact("ToKeN=abc"), "ToKeN=[REDACTED]");
    assert_eq!(redact("mytoken=abc"), "mytoken=[REDACTED]");
    assert_eq!(redact("é=1 Management_Key=ß"), "é=1 Management_Key=[REDACTED]");
}

#[test]
fn every_secret_key_is_known() {
    for key in [
        "token",
        "client_token",
        "access_token",
        "refresh_token",
        "id_token",
        "client_nonce",
        "state",
        "code",
        "csr",
        "pin",
        "management_key",
        "private_key",
    ] {
        for separator in ["=", "\":\"", "\": \""] {
            assert_eq!(
                redact(&format!("<{key}{separator}value>")),
                format!("<{key}{separator}[REDACTED]")
            );
        }
    }
}

#[test]
fn redaction_is_done_once() {
    for text in [
        "token=abc123&x=1 client_token\":\"secret\", pin=1",
        "plain text",
        "csr=pin=state=1",
        "token=token=token=",
    ] {
        assert_eq!(redact(&redact(text)), redact(text));
    }
}

#[test]
fn text_without_secrets_is_kept() {
    for text in ["", "policy denied", "token abc", "tokens: 5", "status=400", "пин=1"] {
        assert_eq!(redact(text), text);
    }
}
