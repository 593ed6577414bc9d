use openbao_certificate_client::certificates::{AcceptancePolicy, IssuedCertificate};
use openbao_certificate_client::config::CertificatePurpose;
use openbao_certificate_client::error::{AppError, AppResult};
use openbao_certificate_client::process::{redact_ykman_args, Argument, CommandOutput, Event};
use openbao_certificate_client::yubikey::{
    delete_yubikey_certificate, device_file_name, generate_yubikey_csr, import_yubikey_certificate,
    key_info_from_texts, list_yubikey_certificates, parse_yubikey_key_info,
    validate_yubikey_request, ykman_args, yubikey_certificate_deleted, yubikey_key_info_from_output,
    yubikey_management_key, DeviceAction, DeviceFile, SlotRequest, YkmanCommand, YubiKeyCsr,
    YubiKeyImport, YubiKeyInventory, YubiKeyRequest,
};

const ROOT: &str = "-----BEGIN CERTIFICATE-----
MIIBTDCB86ADAgECAhR9TmM0k3KW6vLo7glA55tygKgg4DAKBggqhkjOPQQDAjAT
MREwDwYDVQQDDAhMYWIgUm9vdDAgFw0yNDAxMDEwMDAwMDBaGA8yMTIwMDEwMTAw
MDAwMFowEzERMA8GA1UEAwwITGFiIFJvb3QwWTATBgcqhkjOPQIBBggqhkjOPQMB
BwNCAASb2xX3HyarbIj271dSYPHkf83/AxOIEhEVVV+3zkK+jEvTczV5EFSgqf04
U6Br3Dd5lB9ffoHLIk98ulWyj82SoyMwITAPBgNVHRMBAf8EBTADAQH/MA4GA1Ud
DwEB/wQEAwICBDAKBggqhkjOPQQDAgNIADBFAiEAjSvBrNEkWU7/ycQBgvgyMOtf
cOCOiU9AYQNpCwP8DrECICtqCoCfeXgJHY/Zv34nR4djJHydsypOwgNvUJ+CoiXt
-----END CERTIFICATE-----
";
const ROOT_SHA256: &str =
    "108492d6476510fc722965c3c6d39d93fb8dd71e311080e8b1bf69854e0d58c8";
const INTERMEDIATE: &str = "-----BEGIN CERTIFICATE-----
MIIBUTCB+aADAgECAhR5W6MnfuPWltwsUoMcpTilGAtx3jAKBggqhkjOPQQDAjAT
MREwDwYDVQQDDAhMYWIgUm9vdDAgFw0yNDAxMDEwMDAwMDBaGA8yMTIwMDEwMTAw
MDAwMFowGTEXMBUGA1UEAwwOTGFiIElzc3VpbmcgQ0EwWTATBgcqhkjOPQIBBggq
hkjOPQMBBwNCAARL2zEduIGWBZSNQpJCW1Wgk/jFM21xhrXNAgL8MHRN4r93hEA4
N9uZnpJnIAxHJumXtciOQy9vkh1TZobLw1s4oyMwITAPBgNVHRMBAf8EBTADAQH/
MA4GA1UdDwEB/wQEAwICBDAKBggqhkjOPQQDAgNHADBEAiB91fmLqRBRvnipbKa3
uNnAp00KvjaTYkfFtrbMbBUmTwIgEh/WGNV3/3xg3JwbYuBlVtrq80SVMzt5RWmc
LAlqjKs=
-----END CERTIFICATE-----
";
const REQUEST: &str = "-----BEGIN CERTIFICATE REQUEST-----
MIHXMH8CAQAwHTEbMBkGA1UEAwwSYWxpY2VAZXhhbXBsZS50ZXN0MFkwEwYHKoZI
zj0CAQYIKoZIzj0DAQcDQgAE5BG4bxmhNf6YIlBiQ+dmb5ibhXsZImGNUNMuy25p
v3swqsqB/Xtj76FgmOu1U4rJ5TNIdnS+26/acjtdQYNFpKAAMAoGCCqGSM49BAMC
A0gAMEUCIEW9C8WHB+/bkbCssuVmi3TntSwtrqInUn432NNGl//xAiEAyBJkQbTZ
pV7j4V3JY71vCTsI2FtOZgIPN66+aPpLDWk=
-----END CERTIFICATE REQUEST-----
";
const LEAF: &str = "-----BEGIN CERTIFICATE-----
MIIBxTCCAWqgAwIBAgIDChssMAoGCCqGSM49BAMCMBkxFzAVBgNVBAMMDkxhYiBJ
c3N1aW5nIENBMCAXDTI0MDEwMTAwMDAwMFoYDzIxMjAwMTAxMDAwMDAwWjAdMRsw
GQYDVQQDDBJhbGljZUBleGFtcGxlLnRlc3QwWTATBgcqhkjOPQIBBggqhkjOPQMB
BwNCAATkEbhvGaE1/pgiUGJD52ZvmJuFexkiYY1Q0y7Lbmm/ezCqyoH9e2PvoWCY
67VTisnlM0h2dL7br9pyO11Bg0Wko4GaMIGXMAwGA1UdEwEB/wQCMAAwDgYDVR0P
AQH/BAQDAgeAMDMGA1UdJQQsMCoGCCsGAQUFBwMCBggrBgEFBQcDAwYIKwYBBQUH
AwQGCisGAQQBgjcKAwwwQgYDVR0RBDswOYESQWxpY2VAZXhhbXBsZS50ZXN0ghJh
bGljZS5leGFtcGxlLnRlc3SGD2h0dHBzOi8veC50ZXN0LzAKBggqhkjOPQQDAgNJ
ADBGAiEAp+QEK806LMPCDsePkVU82lQcaiJi3gQv0E7LpWg9cHUCIQCY0pGk7DnX
zJU12j1pGxRIdKpGxKyjzWWFcF1iMfJOqw==
-----END CERTIFICATE-----
";
const LEAF_SHA1: &str = "51e42797a290e7b2b9af77edb52b00afdc7e0149";
const OTHER_KEY_LEAF: &str = "-----BEGIN CERTIFICATE-----
MIIBcDCCARWgAwIBAgIUUMd6vq3fXJ14quLdD/Pm7WC5o60wCgYIKoZIzj0EAwIw
GTEXMBUGA1UEAwwOTGFiIElzc3VpbmcgQ0EwIBcNMjQwMTAxMDAwMDAwWhgPMjEy
MDAxMDEwMDAwMDBaMB0xGzAZBgNVBAMMEmFsaWNlQGV4YW1wbGUudGVzdDBZMBMG
ByqGSM49AgEGCCqGSM49AwEHA0IABGWSiqeAYrXkbEqnAU8Y7h9clDHWYgEAxJ28
pR67WMVaG+WlNoymJDs6j4HhAnbirczMyQNGeVHf+AU96Izjw/mjNTAzMAwGA1Ud
EwEB/wQCMAAwDgYDVR0PAQH/BAQDAgeAMBMGA1UdJQQMMAoGCCsGAQUFBwMCMAoG
CCqGSM49BAMCA0kAMEYCIQCJwNoAjGPSGhVgkW5A1VbbUaIs85W74MezSLEua0Pr
XAIhAKs61R27ArH4t8kZnjn7qSsknVQozvOdlObJ3MxcosUg
-----END CERTIFICATE-----
";

const DEFAULT_KEY: &str = "010203040506070801020304050607080102030405060708";

fn request() -> YubiKeyRequest {
    YubiKeyRequest {
        slot: "9a".into(),
        pin: "123456".into(),
        management_key: None,
        algorithm: "eccp256".into(),
        pin_policy: "once".into(),
        touch_policy: "cached".into(),
    }
}

fn output(success: bool, stdout: &str, stderr: &str) -> CommandOutput {
    CommandOutput {
        success,
        code: None,
        stdout: stdout.as_bytes().to_vec(),
        stderr: stderr.as_bytes().to_vec(),
    }
}

fn ended(success: bool, stderr: &str) -> Event {
    Event::Output(Ok(output(success, "", stderr)))
}

fn not_run() -> Event {
    Event::Output(Err(AppError::Certificate("not run".into())))
}

fn message<T>(result: AppResult<T>) -> String {
    let message = match result {
        Ok(_) => panic!("an error was expected"),
        Err(error) => error.message(),
    };
    message
        .strip_prefix("Certificate operation failed: ")
        .unwrap_or(&message)
        .into()
}

fn accepted<T>(result: AppResult<T>) -> T {
    result.unwrap_or_else(|error| panic!("{}", error.message()))
}

fn done<T>(action: DeviceAction<T>) -> AppResult<T> {
    match action {
        DeviceAction::Done(result) => result,
        _ => panic!("the procedure goes on"),
    }
}

fn command<T>(action: &DeviceAction<T>) -> YkmanCommand {
    match action {
        DeviceAction::Run(command) => *command,
        _ => panic!("a command was expected"),
    }
}

fn args(command: YkmanCommand, request: &YubiKeyRequest, common_name: &str) -> Vec<String> {
    ykman_args(command, request, common_name)
        .into_iter()
        .map(|arg| match arg {
            Argument::Text(text) | Argument::Secret(text) => text,
            Argument::File(name) => format!("<{name}>"),
        })
        .collect()
}

#[test]
fn requests_name_known_slots_and_policies() {
    assert!(validate_yubikey_request(&request()).is_ok());
    for slot in ["9a", "9c", "9d", "9e"] {
        let mut request = request();
        request.slot = slot.into();
        assert!(validate_yubikey_request(&request).is_ok());
    }
    for algorithm in ["rsa2048", "rsa3072", "rsa4096", "eccp256", "eccp384"] {
        let mut request = request();
        request.algorithm = algorithm.into();
        assert!(validate_yubikey_request(&request).is_ok());
    }
    for policy in ["default", "never", "once", "always"] {
        let mut request = request();
        request.pin_policy = policy.into();
        assert!(validate_yubikey_request(&request).is_ok());
    }
    for policy in ["default", "never", "always", "cached"] {
        let mut request = request();
        request.touch_policy = policy.into();
        assert!(validate_yubikey_request(&request).is_ok());
    }
}

#[test]
fn each_unsupported_choice_is_named() {
    let mut bad = request();
    bad.slot = "9A".into();
    assert_eq!(
        message(validate_yubikey_request(&bad)),
        "unsupported YubiKey PIV slot; choose 9a, 9c, 9d, or 9e"
    );
    let mut bad = request();
    bad.algorithm = "rsa1024".into();
    assert_eq!(
        message(validate_yubikey_request(&bad)),
        "unsupported YubiKey key algorithm"
    );
    let mut bad = request();
    bad.pin_policy = "cached".into();
    assert_eq!(
        message(validate_yubikey_request(&bad)),
        "unsupported YubiKey PIN policy"
    );
    let mut bad = request();
    bad.touch_policy = "once".into();
    assert_eq!(
        message(validate_yubikey_request(&bad)),
        "unsupported YubiKey touch policy"
    );
    let mut bad = request();
    bad.pin = " \t".into();
    assert_eq!(
        message(validate_yubikey_request(&bad)),
        "YubiKey PIV PIN is required for this operation"
    );
}

#[test]
fn the_management_key_has_a_default() {
    assert_eq!(yubikey_management_key(&request()), DEFAULT_KEY);
    let mut blank = request();
    blank.management_key = Some("  ".into());
    assert_eq!(yubikey_management_key(&blank), DEFAULT_KEY);
    let mut own = request();
    own.management_key = Some(" abcd\n".into());
    assert_eq!(yubikey_management_key(&own), "abcd");
}

#[test]
fn key_information_is_read_line_by_line() {
    let info = parse_yubikey_key_info(
        "Key slot: 9A\r\n Algorithm :  ECCP256 \nPIN POLICY: ONCE\nTouch policy:\nAlgorithm: RSA2048: odd",
    );
    assert_eq!(info.algorithm.as_deref(), Some("RSA2048: odd"));
    assert_eq!(info.pin_policy.as_deref(), Some("ONCE"));
    assert_eq!(info.touch_policy, None);
    let info = parse_yubikey_key_info("no colon here\n\ntouch policy: CACHED");
    assert_eq!(info.algorithm, None);
    assert_eq!(info.touch_policy.as_deref(), Some("CACHED"));
}

#[test]
fn an_empty_slot_is_no_failure() {
    let info = accepted(yubikey_key_info_from_output(&output(
        true,
        "Algorithm: ECCP256",
        "PIN policy: NEVER",
    )))
    .unwrap();
    assert_eq!(info.algorithm.as_deref(), Some("ECCP256"));
    assert_eq!(info.pin_policy.as_deref(), Some("NEVER"));
    for text in [
        "ERROR: No key stored in slot",
        "Object NOT FOUND",
        "slot not present",
        "slot is Empty",
    ] {
        assert!(accepted(yubikey_key_info_from_output(&output(false, "", text))).is_none());
        assert!(accepted(yubikey_key_info_from_output(&output(false, text, ""))).is_none());
    }
    assert_eq!(
        message(yubikey_key_info_from_output(&output(false, "", "reader busy"))),
        "YubiKey Manager could not inspect the PIV slot: reader busy"
    );
}

#[test]
fn files_are_named() {
    assert_eq!(device_file_name(DeviceFile::PublicKey, "9a"), "yubikey-public.pem");
    assert_eq!(device_file_name(DeviceFile::Request, "9a"), "yubikey-request.pem");
    assert_eq!(device_file_name(DeviceFile::Certificate, "9a"), "yubikey-certificate.pem");
    assert_eq!(
        device_file_name(DeviceFile::ExistingCertificate, "9a"),
        "existing-yubikey-certificate.pem"
    );
    assert_eq!(
        device_file_name(DeviceFile::SlotCertificate, "9c"),
        "yubikey-slot-9c.pem"
    );
}

#[test]
fn device_commands_have_their_arguments() {
    let request = request();
    assert_eq!(
        args(YkmanCommand::KeyInfo, &request, ""),
        vec!["piv", "keys", "info", "9a"]
    );
    assert_eq!(
        args(YkmanCommand::ExportCertificate(DeviceFile::SlotCertificate), &request, ""),
        vec!["piv", "certificates", "export", "9a", "<yubikey-slot-9a.pem>"]
    );
    assert_eq!(
        args(YkmanCommand::ExportKey, &request, ""),
        vec!["piv", "keys", "export", "--verify", "--pin", "123456", "9a", "<yubikey-public.pem>"]
    );
    assert_eq!(
        args(YkmanCommand::GenerateKey, &request, ""),
        vec![
            "piv", "keys", "generate", "--algorithm", "eccp256", "--pin-policy", "once",
            "--touch-policy", "cached", "--management-key", DEFAULT_KEY, "--pin", "123456", "9a",
            "<yubikey-public.pem>",
        ]
    );
    assert_eq!(
        args(YkmanCommand::RequestCertificate, &request, "Alice, A+B"),
        vec![
            "piv", "certificates", "request", "--pin", "123456", "--subject", "CN=Alice\\, A\\+B",
            "9a", "<yubikey-public.pem>", "<yubikey-request.pem>",
        ]
    );
    assert_eq!(
        args(YkmanCommand::ImportCertificate, &request, ""),
        vec![
            "piv", "certificates", "import", "--verify", "--pin", "123456", "--management-key",
            DEFAULT_KEY, "9a", "<yubikey-certificate.pem>",
        ]
    );
    assert_eq!(
        args(YkmanCommand::DeleteCertificate, &request, ""),
        vec![
            "piv", "certificates", "delete", "--pin", "123456", "--management-key", DEFAULT_KEY,
            "9a",
        ]
    );
    assert_eq!(
        args(YkmanCommand::DeleteKey, &request, ""),
        vec!["piv", "keys", "delete", "--pin", "123456", "--management-key", DEFAULT_KEY, "9a"]
    );
}

#[test]
fn no_command_shows_a_secret() {
    let mut request = request();
    request.management_key = Some("00ff00ff".into());
    for command in [
        YkmanCommand::ExportKey,
        YkmanCommand::GenerateKey,
        YkmanCommand::RequestCertificate,
        YkmanCommand::ImportCertificate,
        YkmanCommand::DeleteCertificate,
        YkmanCommand::DeleteKey,
    ] {
        let shown = redact_ykman_args(&args(command, &request, "alice"));
        assert!(!shown.contains("123456"), "{shown}");
        assert!(!shown.contains("00ff00ff"), "{shown}");
    }
}

/// A request up to the point where both questions about the slot are answered.
fn asked(replace: bool, key: Event, certificate: bool) -> (YubiKeyCsr, DeviceAction<SlotRequest>) {
    let machine = accepted(generate_yubikey_csr("alice", &request(), replace));
    let (machine, action) = machine.step(Event::Directory(true));
    assert_eq!(command(&action), YkmanCommand::KeyInfo);
    let (machine, action) = machine.step(key);
    assert_eq!(
        command(&action),
        YkmanCommand::ExportCertificate(DeviceFile::ExistingCertificate)
    );
    if certificate {
        let (machine, action) = machine.step(ended(true, ""));
        assert!(matches!(
            action,
            DeviceAction::CheckFile(DeviceFile::ExistingCertificate)
        ));
        machine.step(Event::Present(true))
    } else {
        machine.step(ended(false, "no certificate"))
    }
}

fn no_key() -> Event {
    ended(false, "No key stored")
}

#[test]
fn a_new_key_is_made_in_an_empty_slot() {
    let (machine, action) = asked(false, no_key(), false);
    assert_eq!(command(&action), YkmanCommand::GenerateKey);
    let (machine, action) = machine.step(ended(true, ""));
    assert_eq!(command(&action), YkmanCommand::RequestCertificate);
    let (machine, action) = machine.step(ended(true, ""));
    assert!(matches!(action, DeviceAction::ReadFile(DeviceFile::Request)));
    let (machine, action) = machine.step(Event::Text(Some(REQUEST.into())));
    let made = accepted(done(action));
    assert_eq!(made.csr_pem, REQUEST);
    assert!(made.generated_new_key);
    assert_eq!(message(done(machine.step(ended(true, "")).1)), "Internal error");
}

#[test]
fn an_existing_key_is_used_again() {
    let (machine, action) = asked(true, ended(true, ""), true);
    assert_eq!(command(&action), YkmanCommand::ExportKey);
    let (machine, action) = machine.step(ended(true, ""));
    assert_eq!(command(&action), YkmanCommand::RequestCertificate);
    let (_, action) = machine.step(ended(true, "")).0.step(Event::Text(Some(REQUEST.into())));
    assert!(!accepted(done(action)).generated_new_key);
    let machine = asked(true, ended(true, ""), false).0;
    assert_eq!(
        message(done(machine.step(ended(false, "locked")).1)),
        "YubiKey Manager could not export the existing PIV public key: locked"
    );
    let machine = asked(true, ended(true, ""), false).0.step(ended(true, "")).0;
    assert_eq!(message(done(machine.step(not_run()).1)), "not run");
}

#[test]
fn an_occupied_slot_needs_leave() {
    let (_, action) = asked(false, ended(true, ""), true);
    assert_eq!(
        message(done(action)),
        "YubiKey PIV slot 9a already contains a private key; choose another slot or clear it with YubiKey Manager before requesting a new certificate"
    );
    let (_, action) = asked(false, no_key(), true);
    assert_eq!(
        message(done(action)),
        "YubiKey PIV slot 9a already contains a certificate; choose another slot or clear it with YubiKey Manager before requesting a new certificate"
    );
    assert_eq!(command(&asked(true, no_key(), true).1), YkmanCommand::GenerateKey);
    let machine = accepted(generate_yubikey_csr("alice", &request(), false));
    let machine = machine.step(Event::Directory(true)).0.step(no_key()).0;
    let (_, action) = machine.step(ended(true, "")).0.step(Event::Present(false));
    assert_eq!(command(&action), YkmanCommand::GenerateKey);
}

#[test]
fn a_failed_request_takes_its_new_key_along() {
    let made = || asked(false, no_key(), false).0.step(ended(true, "")).0;
    let asked_for = || made().step(ended(true, "")).0;
    for (machine, event, expected) in [
        (made(), not_run(), "not run"),
        (made(), ended(false, "busy"), "YubiKey Manager could not generate a CSR: busy"),
        (
            asked_for(),
            Event::Text(None),
            "YubiKey Manager did not produce a certificate request",
        ),
        (
            asked_for(),
            Event::Text(Some("BEGIN NEW CERTIFICATE REQUEST".into())),
            "YubiKey Manager produced an unexpected CSR format",
        ),
    ] {
        let (machine, action) = machine.step(event);
        assert_eq!(command(&action), YkmanCommand::DeleteKey);
        assert_eq!(message(done(machine.step(not_run()).1)), expected);
    }
    let machine = asked(false, no_key(), false).0;
    assert_eq!(
        message(done(machine.step(ended(false, "")).1)),
        "YubiKey Manager could not generate a PIV key"
    );
}

#[test]
fn a_request_is_checked_before_anything_is_run() {
    assert_eq!(
        message(generate_yubikey_csr("alice\n", &request(), false)),
        "the mapped certificate identity is invalid"
    );
    let mut bad = request();
    bad.slot = "82".into();
    assert!(generate_yubikey_csr("alice", &bad, true).is_err());
    let machine = accepted(generate_yubikey_csr("alice", &request(), false));
    assert_eq!(
        message(done(machine.step(Event::Directory(false)).1)),
        "could not create a protected temporary directory"
    );
    let machine = accepted(generate_yubikey_csr("alice", &request(), false));
    let machine = machine.step(Event::Directory(true)).0;
    assert_eq!(
        message(done(machine.step(ended(false, "reader busy")).1)),
        "YubiKey Manager could not inspect the PIV slot: reader busy"
    );
}

fn issued() -> IssuedCertificate {
    IssuedCertificate {
        thumbprint: "ab".into(),
        subject: "CN=alice".into(),
        not_after: "2120".into(),
        warnings: Vec::new(),
    }
}

#[test]
fn a_certificate_is_staged_and_imported() {
    let (import, action) = YubiKeyImport::begin(Ok((issued(), Vec::new())), "leaf", true);
    assert!(matches!(action, DeviceAction::WriteCertificate(pem) if pem == "leaf"));
    let (import, action) = import.step(Event::Written(true));
    assert_eq!(command(&action), YkmanCommand::ImportCertificate);
    let (import, action) = import.step(ended(true, ""));
    assert_eq!(accepted(done(action)).thumbprint, "ab");
    assert_eq!(message(done(import.step(ended(true, "")).1)), "Internal error");
}

#[test]
fn failed_imports_delete_new_keys_only() {
    for new_key in [true, false] {
        let begin = || YubiKeyImport::begin(Ok((issued(), Vec::new())), "leaf", new_key).0;
        let importing = || begin().step(Event::Written(true)).0;
        for (import, event, expected) in [
            (
                begin(),
                Event::Written(false),
                "could not stage the signed YubiKey certificate",
            ),
            (
                importing(),
                ended(false, "full"),
                "YubiKey Manager could not import the signed certificate: full",
            ),
        ] {
            let (import, action) = import.step(event);
            if new_key {
                assert_eq!(command(&action), YkmanCommand::DeleteKey);
                assert_eq!(message(done(import.step(ended(true, "")).1)), expected);
            } else {
                assert_eq!(message(done(action)), expected);
            }
        }
        assert_eq!(message(done(importing().step(not_run()).1)), "not run");
    }
}

fn import(leaf: &str) -> (YubiKeyImport, DeviceAction<IssuedCertificate>) {
    let fingerprints = vec![ROOT_SHA256.to_string()];
    let ekus: Vec<String> = Vec::new();
    let policy = AcceptancePolicy {
        trusted_root_fingerprints: &fingerprints,
        expected_identity: "alice@example.test",
        expected_san: None,
        expected_purpose: &CertificatePurpose::Mtls,
        expected_eku_oids: &ekus,
    };
    let chain = vec![INTERMEDIATE.to_string(), ROOT.to_string()];
    import_yubikey_certificate(REQUEST, leaf, &chain, &policy, true)
}

#[test]
fn an_import_goes_by_its_request() {
    let fingerprints = vec![ROOT_SHA256.to_string()];
    let ekus: Vec<String> = Vec::new();
    let policy = AcceptancePolicy {
        trusted_root_fingerprints: &fingerprints,
        expected_identity: "alice@example.test",
        expected_san: None,
        expected_purpose: &CertificatePurpose::Mtls,
        expected_eku_oids: &ekus,
    };
    let chain = vec![INTERMEDIATE.to_string(), ROOT.to_string()];
    for generated_new_key in [true, false] {
        let request = SlotRequest {
            csr_pem: REQUEST.into(),
            generated_new_key,
        };
        let (import, action) = request.import(LEAF, &chain, &policy);
        assert_eq!(import.delete_key_on_failure, generated_new_key);
        assert!(matches!(action, DeviceAction::WriteCertificate(pem) if pem == LEAF));
        let (_, action) = request.import(OTHER_KEY_LEAF, &chain, &policy);
        if generated_new_key {
            assert_eq!(command(&action), YkmanCommand::DeleteKey);
        } else {
            assert_eq!(
                message(done(action)),
                "the signed certificate does not match the locally generated key"
            );
        }
    }
}

#[test]
fn a_refused_certificate_is_not_imported() {
    let (machine, action) = import(LEAF);
    assert!(matches!(action, DeviceAction::WriteCertificate(pem) if pem == LEAF));
    let (_, action) = machine.step(Event::Written(true)).0.step(ended(true, ""));
    assert_eq!(accepted(done(action)).thumbprint, LEAF_SHA1);
    let (machine, action) = import(OTHER_KEY_LEAF);
    assert_eq!(command(&action), YkmanCommand::DeleteKey);
    assert_eq!(
        message(done(machine.step(ended(true, "")).1)),
        "the signed certificate does not match the locally generated key"
    );
}

#[test]
fn a_certificate_can_be_deleted() {
    assert_eq!(
        accepted(delete_yubikey_certificate(&request())),
        YkmanCommand::DeleteCertificate
    );
    let mut bad = request();
    bad.pin = String::new();
    assert!(delete_yubikey_certificate(&bad).is_err());
    assert!(yubikey_certificate_deleted(Ok(output(true, "", ""))).is_ok());
    assert_eq!(
        message(yubikey_certificate_deleted(Ok(output(false, "", "pin=1")))),
        "YubiKey Manager could not remove the certificate: pin=[REDACTED]"
    );
    assert_eq!(
        message(yubikey_certificate_deleted(Err(AppError::Internal))),
        "Internal error"
    );
}

fn next(inventory: YubiKeyInventory, slot: &str) -> YubiKeyInventory {
    assert_eq!(inventory.slot(), slot);
    inventory
}

#[test]
fn the_inventory_covers_four_slots() {
    let inventory = list_yubikey_certificates();
    let (inventory, action) = inventory.step(Event::Directory(true));
    assert_eq!(command(&action), YkmanCommand::KeyInfo);
    let key = output(true, "Algorithm: ECCP256\nPIN policy: ONCE\nTouch policy: NEVER", "");
    let (inventory, action) = next(inventory, "9a").step(Event::Output(Ok(key)));
    assert_eq!(
        command(&action),
        YkmanCommand::ExportCertificate(DeviceFile::SlotCertificate)
    );
    let (inventory, action) = inventory.step(ended(true, ""));
    assert!(matches!(
        action,
        DeviceAction::CheckFile(DeviceFile::SlotCertificate)
    ));
    let (inventory, action) = inventory.step(Event::Present(true));
    assert!(matches!(
        action,
        DeviceAction::ReadFile(DeviceFile::SlotCertificate)
    ));
    let (inventory, action) = inventory.step(Event::Text(Some(LEAF.into())));
    assert_eq!(command(&action), YkmanCommand::KeyInfo);
    let inventory = next(inventory, "9c").step(no_key()).0;
    let inventory = inventory.step(ended(true, "")).0.step(Event::Present(false)).0;
    let inventory = next(inventory, "9d").step(ended(true, "")).0.step(ended(false, "")).0;
    let inventory = next(inventory, "9e").step(no_key()).0;
    let (inventory, action) = inventory.step(ended(false, ""));
    let slots = accepted(done(action)).slots;
    let summary: Vec<(&str, &str, bool, bool)> = slots
        .iter()
        .map(|slot| {
            (
                slot.slot.as_str(),
                slot.label.as_str(),
                slot.has_private_key,
                slot.certificate.is_some(),
            )
        })
        .collect();
    assert_eq!(
        summary,
        vec![
            ("9a", "Authentication", true, true),
            ("9c", "Digital signature", false, false),
            ("9d", "Key management", true, false),
            ("9e", "Card authentication", false, false),
        ]
    );
    assert_eq!(slots[0].key_algorithm.as_deref(), Some("ECCP256"));
    assert_eq!(slots[0].pin_policy.as_deref(), Some("ONCE"));
    assert_eq!(slots[0].touch_policy.as_deref(), Some("NEVER"));
    let certificate = slots[0].certificate.as_ref().unwrap();
    assert_eq!(certificate.thumbprint, LEAF_SHA1);
    assert!(certificate.has_private_key);
    assert_eq!(slots[2].key_algorithm, None);
    assert_eq!(message(done(inventory.step(ended(true, "")).1)), "Internal error");
}

#[test]
fn a_failed_inventory_is_named() {
    assert_eq!(
        message(done(list_yubikey_certificates().step(Event::Directory(false)).1)),
        "could not create a protected temporary directory"
    );
    let begun = || list_yubikey_certificates().step(Event::Directory(true)).0;
    assert_eq!(message(done(begun().step(not_run()).1)), "not run");
    assert_eq!(
        message(done(begun().step(ended(false, "busy")).1)),
        "YubiKey Manager could not inspect the PIV slot: busy"
    );
    let reading = || {
        let inventory = begun().step(no_key()).0.step(ended(true, "")).0;
        inventory.step(Event::Present(true)).0
    };
    assert_eq!(
        message(done(reading().step(Event::Text(None)).1)),
        "YubiKey certificate could not be read"
    );
    assert_eq!(
        message(done(reading().step(Event::Text(Some("junk".into()))).1)),
        "YubiKey returned an invalid certificate PEM"
    );
}

#[test]
fn an_inspection_is_read_from_texts() {
    let info = accepted(key_info_from_texts(true, "Algorithm: RSA2048", "")).unwrap();
    assert_eq!(info.algorithm.as_deref(), Some("RSA2048"));
    assert!(accepted(key_info_from_texts(false, "", "Object not found")).is_none());
    assert_eq!(
        message(key_info_from_texts(false, "out", "err")),
        "YubiKey Manager could not inspect the PIV slot: err\nout"
    );
}
