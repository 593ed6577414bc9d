use openbao_certificate_client::certificates::{AcceptancePolicy, IssuedCertificate};
use openbao_certificate_client::config::{CertificateProfile, CertificatePurpose};
use openbao_certificate_client::enrollment::{
    key_container_deleted, Acceptance, PendingRequest, RequestGeneration,
};
use openbao_certificate_client::error::{AppError, AppResult};
use openbao_certificate_client::process::{Argument, CommandOutput, Event};
use openbao_certificate_client::windows::{
    windows_args, windows_file_name, windows_program, WindowsAction, WindowsCommand, WindowsFile,
};

const ROOT: &str = "-----BEGIN CERTIFICATE-----
MIIBTDCB86ADAgECAhR9TmM0k3KW6vLo7glA55tygKgg4DAKBggqhkjOPQQDAjAT
MREwDwYDVQQDDAhMYWIgUm9vdDAgFw0yNDAxMDEwMDAwMDBaGA8yMTIwMDEwMTAw
MDAwMFowEzERMA8GA1UEAwwITGFiIFJvb3QwWTATBgcqhkjOPQIBBggqhkjOPQMB
BwNCAASb2xX3HyarbIj271dSYPHkf83/AxOIEhEVVV+3zkK+jEvTczV5EFSgqf04
U6Br3Dd5lB9ffoHLIk98ulWyj82SoyMwITAPBgNVHRMBAf8EBTADAQH/MA4GA1Ud
DwEB/wQEAwICBDAKBggqhkjOPQQDAgNIADBFAiEAjSvBrNEkWU7/ycQBgvgyMOtf
cOCOiU9AYQNpCwP8DrECICtqCoCfeXgJHY/Zv34nR4djJHydsypOwgNvUJ+CoiXt
-----END CERTIFICATE-----
";
const ROOT_SHA256: &str =
    "108492d6476510fc722965c3c6d39d93fb8dd71e311080e8b1bf69854e0d58c8";
const INTERMEDIATE: &str = "-----BEGIN CERTIFICATE-----
MIIBUTCB+aADAgECAhR5W6MnfuPWltwsUoMcpTilGAtx3jAKBggqhkjOPQQDAjAT
MREwDwYDVQQDDAhMYWIgUm9vdDAgFw0yNDAxMDEwMDAwMDBaGA8yMTIwMDEwMTAw
MDAwMFowGTEXMBUGA1UEAwwOTGFiIElzc3VpbmcgQ0EwWTATBgcqhkjOPQIBBggq
hkjOPQMBBwNCAARL2zEduIGWBZSNQpJCW1Wgk/jFM21xhrXNAgL8MHRN4r93hEA4
N9uZnpJnIAxHJumXtciOQy9vkh1TZobLw1s4oyMwITAPBgNVHRMBAf8EBTADAQH/
MA4GA1UdDwEB/wQEAwICBDAKBggqhkjOPQQDAgNHADBEAiB91fmLqRBRvnipbKa3
uNnAp00KvjaTYkfFtrbMbBUmTwIgEh/WGNV3/3xg3JwbYuBlVtrq80SVMzt5RWmc
LAlqjKs=
-----END CERTIFICATE-----
";
const REQUEST: &str = "-----BEGIN CERTIFICATE REQUEST-----
MIHXMH8CAQAwHTEbMBkGA1UEAwwSYWxpY2VAZXhhbXBsZS50ZXN0MFkwEwYHKoZI
zj0CAQYIKoZIzj0DAQcDQgAE5BG4bxmhNf6YIlBiQ+dmb5ibhXsZImGNUNMuy25p
v3swqsqB/Xtj76FgmOu1U4rJ5TNIdnS+26/acjtdQYNFpKAAMAoGCCqGSM49BAMC
A0gAMEUCIEW9C8WHB+/bkbCssuVmi3TntSwtrqInUn432NNGl//xAiEAyBJkQbTZ
pV7j4V3JY71vCTsI2FtOZgIPN66+aPpLDWk=
-----END CERTIFICATE REQUEST-----
";
const LEAF: &str = "-----BEGIN CERTIFICATE-----
MIIBxTCCAWqgAwIBAgIDChssMAoGCCqGSM49BAMCMBkxFzAVBgNVBAMMDkxhYiBJ
c3N1aW5nIENBMCAXDTI0MDEwMTAwMDAwMFoYDzIxMjAwMTAxMDAwMDAwWjAdMRsw
GQYDVQQDDBJhbGljZUBleGFtcGxlLnRlc3QwWTATBgcqhkjOPQIBBggqhkjOPQMB
BwNCAATkEbhvGaE1/pgiUGJD52ZvmJuFexkiYY1Q0y7Lbmm/ezCqyoH9e2PvoWCY
67VTisnlM0h2dL7br9pyO11Bg0Wko4GaMIGXMAwGA1UdEwEB/wQCMAAwDgYDVR0P
AQH/BAQDAgeAMDMGA1UdJQQsMCoGCCsGAQUFBwMCBggrBgEFBQcDAwYIKwYBBQUH
AwQGCisGAQQBgjcKAwwwQgYDVR0RBDswOYESQWxpY2VAZXhhbXBsZS50ZXN0ghJh
bGljZS5leGFtcGxlLnRlc3SGD2h0dHBzOi8veC50ZXN0LzAKBggqhkjOPQQDAgNJ
ADBGAiEAp+QEK806LMPCDsePkVU82lQcaiJi3gQv0E7LpWg9cHUCIQCY0pGk7DnX
zJU12j1pGxRIdKpGxKyjzWWFcF1iMfJOqw==
-----END CERTIFICATE-----
";
const LEAF_SHA1: &str = "51e42797a290e7b2b9af77edb52b00afdc7e0149";
const OTHER_KEY_LEAF: &str = "-----BEGIN CERTIFICATE-----
MIIBcDCCARWgAwIBAgIUUMd6vq3fXJ14quLdD/Pm7WC5o60wCgYIKoZIzj0EAwIw
GTEXMBUGA1UEAwwOTGFiIElzc3VpbmcgQ0EwIBcNMjQwMTAxMDAwMDAwWhgPMjEy
MDAxMDEwMDAwMDBaMB0xGzAZBgNVBAMMEmFsaWNlQGV4YW1wbGUudGVzdDBZMBMG
ByqGSM49AgEGCCqGSM49AwEHA0IABGWSiqeAYrXkbEqnAU8Y7h9clDHWYgEAxJ28
pR67WMVaG+WlNoymJDs6j4HhAnbirczMyQNGeVHf+AU96Izjw/mjNTAzMAwGA1Ud
EwEB/wQCMAAwDgYDVR0PAQH/BAQDAgeAMBMGA1UdJQQMMAoGCCsGAQUFBwMCMAoG
CCqGSM49BAMCA0kAMEYCIQCJwNoAjGPSGhVgkW5A1VbbUaIs85W74MezSLEua0Pr
XAIhAKs61R27ArH4t8kZnjn7qSsknVQozvOdlObJ3MxcosUg
-----END CERTIFICATE-----
";

const CSR: &str = "-----BEGIN NEW CERTIFICATE REQUEST-----";

fn profile(purpose: CertificatePurpose) -> CertificateProfile {
    CertificateProfile {
        id: "mtls".into(),
        label: "mTLS".into(),
        description: String::new(),
        purpose,
        pki_mount: "pki".into(),
        pki_role: "mtls".into(),
        subject_claim: "email".into(),
        san_claim: None,
        destination_store: "My".into(),
        key_algorithm: "rsa-3072".into(),
        expected_eku_oids: Vec::new(),
    }
}

fn ended(success: bool, stderr: &str) -> Event {
    Event::Output(Ok(CommandOutput {
        success,
        code: Some(if success { 0 } else { 1 }),
        stdout: Vec::new(),
        stderr: stderr.as_bytes().to_vec(),
    }))
}

fn not_run() -> Event {
    Event::Output(Err(AppError::Certificate("not run".into())))
}

fn begun() -> RequestGeneration {
    PendingRequest::begin(&profile(CertificatePurpose::Mtls), "alice", "id")
        .unwrap_or_else(|error| panic!("{}", error.message()))
}

fn done<T>(action: WindowsAction<T>) -> AppResult<T> {
    match action {
        WindowsAction::Done(result) => result,
        _ => panic!("the procedure goes on"),
    }
}

fn error<T>(action: WindowsAction<T>) -> String {
    let message = match done(action) {
        Ok(_) => panic!("an error was expected"),
        Err(error) => error.message(),
    };
    message
        .strip_prefix("Certificate operation failed: ")
        .unwrap_or(&message)
        .into()
}

fn command<T>(action: &WindowsAction<T>) -> WindowsCommand {
    match action {
        WindowsAction::Run(command) => *command,
        _ => panic!("a command was expected"),
    }
}

fn write<T>(action: &WindowsAction<T>) -> (WindowsFile, &str) {
    match action {
        WindowsAction::Write(file, text) => (*file, text.as_str()),
        _ => panic!("a file was expected"),
    }
}

fn written(args: Vec<Argument>) -> Vec<String> {
    args.into_iter()
        .map(|arg| match arg {
            Argument::Text(text) => text,
            Argument::Secret(_) => panic!("no secret was expected"),
            Argument::File(name) => format!("<{name}>"),
        })
        .collect()
}

#[test]
fn instructions_name_subject_container_and_usage() {
    let machine = PendingRequest::begin(
        &profile(CertificatePurpose::DocumentSigning),
        "Alice \"A\" Example",
        "7",
    )
    .unwrap_or_else(|error| panic!("{}", error.message()));
    assert_eq!(machine.key_container, "OpenBao-mtls-7");
    assert_eq!(
        machine.instructions,
        r#"[Version]
Signature="$Windows NT$"

[NewRequest]
Subject="CN=Alice ""A"" Example"
Exportable=FALSE
KeyLength=3072
KeyAlgorithm=RSA
HashAlgorithm=sha256
KeySpec=0
ProviderName="Microsoft Software Key Storage Provider"
ProviderType=0
MachineKeySet=FALSE
RequestType=PKCS10
KeyContainer="OpenBao-mtls-7"
KeyUsage=0xc0
Silent=TRUE
"#
    );
    assert!(begun().instructions.contains("\nKeyUsage=0xa0\n"));
    let machine = PendingRequest::begin(&profile(CertificatePurpose::CodeSigning), "a", "7")
        .unwrap_or_else(|error| panic!("{}", error.message()));
    assert!(machine.instructions.contains("\nKeyUsage=0x80\n"));
}

#[test]
fn identities_cannot_add_instructions() {
    assert!(
        PendingRequest::begin(&profile(CertificatePurpose::Mtls), "alice\n[Extensions]", "7")
            .is_err()
    );
    let plain = begun().instructions.lines().count();
    let quoted = PendingRequest::begin(&profile(CertificatePurpose::Mtls), "a\"b\"c", "7")
        .unwrap_or_else(|error| panic!("{}", error.message()));
    assert_eq!(quoted.instructions.lines().count(), plain);
}

#[test]
fn every_request_has_a_container_of_its_own() {
    let generate = || {
        PendingRequest::generate(&profile(CertificatePurpose::Mtls), "alice")
            .unwrap_or_else(|error| panic!("{}", error.message()))
    };
    let first = generate();
    assert!(first.key_container.starts_with("OpenBao-mtls-"));
    assert_eq!(first.key_container.len(), "OpenBao-mtls-".len() + 36);
    assert!(first.instructions.contains(&first.key_container));
    assert_ne!(first.key_container, generate().key_container);
    assert!(PendingRequest::generate(&profile(CertificatePurpose::Mtls), "").is_err());
}

#[test]
fn a_request_is_made_step_by_step() {
    let machine = begun();
    let inf = machine.instructions.clone();
    let (machine, action) = machine.step(Event::Directory(true));
    assert_eq!(write(&action), (WindowsFile::Instructions, inf.as_str()));
    let (machine, action) = machine.step(Event::Written(true));
    assert_eq!(command(&action), WindowsCommand::NewRequest);
    let (machine, action) = machine.step(ended(true, ""));
    assert!(matches!(action, WindowsAction::Read(WindowsFile::Request)));
    let (machine, action) = machine.step(Event::Text(Some(CSR.into())));
    let request = done(action).unwrap_or_else(|error| panic!("{}", error.message()));
    assert_eq!(request.csr_pem, CSR);
    assert_eq!(request.key_container, "OpenBao-mtls-id");
    assert!(request.drop_deletes_container());
    assert_eq!(error(machine.step(Event::Written(true)).1), "Internal error");
}

#[test]
fn each_failure_to_make_a_request_is_named() {
    assert_eq!(
        error(begun().step(Event::Directory(false)).1),
        "could not create a protected temporary directory"
    );
    let machine = begun().step(Event::Directory(true)).0;
    assert_eq!(
        error(machine.step(Event::Written(false)).1),
        "could not write CSR instructions"
    );
    let running = || begun().step(Event::Directory(true)).0.step(Event::Written(true)).0;
    assert_eq!(error(running().step(not_run()).1), "not run");
    let (machine, action) = running().step(ended(false, "provider busy"));
    assert_eq!(command(&action), WindowsCommand::DeleteContainer);
    assert_eq!(
        error(machine.step(not_run()).1),
        "Windows could not generate the certificate request: provider busy"
    );
    let reading = || running().step(ended(true, "")).0;
    assert_eq!(
        error(reading().step(Event::Text(None)).1),
        "Windows did not produce a certificate request"
    );
    let (machine, action) = reading().step(Event::Text(Some("garbage".into())));
    assert_eq!(command(&action), WindowsCommand::DeleteContainer);
    assert_eq!(
        error(machine.step(ended(false, "")).1),
        "Windows produced an unexpected CSR format"
    );
}

#[test]
fn deleting_a_container_can_fail() {
    let output = |success: bool| CommandOutput {
        success,
        code: None,
        stdout: Vec::new(),
        stderr: Vec::new(),
    };
    assert!(key_container_deleted(Ok(output(true))).is_ok());
    assert_eq!(
        key_container_deleted(Ok(output(false))).unwrap_err().message(),
        "Certificate operation failed: could not remove an orphaned key container"
    );
    assert_eq!(
        key_container_deleted(Err(AppError::Internal)).unwrap_err().message(),
        "Internal error"
    );
}

fn pending() -> PendingRequest {
    PendingRequest {
        csr_pem: REQUEST.into(),
        key_container: "OpenBao-mtls-id".into(),
        accepted: false,
    }
}

fn validated() -> (Acceptance, WindowsAction<IssuedCertificate>) {
    let issued = IssuedCertificate {
        thumbprint: "ab".into(),
        subject: "CN=alice".into(),
        not_after: "2120".into(),
        warnings: Vec::new(),
    };
    let intermediates = vec!["first".to_string(), "second".to_string()];
    pending().begin_acceptance(Ok((issued, intermediates)), "leaf")
}

#[test]
fn the_chain_is_stored_before_the_certificate() {
    let (machine, action) = validated();
    assert_eq!(write(&action), (WindowsFile::Intermediate(0), "first"));
    let (machine, action) = machine.step(Event::Written(true));
    assert_eq!(command(&action), WindowsCommand::AddIntermediate(0));
    let (machine, action) = machine.step(ended(true, ""));
    assert_eq!(write(&action), (WindowsFile::Intermediate(1), "second"));
    let (machine, action) = machine.step(Event::Written(true));
    assert_eq!(command(&action), WindowsCommand::AddIntermediate(1));
    let (machine, action) = machine.step(ended(true, ""));
    assert_eq!(write(&action), (WindowsFile::Certificate, "leaf"));
    let (machine, action) = machine.step(Event::Written(true));
    assert_eq!(command(&action), WindowsCommand::AcceptCertificate);
    assert!(machine.request.drop_deletes_container());
    let (machine, action) = machine.step(ended(true, ""));
    assert_eq!(done(action).unwrap_or_else(|e| panic!("{}", e.message())).thumbprint, "ab");
    assert!(!machine.request.drop_deletes_container());
}

#[test]
fn each_failure_to_accept_is_named() {
    assert_eq!(
        error(validated().0.step(Event::Written(false)).1),
        "could not stage the issuing certificate chain"
    );
    let (machine, action) = validated().0.step(Event::Written(true)).0.step(ended(false, "no"));
    assert_eq!(error(action), "Windows rejected an issuing CA certificate: no");
    assert!(machine.request.drop_deletes_container());
    let staged = || {
        let machine = validated().0.step(Event::Written(true)).0.step(ended(true, "")).0;
        machine.step(Event::Written(true)).0.step(ended(true, "")).0
    };
    assert_eq!(
        error(staged().step(Event::Written(false)).1),
        "could not stage the signed certificate"
    );
    let running = || staged().step(Event::Written(true)).0;
    assert_eq!(error(running().step(not_run()).1), "not run");
    let (machine, action) = running().step(ended(false, ""));
    assert_eq!(command(&action), WindowsCommand::DeleteContainer);
    assert!(machine.request.drop_deletes_container());
    assert_eq!(
        error(machine.step(ended(true, "")).1),
        "Windows rejected the signed certificate"
    );
}

fn accept(leaf: &str) -> (Acceptance, WindowsAction<IssuedCertificate>) {
    let fingerprints = vec![ROOT_SHA256.to_string()];
    let ekus = vec!["1.3.6.1.5.5.7.3.2".to_string()];
    let policy = AcceptancePolicy {
        trusted_root_fingerprints: &fingerprints,
        expected_identity: "alice@example.test",
        expected_san: None,
        expected_purpose: &CertificatePurpose::Mtls,
        expected_eku_oids: &ekus,
    };
    let chain = vec![INTERMEDIATE.to_string(), ROOT.to_string()];
    pending().accept(leaf, &chain, &policy)
}

#[test]
fn an_accepted_certificate_has_been_validated() {
    let (machine, action) = accept(LEAF);
    assert_eq!(machine.certificate_pem, LEAF);
    assert_eq!(machine.intermediates.len(), 1);
    let (file, text) = write(&action);
    assert_eq!(file, WindowsFile::Intermediate(0));
    assert_eq!(
        pem::parse(text).unwrap().contents(),
        pem::parse(INTERMEDIATE).unwrap().contents()
    );
    let machine = machine.step(Event::Written(true)).0;
    let (machine, action) = machine.step(ended(true, ""));
    assert_eq!(write(&action), (WindowsFile::Certificate, LEAF));
    let (machine, action) = machine.step(Event::Written(true)).0.step(ended(true, ""));
    assert_eq!(
        done(action).unwrap_or_else(|e| panic!("{}", e.message())).thumbprint,
        LEAF_SHA1
    );
    assert!(!machine.request.drop_deletes_container());
    let (machine, action) = machine.step(ended(false, ""));
    assert!(done(action).is_err());
    assert!(!machine.request.drop_deletes_container());
}

#[test]
fn a_refused_certificate_costs_the_key() {
    let (machine, action) = accept(OTHER_KEY_LEAF);
    assert_eq!(command(&action), WindowsCommand::DeleteContainer);
    assert!(machine.request.drop_deletes_container());
    assert_eq!(
        error(machine.step(ended(true, "")).1),
        "the signed certificate does not match the locally generated key"
    );
}

#[test]
fn commands_have_their_arguments() {
    for (command, program, expected) in [
        (
            WindowsCommand::NewRequest,
            "certreq.exe",
            vec!["-new", "-q", "-user", "<request.inf>", "<request.req>"],
        ),
        (
            WindowsCommand::AcceptCertificate,
            "certreq.exe",
            vec!["-accept", "-q", "-user", "<certificate.cer>"],
        ),
        (
            WindowsCommand::AddIntermediate(12),
            "certutil.exe",
            vec!["-user", "-addstore", "-f", "CA", "<intermediate-12.cer>"],
        ),
        (
            WindowsCommand::AddRoot,
            "certutil.exe",
            vec!["-user", "-addstore", "-f", "Root", "<root.cer>"],
        ),
        (
            WindowsCommand::DeleteContainer,
            "certutil.exe",
            vec!["-user", "-csp", "Microsoft Software Key Storage Provider", "-delkey", "it"],
        ),
        (
            WindowsCommand::FindUserRoot,
            "certutil.exe",
            vec!["-user", "-store", "Root", "it"],
        ),
        (
            WindowsCommand::FindMachineRoot,
            "certutil.exe",
            vec!["-store", "Root", "it"],
        ),
        (
            WindowsCommand::DeleteRoot,
            "certutil.exe",
            vec!["-user", "-delstore", "Root", "it"],
        ),
        (
            WindowsCommand::DeletePersonal,
            "certutil.exe",
            vec!["-user", "-delstore", "My", "it"],
        ),
        (
            WindowsCommand::Script,
            "powershell.exe",
            vec!["-NoLogo", "-NoProfile", "-NonInteractive", "-Command", "it"],
        ),
    ] {
        assert_eq!(windows_program(command), program);
        assert_eq!(written(windows_args(command, "it")), expected);
    }
    assert_eq!(windows_file_name(WindowsFile::Intermediate(0)), "intermediate-0.cer");
}
