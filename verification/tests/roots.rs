use openbao_certificate_client::address::Url;
use openbao_certificate_client::certificates::RootInfo;
use openbao_certificate_client::config::{
    DeploymentConfig, IdentityConfig, OpenBaoConfig, RootConfig,
};
use openbao_certificate_client::error::{AppError, AppResult};
use openbao_certificate_client::process::{CommandOutput, Event};
use openbao_certificate_client::roots::{
    approve_root_update, conflict_script, encoded_script, ensure_ready,
    ensure_roots_installed,
    examine_certificate, examine_root, find_root, hold_root, inspect_root, install_refreshed_root,
    install_root, refresh_path_of, refreshed_root, remove_root, root_is_installed,
    root_sha1_thumbprint, subject_has_other_certificate, RootChange, RootInspection,
};
use openbao_certificate_client::state::RuntimeState;
use openbao_certificate_client::windows::{WindowsAction, WindowsCommand, WindowsFile};
use openbao_certificate_client::x509::read_certificate;

const ROOT: &str = "-----BEGIN CERTIFICATE-----
MIIBTDCB86ADAgECAhR9TmM0k3KW6vLo7glA55tygKgg4DAKBggqhkjOPQQDAjAT
MREwDwYDVQQDDAhMYWIgUm9vdDAgFw0yNDAxMDEwMDAwMDBaGA8yMTIwMDEwMTAw
MDAwMFowEzERMA8GA1UEAwwITGFiIFJvb3QwWTATBgcqhkjOPQIBBggqhkjOPQMB
BwNCAASb2xX3HyarbIj271dSYPHkf83/AxOIEhEVVV+3zkK+jEvTczV5EFSgqf04
U6Br3Dd5lB9ffoHLIk98ulWyj82SoyMwITAPBgNVHRMBAf8EBTADAQH/MA4GA1Ud
DwEB/wQEAwICBDAKBggqhkjOPQQDAgNIADBFAiEAjSvBrNEkWU7/ycQBgvgyMOtf
cOCOiU9AYQNpCwP8DrECICtqCoCfeXgJHY/Zv34nR4djJHydsypOwgNvUJ+CoiXt
-----END CERTIFICATE-----
";
const ROOT_SHA256: &str =
    "108492d6476510fc722965c3c6d39d93fb8dd71e311080e8b1bf69854e0d58c8";
const ROOT_SHA1: &str = "9691f75904a76e32e33653d316850a756264c67b";
const OTHER_ROOT: &str = "-----BEGIN CERTIFICATE-----
MIIBTTCB86ADAgECAhRr2qiQQ6VKx9fMdHDIVC3+ONu4RzAKBggqhkjOPQQDAjAT
MREwDwYDVQQDDAhMYWIgUm9vdDAgFw0yNDAxMDEwMDAwMDBaGA8yMTIwMDEwMTAw
MDAwMFowEzERMA8GA1UEAwwITGFiIFJvb3QwWTATBgcqhkjOPQIBBggqhkjOPQMB
BwNCAATZdxUZsoNjnCCtGDBO7QIqHQoOlgRqvPKjOOy7q9/m9ehrDbBCgFxt3icQ
ovWi9BeeDTU2BmLPDkUeaHE4rrC4oyMwITAPBgNVHRMBAf8EBTADAQH/MA4GA1Ud
DwEB/wQEAwICBDAKBggqhkjOPQQDAgNJADBGAiEAgVbIYgvI/urEgSYoveYfdb15
YdIB8OGf22Nq4OMn4kwCIQCYzdrywO+QE4Zf/x6fY7DqiSrzG+JBvbEKOSJY+XAO
hQ==
-----END CERTIFICATE-----
";
const OTHER_ROOT_SHA256: &str =
    "715589e1e7475943cf53755b915241cdb84c52801173dd44b259276458529e4c";
const INTERMEDIATE: &str = "-----BEGIN CERTIFICATE-----
MIIBUTCB+aADAgECAhR5W6MnfuPWltwsUoMcpTilGAtx3jAKBggqhkjOPQQDAjAT
MREwDwYDVQQDDAhMYWIgUm9vdDAgFw0yNDAxMDEwMDAwMDBaGA8yMTIwMDEwMTAw
MDAwMFowGTEXMBUGA1UEAwwOTGFiIElzc3VpbmcgQ0EwWTATBgcqhkjOPQIBBggq
hkjOPQMBBwNCAARL2zEduIGWBZSNQpJCW1Wgk/jFM21xhrXNAgL8MHRN4r93hEA4
N9uZnpJnIAxHJumXtciOQy9vkh1TZobLw1s4oyMwITAPBgNVHRMBAf8EBTADAQH/
MA4GA1UdDwEB/wQEAwICBDAKBggqhkjOPQQDAgNHADBEAiB91fmLqRBRvnipbKa3
uNnAp00KvjaTYkfFtrbMbBUmTwIgEh/WGNV3/3xg3JwbYuBlVtrq80SVMzt5RWmc
LAlqjKs=
-----END CERTIFICATE-----
";
const NOT_CA: &str = "-----BEGIN CERTIFICATE-----
MIIBOTCB4KADAgECAhR0qU4wce+21AXZquAz0S+pJghdmTAKBggqhkjOPQQDAjAT
MREwDwYDVQQDDAhOb3QgYSBDQTAgFw0yNDAxMDEwMDAwMDBaGA8yMTIwMDEwMTAw
MDAwMFowEzERMA8GA1UEAwwITm90IGEgQ0EwWTATBgcqhkjOPQIBBggqhkjOPQMB
BwNCAATwiUCHPcHl4ftg12PbvZSLWsenyxQWrqNkIxhniENkkwf2UU2ueT9uwg0a
y2UANmhUz1qjmlINpYJKRSCBWFt9oxAwDjAMBgNVHRMBAf8EAjAAMAoGCCqGSM49
BAMCA0gAMEUCIEuIPz8UJWkD9aFfDo/glhwwNpqu1HeltMCj7lpEAMGzAiEAprK8
39AYZrorhK1gGApMrRQTtELv4Z33JchwMdy4y20=
-----END CERTIFICATE-----
";

fn root(pem: &str) -> RootConfig {
    RootConfig {
        id: "home".into(),
        pem: pem.into(),
        sha256: ROOT_SHA256.into(),
        refresh_path: Some("pki/ca/pem".into()),
    }
}

fn output(success: bool, code: i32, stderr: &str) -> CommandOutput {
    CommandOutput {
        success,
        code: Some(code),
        stdout: Vec::new(),
        stderr: stderr.as_bytes().to_vec(),
    }
}

fn ended(success: bool, stderr: &str) -> Event {
    Event::Output(Ok(output(success, if success { 0 } else { 1 }, stderr)))
}

fn not_run() -> Event {
    Event::Output(Err(AppError::Certificate("not run".into())))
}

fn certificate_message(message: String) -> String {
    message
        .strip_prefix("Certificate operation failed: ")
        .unwrap_or(&message)
        .into()
}

fn message<T>(result: AppResult<T>) -> String {
    match result {
        Ok(_) => panic!("an error was expected"),
        Err(error) => certificate_message(error.message()),
    }
}

fn accepted<T>(result: AppResult<T>) -> T {
    result.unwrap_or_else(|error| panic!("{}", error.message()))
}

fn done<T>(action: WindowsAction<T>) -> AppResult<T> {
    match action {
        WindowsAction::Done(result) => result,
        _ => panic!("the procedure goes on"),
    }
}

fn command<T>(action: &WindowsAction<T>) -> WindowsCommand {
    match action {
        WindowsAction::Run(command) => *command,
        _ => panic!("a command was expected"),
    }
}

fn inspected(user: Event, machine: Event, conflict: Event) -> RootInfo {
    let inspection = accepted(inspect_root(&root(ROOT)));
    let (inspection, action) = inspection.step(user);
    assert_eq!(command(&action), WindowsCommand::FindMachineRoot);
    let (inspection, action) = inspection.step(machine);
    assert_eq!(command(&action), WindowsCommand::Script);
    accepted(done(inspection.step(conflict).1))
}

#[test]
fn a_root_is_examined() {
    let found = accepted(examine_root(&root(ROOT)));
    assert_eq!(found.id, "home");
    assert_eq!(found.fingerprint, ROOT_SHA256);
    assert_eq!(found.thumbprint, ROOT_SHA1.to_uppercase());
    assert_eq!(found.subject, found.issuer);
    assert!(found.not_before.contains("2024"));
    assert!(found.not_after.contains("2120"));
    assert!(found.refreshable);
    let mut plain = root(ROOT);
    plain.refresh_path = None;
    assert!(!accepted(examine_root(&plain)).refreshable);
    assert_eq!(accepted(root_sha1_thumbprint(&root(ROOT))), ROOT_SHA1.to_uppercase());
}

#[test]
fn only_self_signed_authorities_are_roots() {
    assert_eq!(
        message(examine_root(&root("junk"))),
        "embedded root is invalid PEM"
    );
    let junk = "-----BEGIN CERTIFICATE-----\nAAAA\n-----END CERTIFICATE-----\n";
    assert_eq!(
        message(examine_root(&root(junk))),
        "embedded root is invalid X.509"
    );
    let refused = "embedded certificate home is not a self-signed CA";
    assert_eq!(message(examine_root(&root(INTERMEDIATE))), refused);
    assert_eq!(message(examine_root(&root(NOT_CA))), refused);
    assert_eq!(
        message(root_sha1_thumbprint(&root("junk"))),
        "embedded root is invalid PEM"
    );
}

#[test]
fn the_conflict_script_carries_subject_and_fingerprint() {
    let script = conflict_script("CN=Lab Root", "ABCDEF");
    assert!(script.starts_with(
        "$s=[Text.Encoding]::UTF8.GetString([Convert]::FromBase64String('Q049TGFiIFJvb3Q=')); $f='abcdef';"
    ));
    assert!(script.ends_with("if($conflict.Count -gt 0){exit 7}else{exit 0}"));
    assert!(script.contains(
        "@(Get-ChildItem Cert:\\CurrentUser\\Root | Where-Object {$_.Subject -eq $s -and (($sha.ComputeHash($_.RawData) | ForEach-Object {$_.ToString('x2')}) -join '') -ne $f});"
    ));
    assert!(!conflict_script("'; exit 0; '", "00").contains("'; exit 0; '"));
}

#[test]
fn stores_answer_by_exit_code() {
    assert!(accepted(root_is_installed(Ok(output(true, 0, "")))));
    assert!(!accepted(root_is_installed(Ok(output(false, 7, "")))));
    assert!(root_is_installed(Err(AppError::Internal)).is_err());
    assert!(accepted(subject_has_other_certificate(Ok(output(false, 7, "")))));
    assert!(!accepted(subject_has_other_certificate(Ok(output(true, 0, "")))));
    assert!(!accepted(subject_has_other_certificate(Ok(output(false, 1, "")))));
    assert!(subject_has_other_certificate(Err(AppError::Internal)).is_err());
}

#[test]
fn an_inspection_asks_three_questions() {
    let inspection: RootInspection = accepted(inspect_root(&root(ROOT)));
    let thumbprint = ROOT_SHA1.to_uppercase();
    assert_eq!(inspection.subject_of(WindowsCommand::FindUserRoot), thumbprint);
    assert_eq!(inspection.subject_of(WindowsCommand::FindMachineRoot), thumbprint);
    let subject = accepted(examine_root(&root(ROOT))).subject;
    assert_eq!(
        inspection.subject_of(WindowsCommand::Script),
        conflict_script(&subject, ROOT_SHA256)
    );
    let info = inspected(ended(true, ""), ended(false, ""), ended(true, ""));
    assert_eq!(info.id, "home");
    assert_eq!(info.fingerprint, ROOT_SHA256);
    assert_eq!(info.subject, subject);
    assert!(info.installed && !info.machine_installed && !info.conflicting_subject);
    let conflict = Event::Output(Ok(output(false, 7, "")));
    let info = inspected(ended(false, ""), ended(true, ""), conflict);
    assert!(!info.installed && info.machine_installed && info.conflicting_subject);
    let info = inspected(not_run(), not_run(), not_run());
    assert!(!info.installed && !info.machine_installed && !info.conflicting_subject);
    assert!(inspect_root(&root(NOT_CA)).is_err());
}

fn info(installed: bool, conflicting_subject: bool) -> RootInfo {
    let mut info = inspected(not_run(), not_run(), not_run());
    info.installed = installed;
    info.conflicting_subject = conflicting_subject;
    info
}

#[test]
fn changes_that_are_made_already_do_nothing() {
    assert!(done(install_root(&root(ROOT), &info(true, true)).1).is_ok());
    assert!(done(install_refreshed_root(&root(ROOT), &info(true, false)).1).is_ok());
    assert!(done(remove_root(&root(ROOT), &info(false, true)).1).is_ok());
}

#[test]
fn a_conflicting_root_is_only_installed_as_a_successor() {
    assert_eq!(
        message(done(install_root(&root(ROOT), &info(false, true)).1)),
        "a different root with the same subject is already installed; resolve the conflict manually"
    );
    let (_, action) = install_refreshed_root(&root(ROOT), &info(false, true));
    assert!(matches!(action, WindowsAction::CreateDirectory));
}

fn installing() -> RootChange {
    let (change, action) = install_root(&root(ROOT), &info(false, false));
    assert!(matches!(action, WindowsAction::CreateDirectory));
    change
}

#[test]
fn an_installation_is_verified() {
    let (change, action) = installing().step(Event::Directory(true));
    assert!(matches!(action, WindowsAction::Write(WindowsFile::Root, text) if text == ROOT));
    let (change, action) = change.step(Event::Written(true));
    assert_eq!(command(&action), WindowsCommand::AddRoot);
    let (change, action) = change.step(ended(true, ""));
    assert_eq!(command(&action), WindowsCommand::FindUserRoot);
    let (change, action) = change.step(ended(true, ""));
    assert!(done(action).is_ok());
    assert_eq!(message(done(change.step(ended(true, "")).1)), "Internal error");
}

#[test]
fn installing_twice_is_installing_once() {
    let mut held = false;
    let mut added = 0;
    for _ in 0..2 {
        let mut inspection: RootInspection = accepted(inspect_root(&root(ROOT)));
        let mut command = WindowsCommand::FindUserRoot;
        let found = loop {
            let success = held && command == WindowsCommand::FindUserRoot;
            let (next, action) = inspection.step(Event::Output(Ok(output(success, 0, ""))));
            inspection = next;
            match action {
                WindowsAction::Run(next) => command = next,
                WindowsAction::Done(result) => break accepted(result),
                _ => panic!("an inspection only asks"),
            }
        };
        assert_eq!(found.installed, held);
        let (mut change, mut action) = install_root(&root(ROOT), &found);
        loop {
            let event = match action {
                WindowsAction::CreateDirectory => Event::Directory(true),
                WindowsAction::Write(..) => Event::Written(true),
                WindowsAction::Run(WindowsCommand::AddRoot) => {
                    held = true;
                    added += 1;
                    Event::Output(Ok(output(true, 0, "")))
                }
                WindowsAction::Run(_) => Event::Output(Ok(output(held, 0, ""))),
                WindowsAction::Done(result) => {
                    assert!(result.is_ok());
                    break;
                }
                _ => panic!("nothing is read"),
            };
            (change, action) = change.step(event);
        }
        assert!(held);
    }
    assert_eq!(added, 1);
}

#[test]
fn each_failed_installation_is_named() {
    assert_eq!(
        message(done(installing().step(Event::Directory(false)).1)),
        "could not create a protected temporary directory"
    );
    let staging = || installing().step(Event::Directory(true)).0;
    assert_eq!(
        message(done(staging().step(Event::Written(false)).1)),
        "could not stage the root certificate"
    );
    let adding = || staging().step(Event::Written(true)).0;
    assert_eq!(message(done(adding().step(not_run()).1)), "not run");
    assert_eq!(
        message(done(adding().step(ended(false, "denied")).1)),
        "Windows did not install the root certificate: denied"
    );
    let verifying = || adding().step(ended(true, "")).0;
    assert_eq!(message(done(verifying().step(not_run()).1)), "not run");
    assert_eq!(
        message(done(verifying().step(ended(false, "")).1)),
        "root installation could not be verified"
    );
}

#[test]
fn a_removal_is_verified() {
    let removing = || {
        let (change, action) = remove_root(&root(ROOT), &info(true, false));
        assert_eq!(command(&action), WindowsCommand::DeleteRoot);
        change
    };
    assert_eq!(
        message(done(removing().step(ended(false, "denied")).1)),
        "Windows did not remove the root certificate: denied"
    );
    let (change, action) = removing().step(ended(true, "kept"));
    assert_eq!(command(&action), WindowsCommand::FindUserRoot);
    assert_eq!(
        message(done(change.step(ended(true, "found")).1)),
        "Windows did not remove the root certificate: kept"
    );
    let change = removing().step(ended(true, "")).0;
    assert!(done(change.step(ended(false, "")).1).is_ok());
    let change = removing().step(ended(true, "")).0;
    assert_eq!(message(done(change.step(not_run()).1)), "not run");
}

fn deployment(roots: Vec<RootConfig>) -> DeploymentConfig {
    DeploymentConfig {
        schema_version: 1,
        configured: true,
        deployment_name: "Lab".into(),
        openbao: OpenBaoConfig {
            address: Url::parse("https://bao.test").unwrap(),
            namespace: None,
            auth_mount: "oidc".into(),
            oidc_role: "desktop".into(),
            minimum_version: "2.5.0".into(),
        },
        identity: IdentityConfig {
            display_claim: "email".into(),
            subject_claim: "sub".into(),
        },
        roots,
        profiles: Vec::new(),
    }
}

#[test]
fn roots_are_found_by_their_identifier() {
    let mut other = root(OTHER_ROOT);
    other.id = "other".into();
    let config = deployment(vec![root(ROOT), other]);
    assert_eq!(accepted(find_root(&config, "other")).pem, OTHER_ROOT);
    assert_eq!(message(find_root(&config, "Home")), "unknown embedded root");
}

#[test]
fn a_successor_carries_its_own_fingerprint() {
    assert_eq!(accepted(refresh_path_of(&root(ROOT))), "pki/ca/pem");
    let mut plain = root(ROOT);
    plain.refresh_path = None;
    assert_eq!(
        message(refresh_path_of(&plain)),
        "this root has no refresh endpoint"
    );
    let next = accepted(refreshed_root(root(ROOT), OTHER_ROOT.into()));
    assert_eq!(next.id, "home");
    assert_eq!(next.pem, OTHER_ROOT);
    assert_eq!(next.sha256, OTHER_ROOT_SHA256);
    assert_eq!(
        message(refreshed_root(root(ROOT), "junk".into())),
        "OpenBao returned invalid root PEM"
    );
}

#[test]
fn a_successor_is_approved_by_its_fingerprint() {
    let changed = "the pending root update changed; check it again";
    let held = || {
        let mut runtime = RuntimeState::new();
        let inspection = hold_root(&mut runtime, root(ROOT), Ok(info(false, true)));
        assert!(accepted(inspection).conflicting_subject);
        runtime
    };
    let mut runtime = held();
    let approved = accepted(approve_root_update(
        &mut runtime,
        "home",
        &ROOT_SHA256.to_uppercase(),
    ));
    assert_eq!(approved.pem, ROOT);
    assert!(runtime.pending_root.is_none());
    let mut runtime = held();
    assert_eq!(
        message(approve_root_update(&mut runtime, "home", OTHER_ROOT_SHA256)),
        changed
    );
    assert!(runtime.pending_root.is_none());
    let mut runtime = held();
    assert_eq!(
        message(approve_root_update(&mut runtime, "other", ROOT_SHA256)),
        changed
    );
    assert_eq!(
        message(approve_root_update(&mut RuntimeState::new(), "home", ROOT_SHA256)),
        changed
    );
}

#[test]
fn a_successor_that_cannot_be_inspected_is_not_held() {
    let broken = || Err(AppError::Certificate("broken".into()));
    let mut runtime = RuntimeState::new();
    assert_eq!(message(hold_root(&mut runtime, root(ROOT), broken())), "broken");
    assert!(runtime.pending_root.is_none());
    accepted(hold_root(&mut runtime, root(ROOT), Ok(info(false, false))));
    assert_eq!(message(hold_root(&mut runtime, root(OTHER_ROOT), broken())), "broken");
    assert_eq!(runtime.pending_root.unwrap().pem, ROOT);
}

#[test]
fn the_client_is_ready_once_every_root_is_installed() {
    let missing = "install the embedded root certificate before signing in";
    let mut config = deployment(vec![root(ROOT), root(OTHER_ROOT)]);
    let found = |installed: bool| Ok(info(installed, false));
    assert!(ensure_ready(&config, vec![found(true), found(true)]).is_ok());
    assert_eq!(message(ensure_ready(&config, vec![found(true), found(false)])), missing);
    assert_eq!(message(ensure_ready(&config, vec![found(false)])), missing);
    config.configured = false;
    match ensure_ready(&config, Vec::new()) {
        Err(error) => assert_eq!(
            error.message(),
            "Configuration error: this build has not been configured for a homelab"
        ),
        Ok(()) => panic!("an error was expected"),
    }
}

#[test]
fn a_read_root_is_examined() {
    let read = |text: &str| read_certificate(pem::parse(text).unwrap().contents()).unwrap();
    let found = accepted(examine_certificate(&root(ROOT), read(ROOT), "f".into(), "t".into()));
    assert_eq!((found.fingerprint.as_str(), found.thumbprint.as_str()), ("f", "t"));
    assert_eq!(
        message(examine_certificate(&root(ROOT), read(NOT_CA), "f".into(), "t".into())),
        "embedded certificate home is not a self-signed CA"
    );
    assert_eq!(
        encoded_script("Q049TGFiIFJvb3Q=", "AB"),
        conflict_script("CN=Lab Root", "ab")
    );
}

#[test]
fn every_root_must_be_installed() {
    let broken = || Err(AppError::Certificate("broken".into()));
    let missing = "install the embedded root certificate before signing in";
    let ensure = |inspected: Vec<AppResult<RootInfo>>| ensure_roots_installed(inspected);
    assert!(ensure(Vec::new()).is_ok());
    assert!(ensure(vec![Ok(info(true, false)), Ok(info(true, true))]).is_ok());
    assert_eq!(
        message(ensure(vec![Ok(info(true, false)), Ok(info(false, false)), broken()])),
        missing
    );
    assert_eq!(message(ensure(vec![broken(), Ok(info(false, false))])), "broken");
}
