use openbao_certificate_client::process::{
    command_error, component_start_error, failure_message, redact_ykman_args, windows_component,
    windows_only_error, ykman_timeout_error, ykman_wait, CommandOutput, WaitStep,
    YKMAN_LIMIT_NANOSECONDS, YkmanFault,
};
use openbao_certificate_client::windows::{windows_program, WindowsCommand};

fn output(stdout: &[u8], stderr: &[u8]) -> CommandOutput {
    CommandOutput {
        success: false,
        code: Some(1),
        stdout: stdout.to_vec(),
        stderr: stderr.to_vec(),
    }
}

fn texts(list: &[&str]) -> Vec<String> {
    list.iter().map(|text| text.to_string()).collect()
}

#[test]
fn failures_show_errors_before_output() {
    assert_eq!(command_error("It failed", &output(b"", b"")), "It failed");
    assert_eq!(command_error("It failed", &output(b" \r\n", b"\t")), "It failed");
    assert_eq!(
        command_error("It failed", &output(b"out\n", b" err ")),
        "It failed: err \nout"
    );
    assert_eq!(
        command_error("It failed", &output(b"\xff!", b"")),
        "It failed: \u{fffd}!"
    );
}

#[test]
fn shown_output_hides_secrets_and_is_short() {
    assert_eq!(
        command_error("It failed", &output(b"", b"bad pin=123456 given")),
        "It failed: bad pin=[REDACTED] given"
    );
    let long = "é".repeat(300);
    assert_eq!(
        command_error("x", &output(long.as_bytes(), b"")),
        format!("x: {}", "é".repeat(240))
    );
}

#[test]
fn values_of_secret_options_are_not_shown() {
    assert_eq!(
        redact_ykman_args(&texts(&[
            "piv", "keys", "generate", "--pin", "123456", "-m", "0102", "-P", "--pin", "9a"
        ])),
        "piv keys generate --pin <redacted> -m <redacted> -P <redacted> 9a"
    );
    for option in ["--pin", "-P", "--management-key", "-m", "--password", "-p"] {
        assert_eq!(
            redact_ykman_args(&texts(&[option, "secret", "9a"])),
            format!("{option} <redacted> 9a")
        );
    }
    assert_eq!(redact_ykman_args(&texts(&["--pin"])), "--pin");
    assert_eq!(redact_ykman_args(&[]), "");
}

#[test]
fn only_known_components_are_started() {
    assert_eq!(
        windows_component(true, "PowerShell.exe").unwrap(),
        vec!["System32", "WindowsPowerShell", "v1.0", "powershell.exe"]
    );
    assert_eq!(
        windows_component(true, "CertUtil.exe").unwrap(),
        vec!["System32", "CertUtil.exe"]
    );
    assert_eq!(
        windows_component(true, "certreq.exe").unwrap(),
        vec!["System32", "certreq.exe"]
    );
    assert_eq!(
        windows_component(true, "cmd.exe").unwrap_err().message(),
        "Certificate operation failed: refusing to start an unapproved Windows component"
    );
    assert_eq!(
        windows_component(false, "certreq.exe").unwrap_err().message(),
        "Certificate operation failed: Windows SystemRoot is unavailable"
    );
    assert_eq!(
        component_start_error("certreq.exe").message(),
        "Certificate operation failed: required Windows component certreq.exe could not be started"
    );
    assert_eq!(
        windows_only_error().message(),
        "Certificate operation failed: this operation is only supported on Windows"
    );
}

#[test]
fn every_command_is_for_a_known_component() {
    for command in [
        WindowsCommand::NewRequest,
        WindowsCommand::AcceptCertificate,
        WindowsCommand::AddIntermediate(0),
        WindowsCommand::AddRoot,
        WindowsCommand::DeleteContainer,
        WindowsCommand::FindUserRoot,
        WindowsCommand::FindMachineRoot,
        WindowsCommand::DeleteRoot,
        WindowsCommand::DeletePersonal,
        WindowsCommand::Script,
    ] {
        assert!(windows_component(true, windows_program(command)).is_ok());
    }
}

#[test]
fn faults_of_the_manager_are_told_apart() {
    for (fault, expected) in [
        (
            YkmanFault::NotWindows,
            "YubiKey issuance is only supported on Windows in this build",
        ),
        (
            YkmanFault::NoWorkDirectory,
            "could not create a private YubiKey Manager work directory",
        ),
        (
            YkmanFault::NotStarted,
            "YubiKey Manager CLI (ykman) could not be started; install ykman and try again",
        ),
        (YkmanFault::Failed, "YubiKey Manager failed unexpectedly"),
        (
            YkmanFault::OutputUnreadable,
            "YubiKey Manager output could not be read",
        ),
    ] {
        assert_eq!(
            fault.error().message(),
            format!("Certificate operation failed: {expected}")
        );
    }
}

#[test]
fn the_manager_has_forty_five_seconds() {
    assert_eq!(YKMAN_LIMIT_NANOSECONDS, 45 * 1_000_000_000);
    assert_eq!(ykman_wait(true, u64::MAX), WaitStep::Collect);
    assert_eq!(ykman_wait(false, 0), WaitStep::Sleep(100));
    assert_eq!(ykman_wait(false, YKMAN_LIMIT_NANOSECONDS), WaitStep::Sleep(100));
    assert_eq!(ykman_wait(false, YKMAN_LIMIT_NANOSECONDS + 1), WaitStep::GiveUp);
    assert_eq!(
        ykman_timeout_error(&texts(&["piv", "--pin", "123456", "9a"])).message(),
        "Certificate operation failed: YubiKey Manager timed out while running 'ykman piv --pin <redacted> 9a'; if the YubiKey was waiting for touch, PIN, or overwrite confirmation, try again after clearing the target slot or choosing another slot"
    );
}

#[test]
fn messages_are_made_of_texts() {
    assert_eq!(failure_message("x", "", " "), "x");
    assert_eq!(failure_message("x", "token=1", "out"), "x: token=[REDACTED]\nout");
}
