use openbao_certificate_client::certificates::PersonalCertificate;
use openbao_certificate_client::error::{AppError, AppResult};
use openbao_certificate_client::process::CommandOutput;
use openbao_certificate_client::store::{
    inventory_script, list_personal_certificates, personal_certificate_removed, read_inventory,
    remove_personal_certificate,
};

fn output(success: bool, stdout: &[u8], stderr: &[u8]) -> AppResult<CommandOutput> {
    Ok(CommandOutput {
        success,
        code: None,
        stdout: stdout.to_vec(),
        stderr: stderr.to_vec(),
    })
}

fn message<T>(result: AppResult<T>) -> String {
    let message = match result {
        Ok(_) => panic!("an error was expected"),
        Err(error) => error.message(),
    };
    message
        .strip_prefix("Certificate operation failed: ")
        .unwrap_or(&message)
        .into()
}

#[test]
fn the_inventory_is_read_as_json_text() {
    assert_eq!(read_inventory(output(true, b"[]", b"")).unwrap().as_deref(), Some("[]"));
    assert_eq!(read_inventory(output(true, b" \r\n", b"")).unwrap(), None);
    assert_eq!(
        message(read_inventory(output(false, b"", b"denied"))),
        "Windows could not inspect the Personal certificate store: denied"
    );
    assert_eq!(
        message(read_inventory(output(true, b"\xff", b""))),
        "Windows returned invalid certificate-store data"
    );
    assert_eq!(message(read_inventory(Err(AppError::Internal))), "Internal error");
}

#[test]
fn a_malformed_inventory_is_refused() {
    assert_eq!(
        message(list_personal_certificates(None)),
        "Windows returned malformed certificate-store data"
    );
    let none: Vec<PersonalCertificate> = Vec::new();
    assert!(list_personal_certificates(Some(none)).unwrap_or_else(|e| panic!("{}", e.message())).is_empty());
}

#[test]
fn the_script_lists_the_personal_store() {
    let script = inventory_script();
    assert!(script.starts_with("[Console]::OutputEncoding = [Text.UTF8Encoding]::new($false);"));
    assert!(script.contains("Get-ChildItem Cert:\\CurrentUser\\My"));
    assert!(script.ends_with("ConvertTo-Json -Compress -Depth 4 -InputObject $items"));
}

#[test]
fn certificates_are_removed_by_thumbprint() {
    let thumbprint = "aB".repeat(20);
    assert_eq!(
        remove_personal_certificate(&thumbprint).unwrap(),
        "AB".repeat(20)
    );
    for text in ["", &"a".repeat(39), &"a".repeat(41), &"g".repeat(40), &"é".repeat(20)] {
        assert_eq!(
            message(remove_personal_certificate(text)),
            "certificate thumbprint is invalid"
        );
    }
    assert!(personal_certificate_removed(output(true, b"", b"")).is_ok());
    assert_eq!(
        message(personal_certificate_removed(output(false, b"out", b"err"))),
        "Windows could not remove the certificate from CurrentUser\\My: err\nout"
    );
    assert!(personal_certificate_removed(Err(AppError::Internal)).is_err());
}
