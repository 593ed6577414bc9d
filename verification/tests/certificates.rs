use openbao_certificate_client::certificates::{
    accept_leaf, certificate_eku_oids, certificate_matches_identity, certificates_for_profile,
    check_issued_certificate, check_key, check_leaf, decode_csr_pem, normalize_certificate_serial,
    personal_certificate, personal_certificate_from_pem, validate_identity,
    validate_issued_certificate, validate_key_usage_for_purpose, AcceptancePolicy,
    IssuedCertificate, PersonalCertificate,
};
use openbao_certificate_client::chain::{
    choose_signer, entry_from, judge_signer, listed, validate_chain,
};
use openbao_certificate_client::config::{CertificateProfile, CertificatePurpose};
use openbao_certificate_client::encoding::{fingerprint_of, thumbprint_of, PemBlock};
use openbao_certificate_client::error::AppError;
use openbao_certificate_client::x509::{read_certificate, same_bytes, AlternativeName, Certificate};

const ROOT: &str = "-----BEGIN CERTIFICATE-----
MIIBTDCB86ADAgECAhR9TmM0k3KW6vLo7glA55tygKgg4DAKBggqhkjOPQQDAjAT
MREwDwYDVQQDDAhMYWIgUm9vdDAgFw0yNDAxMDEwMDAwMDBaGA8yMTIwMDEwMTAw
MDAwMFowEzERMA8GA1UEAwwITGFiIFJvb3QwWTATBgcqhkjOPQIBBggqhkjOPQMB
BwNCAASb2xX3HyarbIj271dSYPHkf83/AxOIEhEVVV+3zkK+jEvTczV5EFSgqf04
U6Br3Dd5lB9ffoHLIk98ulWyj82SoyMwITAPBgNVHRMBAf8EBTADAQH/MA4GA1Ud
DwEB/wQEAwICBDAKBggqhkjOPQQDAgNIADBFAiEAjSvBrNEkWU7/ycQBgvgyMOtf
cOCOiU9AYQNpCwP8DrECICtqCoCfeXgJHY/Zv34nR4djJHydsypOwgNvUJ+CoiXt
-----END CERTIFICATE-----
";
const ROOT_SHA256: &str =
    "108492d6476510fc722965c3c6d39d93fb8dd71e311080e8b1bf69854e0d58c8";
const OTHER_ROOT: &str = "-----BEGIN CERTIFICATE-----
MIIBTTCB86ADAgECAhRr2qiQQ6VKx9fMdHDIVC3+ONu4RzAKBggqhkjOPQQDAjAT
MREwDwYDVQQDDAhMYWIgUm9vdDAgFw0yNDAxMDEwMDAwMDBaGA8yMTIwMDEwMTAw
MDAwMFowEzERMA8GA1UEAwwITGFiIFJvb3QwWTATBgcqhkjOPQIBBggqhkjOPQMB
BwNCAATZdxUZsoNjnCCtGDBO7QIqHQoOlgRqvPKjOOy7q9/m9ehrDbBCgFxt3icQ
ovWi9BeeDTU2BmLPDkUeaHE4rrC4oyMwITAPBgNVHRMBAf8EBTADAQH/MA4GA1Ud
DwEB/wQEAwICBDAKBggqhkjOPQQDAgNJADBGAiEAgVbIYgvI/urEgSYoveYfdb15
YdIB8OGf22Nq4OMn4kwCIQCYzdrywO+QE4Zf/x6fY7DqiSrzG+JBvbEKOSJY+XAO
hQ==
-----END CERTIFICATE-----
";
const OTHER_ROOT_SHA256: &str =
    "715589e1e7475943cf53755b915241cdb84c52801173dd44b259276458529e4c";
const INTERMEDIATE: &str = "-----BEGIN CERTIFICATE-----
MIIBUTCB+aADAgECAhR5W6MnfuPWltwsUoMcpTilGAtx3jAKBggqhkjOPQQDAjAT
MREwDwYDVQQDDAhMYWIgUm9vdDAgFw0yNDAxMDEwMDAwMDBaGA8yMTIwMDEwMTAw
MDAwMFowGTEXMBUGA1UEAwwOTGFiIElzc3VpbmcgQ0EwWTATBgcqhkjOPQIBBggq
hkjOPQMBBwNCAARL2zEduIGWBZSNQpJCW1Wgk/jFM21xhrXNAgL8MHRN4r93hEA4
N9uZnpJnIAxHJumXtciOQy9vkh1TZobLw1s4oyMwITAPBgNVHRMBAf8EBTADAQH/
MA4GA1UdDwEB/wQEAwICBDAKBggqhkjOPQQDAgNHADBEAiB91fmLqRBRvnipbKa3
uNnAp00KvjaTYkfFtrbMbBUmTwIgEh/WGNV3/3xg3JwbYuBlVtrq80SVMzt5RWmc
LAlqjKs=
-----END CERTIFICATE-----
";
const REQUEST: &str = "-----BEGIN CERTIFICATE REQUEST-----
MIHXMH8CAQAwHTEbMBkGA1UEAwwSYWxpY2VAZXhhbXBsZS50ZXN0MFkwEwYHKoZI
zj0CAQYIKoZIzj0DAQcDQgAE5BG4bxmhNf6YIlBiQ+dmb5ibhXsZImGNUNMuy25p
v3swqsqB/Xtj76FgmOu1U4rJ5TNIdnS+26/acjtdQYNFpKAAMAoGCCqGSM49BAMC
A0gAMEUCIEW9C8WHB+/bkbCssuVmi3TntSwtrqInUn432NNGl//xAiEAyBJkQbTZ
pV7j4V3JY71vCTsI2FtOZgIPN66+aPpLDWk=
-----END CERTIFICATE REQUEST-----
";
const LEAF: &str = "-----BEGIN CERTIFICATE-----
MIIBxTCCAWqgAwIBAgIDChssMAoGCCqGSM49BAMCMBkxFzAVBgNVBAMMDkxhYiBJ
c3N1aW5nIENBMCAXDTI0MDEwMTAwMDAwMFoYDzIxMjAwMTAxMDAwMDAwWjAdMRsw
GQYDVQQDDBJhbGljZUBleGFtcGxlLnRlc3QwWTATBgcqhkjOPQIBBggqhkjOPQMB
BwNCAATkEbhvGaE1/pgiUGJD52ZvmJuFexkiYY1Q0y7Lbmm/ezCqyoH9e2PvoWCY
67VTisnlM0h2dL7br9pyO11Bg0Wko4GaMIGXMAwGA1UdEwEB/wQCMAAwDgYDVR0P
AQH/BAQDAgeAMDMGA1UdJQQsMCoGCCsGAQUFBwMCBggrBgEFBQcDAwYIKwYBBQUH
AwQGCisGAQQBgjcKAwwwQgYDVR0RBDswOYESQWxpY2VAZXhhbXBsZS50ZXN0ghJh
bGljZS5leGFtcGxlLnRlc3SGD2h0dHBzOi8veC50ZXN0LzAKBggqhkjOPQQDAgNJ
ADBGAiEAp+QEK806LMPCDsePkVU82lQcaiJi3gQv0E7LpWg9cHUCIQCY0pGk7DnX
zJU12j1pGxRIdKpGxKyjzWWFcF1iMfJOqw==
-----END CERTIFICATE-----
";
const LEAF_SHA256: &str =
    "5ee1b07a82e8b9cd7da04b402ccbff01867f77012d409802f02a82152853337e";
const LEAF_SHA1: &str = "51e42797a290e7b2b9af77edb52b00afdc7e0149";
const LEAF_FROM_ROOT: &str = "-----BEGIN CERTIFICATE-----
MIIBajCCAQ+gAwIBAgIUYxJSRExS1Nn/F4ZaNKZ8/fCTKDAwCgYIKoZIzj0EAwIw
EzERMA8GA1UEAwwITGFiIFJvb3QwIBcNMjQwMTAxMDAwMDAwWhgPMjEyMDAxMDEw
MDAwMDBaMB0xGzAZBgNVBAMMEmFsaWNlQGV4YW1wbGUudGVzdDBZMBMGByqGSM49
AgEGCCqGSM49AwEHA0IABOQRuG8ZoTX+mCJQYkPnZm+Ym4V7GSJhjVDTLstuab97
MKrKgf17Y++hYJjrtVOKyeUzSHZ0vtuv2nI7XUGDRaSjNTAzMAwGA1UdEwEB/wQC
MAAwDgYDVR0PAQH/BAQDAgeAMBMGA1UdJQQMMAoGCCsGAQUFBwMCMAoGCCqGSM49
BAMCA0kAMEYCIQDvy7iJ5RnuFsNAXvO7rhQkT4IR1bV4UrASMz+Ob+cekwIhAMcJ
eFoclPYlo92lMqTZh1cHblkj2QSz6T/Je0QaU0LY
-----END CERTIFICATE-----
";
const DOCUMENT_LEAF: &str = "-----BEGIN CERTIFICATE-----
MIIBcTCCARegAwIBAgIUDwILPm8ylA4jxoLVBEOWYDZZktEwCgYIKoZIzj0EAwIw
GTEXMBUGA1UEAwwOTGFiIElzc3VpbmcgQ0EwIBcNMjQwMTAxMDAwMDAwWhgPMjEy
MDAxMDEwMDAwMDBaMB0xGzAZBgNVBAMMEmFsaWNlQGV4YW1wbGUudGVzdDBZMBMG
ByqGSM49AgEGCCqGSM49AwEHA0IABOQRuG8ZoTX+mCJQYkPnZm+Ym4V7GSJhjVDT
Lstuab97MKrKgf17Y++hYJjrtVOKyeUzSHZ0vtuv2nI7XUGDRaSjNzA1MAwGA1Ud
EwEB/wQCMAAwDgYDVR0PAQH/BAQDAgbAMBUGA1UdJQQOMAwGCisGAQQBgjcKAwww
CgYIKoZIzj0EAwIDSAAwRQIgeMnGO/730AJ52TornRnmxWXHFtXGA1BMpSk3D9jI
LZECIQCF5tyCZNpoQIm/tbAmEvuNlCx+Ksmu9F/MzL7vi9e7MA==
-----END CERTIFICATE-----
";
const EXPIRED_LEAF: &str = "-----BEGIN CERTIFICATE-----
MIIBbDCCAROgAwIBAgIUD0ZhbBbgca/VMPCu2BKtlArAohQwCgYIKoZIzj0EAwIw
GTEXMBUGA1UEAwwOTGFiIElzc3VpbmcgQ0EwHhcNMjAwMTAxMDAwMDAwWhcNMjEw
MTAxMDAwMDAwWjAdMRswGQYDVQQDDBJhbGljZUBleGFtcGxlLnRlc3QwWTATBgcq
hkjOPQIBBggqhkjOPQMBBwNCAATkEbhvGaE1/pgiUGJD52ZvmJuFexkiYY1Q0y7L
bmm/ezCqyoH9e2PvoWCY67VTisnlM0h2dL7br9pyO11Bg0WkozUwMzAMBgNVHRMB
Af8EAjAAMA4GA1UdDwEB/wQEAwIHgDATBgNVHSUEDDAKBggrBgEFBQcDAjAKBggq
hkjOPQQDAgNHADBEAiBg1CeUF1emKoZ5gMdvWJVVlJrKVEkSWKebH7V7kFplmgIg
RR0aldTZe8PurqthH4qoybLL0fcBzQsPMK3kqUx9wrg=
-----END CERTIFICATE-----
";
const NO_USAGE_LEAF: &str = "-----BEGIN CERTIFICATE-----
MIIBXzCCAQWgAwIBAgIUGy22hPEN50GWwpLSyLvM2JAvIzUwCgYIKoZIzj0EAwIw
GTEXMBUGA1UEAwwOTGFiIElzc3VpbmcgQ0EwIBcNMjQwMTAxMDAwMDAwWhgPMjEy
MDAxMDEwMDAwMDBaMB0xGzAZBgNVBAMMEmFsaWNlQGV4YW1wbGUudGVzdDBZMBMG
ByqGSM49AgEGCCqGSM49AwEHA0IABOQRuG8ZoTX+mCJQYkPnZm+Ym4V7GSJhjVDT
Lstuab97MKrKgf17Y++hYJjrtVOKyeUzSHZ0vtuv2nI7XUGDRaSjJTAjMAwGA1Ud
EwEB/wQCMAAwEwYDVR0lBAwwCgYIKwYBBQUHAwIwCgYIKoZIzj0EAwIDSAAwRQIh
AJ79bqbOOAYrAHvcpuGxh5d3PWhA5ey45YnjlCjYmEh1AiBTFuDIdcSpApMo+c48
vkpOdjXlAomXFWD4ZED4QCgjNQ==
-----END CERTIFICATE-----
";
const OTHER_KEY_LEAF: &str = "-----BEGIN CERTIFICATE-----
MIIBcDCCARWgAwIBAgIUUMd6vq3fXJ14quLdD/Pm7WC5o60wCgYIKoZIzj0EAwIw
GTEXMBUGA1UEAwwOTGFiIElzc3VpbmcgQ0EwIBcNMjQwMTAxMDAwMDAwWhgPMjEy
MDAxMDEwMDAwMDBaMB0xGzAZBgNVBAMMEmFsaWNlQGV4YW1wbGUudGVzdDBZMBMG
ByqGSM49AgEGCCqGSM49AwEHA0IABGWSiqeAYrXkbEqnAU8Y7h9clDHWYgEAxJ28
pR67WMVaG+WlNoymJDs6j4HhAnbirczMyQNGeVHf+AU96Izjw/mjNTAzMAwGA1Ud
EwEB/wQCMAAwDgYDVR0PAQH/BAQDAgeAMBMGA1UdJQQMMAoGCCsGAQUFBwMCMAoG
CCqGSM49BAMCA0kAMEYCIQCJwNoAjGPSGhVgkW5A1VbbUaIs85W74MezSLEua0Pr
XAIhAKs61R27ArH4t8kZnjn7qSsknVQozvOdlObJ3MxcosUg
-----END CERTIFICATE-----
";
const FORGED_LEAF: &str = "-----BEGIN CERTIFICATE-----
MIIBbzCCARWgAwIBAgIUflmhF5AT3rqjQL0D1w2WlPXcc1QwCgYIKoZIzj0EAwIw
GTEXMBUGA1UEAwwOTGFiIElzc3VpbmcgQ0EwIBcNMjQwMTAxMDAwMDAwWhgPMjEy
MDAxMDEwMDAwMDBaMB0xGzAZBgNVBAMMEmFsaWNlQGV4YW1wbGUudGVzdDBZMBMG
ByqGSM49AgEGCCqGSM49AwEHA0IABOQRuG8ZoTX+mCJQYkPnZm+Ym4V7GSJhjVDT
Lstuab97MKrKgf17Y++hYJjrtVOKyeUzSHZ0vtuv2nI7XUGDRaSjNTAzMAwGA1Ud
EwEB/wQCMAAwDgYDVR0PAQH/BAQDAgeAMBMGA1UdJQQMMAoGCCsGAQUFBwMCMAoG
CCqGSM49BAMCA0gAMEUCIFNeKFYSlNmHJRUzU6mejKufXCwnzCp0+ClABPovzyDP
AiEA41UUYgx8YcjlygCf1+dyD2wsjXyL3u7vBWr/O6fGdtE=
-----END CERTIFICATE-----
";
const LOOP_A: &str = "-----BEGIN CERTIFICATE-----
MIIBSTCB76ADAgECAhQIt/zIkY/ghs/SjodL7wxhoV+EqjAKBggqhkjOPQQDAjAR
MQ8wDQYDVQQDDAZMb29wIEIwIBcNMjQwMTAxMDAwMDAwWhgPMjEyMDAxMDEwMDAw
MDBaMBExDzANBgNVBAMMBkxvb3AgQTBZMBMGByqGSM49AgEGCCqGSM49AwEHA0IA
BMgYDS+Vch8Og8NbltEoT6nv7azCWggmzr7bpEmQfaJ73Bh9N93M0zuZOr/PYOVn
WLgLV6hIdHJHSXoY3iJWvbmjIzAhMA8GA1UdEwEB/wQFMAMBAf8wDgYDVR0PAQH/
BAQDAgIEMAoGCCqGSM49BAMCA0kAMEYCIQCjJTggU2SqqL1eKwAXdcaYwhfSU74B
c/Cz4PsbwhioTAIhAPFUQ6Psos69WUpL8+kQ0GHVjBGqF3pi3ZF7rp07AWGh
-----END CERTIFICATE-----
";
const LOOP_B: &str = "-----BEGIN CERTIFICATE-----
MIIBSDCB76ADAgECAhRl/k4Ke4ga8YpmMTPP1E4m0EHyeDAKBggqhkjOPQQDAjAR
MQ8wDQYDVQQDDAZMb29wIEEwIBcNMjQwMTAxMDAwMDAwWhgPMjEyMDAxMDEwMDAw
MDBaMBExDzANBgNVBAMMBkxvb3AgQjBZMBMGByqGSM49AgEGCCqGSM49AwEHA0IA
BM7Qn3m05pHIpkRHARk6aUYrtRtSxWRH307uZDpbzf7fM5NWC159mfvbF+2FksqE
N/Rjn5UdJLlmIdzf0qhNzfajIzAhMA8GA1UdEwEB/wQFMAMBAf8wDgYDVR0PAQH/
BAQDAgIEMAoGCCqGSM49BAMCA0gAMEUCIQDA4Porpca9FBTYKEwnunHPaAl6eEq1
brZBCd85lRDuCAIgcsYgDqRVjPPMa0hD748IsOCCHKRXA1VZdBKLG+wXHRE=
-----END CERTIFICATE-----
";
const LOOP_LEAF: &str = "-----BEGIN CERTIFICATE-----
MIIBZzCCAQ2gAwIBAgIUetCQz2Gaz3KbV1IXsIWpHh9X+mIwCgYIKoZIzj0EAwIw
ETEPMA0GA1UEAwwGTG9vcCBBMCAXDTI0MDEwMTAwMDAwMFoYDzIxMjAwMTAxMDAw
MDAwWjAdMRswGQYDVQQDDBJhbGljZUBleGFtcGxlLnRlc3QwWTATBgcqhkjOPQIB
BggqhkjOPQMBBwNCAATkEbhvGaE1/pgiUGJD52ZvmJuFexkiYY1Q0y7Lbmm/ezCq
yoH9e2PvoWCY67VTisnlM0h2dL7br9pyO11Bg0WkozUwMzAMBgNVHRMBAf8EAjAA
MA4GA1UdDwEB/wQEAwIHgDATBgNVHSUEDDAKBggrBgEFBQcDAjAKBggqhkjOPQQD
AgNIADBFAiAKYJFDuaGBg2XZBujdMLm12T0UJEMldAgT3/e06ljS5wIhANSXmRin
SgOVTG1VONj3EgPTpR4ek642EyKFzZplmZXl
-----END CERTIFICATE-----
";

const CLIENT_AUTH: &str = "1.3.6.1.5.5.7.3.2";
const CODE_SIGNING: &str = "1.3.6.1.5.5.7.3.3";
const EMAIL: &str = "1.3.6.1.5.5.7.3.4";
const DOCUMENT: &str = "1.3.6.1.4.1.311.10.3.12";

fn der(text: &str) -> Vec<u8> {
    pem::parse(text).unwrap().into_contents()
}

fn certificate(text: &str) -> Certificate {
    read_certificate(&der(text)).unwrap()
}

fn texts(list: &[&str]) -> Vec<String> {
    list.iter().map(|text| text.to_string()).collect()
}

fn message<T>(result: Result<T, AppError>) -> String {
    let message = match result {
        Ok(_) => panic!("an error was expected"),
        Err(error) => error.message(),
    };
    message
        .strip_prefix("Certificate operation failed: ")
        .unwrap()
        .into()
}

fn accepted<T>(result: Result<T, AppError>) -> T {
    result.unwrap_or_else(|error| panic!("{}", error.message()))
}

fn mtls_profile() -> CertificateProfile {
    CertificateProfile {
        id: "mtls".into(),
        label: "mTLS".into(),
        description: String::new(),
        purpose: CertificatePurpose::Mtls,
        pki_mount: "pki".into(),
        pki_role: "mtls".into(),
        subject_claim: "email".into(),
        san_claim: Some("email".into()),
        destination_store: "My".into(),
        key_algorithm: "rsa-3072".into(),
        expected_eku_oids: vec!["1.3.6.1.5.5.7.3.2".into()],
    }
}

fn personal(subject: &str, simple_name: &str) -> PersonalCertificate {
    PersonalCertificate {
        thumbprint: "a".repeat(40),
        serial_number: "01".into(),
        subject: subject.into(),
        issuer: "CN=test issuer".into(),
        simple_name: simple_name.into(),
        dns_names: Vec::new(),
        email_names: Vec::new(),
        not_before: "2026-01-01T00:00:00Z".into(),
        not_after: "2027-01-01T00:00:00Z".into(),
        has_private_key: true,
        eku_oids: Vec::new(),
    }
}

#[test]
fn rejects_control_characters_in_identity() {
    assert!(validate_identity("alice@example.test").is_ok());
    assert!(validate_identity("alice\n[Extensions]").is_err());
}

#[test]
fn profile_inventory_requires_identity_key_and_all_ekus() {
    let profile = mtls_profile();
    let matching = PersonalCertificate {
        thumbprint: "a".repeat(40),
        serial_number: "01".into(),
        subject: "CN=alice@example.test".into(),
        issuer: "CN=test issuer".into(),
        simple_name: "alice@example.test".into(),
        dns_names: Vec::new(),
        email_names: vec!["alice@example.test".into()],
        not_before: "2026-01-01T00:00:00Z".into(),
        not_after: "2027-01-01T00:00:00Z".into(),
        has_private_key: true,
        eku_oids: vec!["1.3.6.1.5.5.7.3.2".into()],
    };
    let mut wrong_identity = matching.clone();
    wrong_identity.subject = "CN=bob@example.test".into();
    wrong_identity.simple_name = "bob@example.test".into();
    wrong_identity.email_names = vec!["bob@example.test".into()];
    let mut no_key = matching.clone();
    no_key.has_private_key = false;
    assert_eq!(
        certificates_for_profile(
            &[matching, wrong_identity, no_key],
            &profile,
            "alice@example.test"
        )
        .len(),
        1
    );
}

#[test]
fn certificate_identity_can_match_cn_dns_or_email() {
    let mut certificate = PersonalCertificate {
        thumbprint: "a".repeat(40),
        serial_number: "01".into(),
        subject: "CN=alice".into(),
        issuer: "CN=test issuer".into(),
        simple_name: String::new(),
        dns_names: Vec::new(),
        email_names: Vec::new(),
        not_before: "2026-01-01T00:00:00Z".into(),
        not_after: "2027-01-01T00:00:00Z".into(),
        has_private_key: true,
        eku_oids: Vec::new(),
    };
    assert!(certificate_matches_identity(&certificate, "alice"));
    certificate.subject = "CN=other".into();
    certificate.dns_names = vec!["alice".into()];
    assert!(certificate_matches_identity(&certificate, "alice"));
    certificate.dns_names.clear();
    certificate.email_names = vec!["alice@example.test".into()];
    assert!(certificate_matches_identity(
        &certificate,
        "alice@example.test"
    ));
    assert!(!certificate_matches_identity(
        &certificate,
        "bob@example.test"
    ));
}

#[test]
fn identities_are_short_and_printable() {
    let invalid = "the mapped certificate identity is invalid";
    assert_eq!(message(validate_identity("")), invalid);
    assert_eq!(message(validate_identity("a\0")), invalid);
    assert_eq!(message(validate_identity("a\u{9f}")), invalid);
    assert!(validate_identity(&"a".repeat(253)).is_ok());
    assert_eq!(message(validate_identity(&"a".repeat(254))), invalid);
    assert_eq!(message(validate_identity(&"é".repeat(127))), invalid);
    assert!(validate_identity(&"é".repeat(126)).is_ok());
}

#[test]
fn identities_match_in_any_case() {
    assert!(certificate_matches_identity(
        &personal("O=Lab, CN=Alice ,OU=x", ""),
        "ALICE"
    ));
    assert!(certificate_matches_identity(&personal("", "Alice"), "aLICE"));
    assert!(!certificate_matches_identity(&personal("cn=alice", ""), "alice"));
    assert!(!certificate_matches_identity(&personal("CN=alice2", ""), "alice"));
    assert!(!certificate_matches_identity(&personal("OU=CN=alice", ""), "alice"));
}

#[test]
fn certificates_without_usages_serve_any_profile() {
    let profile = mtls_profile();
    let mut other = personal("CN=alice", "");
    other.eku_oids = texts(&[CODE_SIGNING]);
    let mut both = personal("CN=alice", "both");
    both.eku_oids = texts(&[CODE_SIGNING, CLIENT_AUTH]);
    let found = certificates_for_profile(
        &[personal("CN=alice", "any"), other, both],
        &profile,
        "alice",
    );
    let names: Vec<&str> = found.iter().map(|found| found.simple_name.as_str()).collect();
    assert_eq!(names, vec!["any", "both"]);
}

#[test]
fn serials_are_written_in_pairs() {
    assert_eq!(normalize_certificate_serial("0A:1B:2C"), "0a:1b:2c");
    assert_eq!(normalize_certificate_serial("a1b2c"), "0a:1b:2c");
    assert_eq!(normalize_certificate_serial("serial 7"), "0e:a7");
    assert_eq!(normalize_certificate_serial(""), "");
    assert_eq!(normalize_certificate_serial("xyz"), "");
    for text in ["0A:1B:2C", "a1b2c", "7", "FFFF"] {
        let once = normalize_certificate_serial(text);
        assert_eq!(normalize_certificate_serial(&once), once);
        assert_eq!(normalize_certificate_serial(&text.to_lowercase()), once);
    }
    assert_eq!(
        normalize_certificate_serial("12-34 56"),
        normalize_certificate_serial("12:34:56")
    );
}

#[test]
fn digests_are_hexadecimal() {
    assert_eq!(
        fingerprint_of(b"abc"),
        "ba7816bf8f01cfea414140de5dae2223b00361a396177a9cb410ff61f20015ad"
    );
    assert_eq!(
        thumbprint_of(b"abc"),
        "a9993e364706816aba3e25717850c26c9cd0d89d"
    );
    assert_eq!(fingerprint_of(&der(LEAF)), LEAF_SHA256);
    assert_eq!(thumbprint_of(&der(LEAF)), LEAF_SHA1);
}

#[test]
fn a_certificate_is_read_into_its_parts() {
    let leaf = certificate(LEAF);
    assert_eq!(leaf.raw, der(LEAF));
    assert_eq!(leaf.subject.common_names, vec![Some("alice@example.test".to_string())]);
    assert!(leaf.subject.text.contains("CN=alice@example.test"));
    assert!(same_bytes(&leaf.issuer.raw, &certificate(INTERMEDIATE).subject.raw));
    assert!(!same_bytes(&leaf.subject.raw, &leaf.issuer.raw));
    assert_eq!(leaf.authority, Some(false));
    assert_eq!(certificate(ROOT).authority, Some(true));
    assert_eq!(normalize_certificate_serial(&leaf.serial), "0a:1b:2c");
    let names: Vec<String> = leaf
        .alternative_names
        .iter()
        .flatten()
        .flatten()
        .map(|name| match name {
            AlternativeName::Email(text) => format!("email {text}"),
            AlternativeName::Dns(text) => format!("dns {text}"),
            AlternativeName::Other => "other".into(),
        })
        .collect();
    assert_eq!(
        names,
        vec!["email Alice@example.test", "dns alice.example.test", "other"]
    );
    let usage = leaf.key_usages.iter().flatten().next().unwrap();
    assert!(usage.digital_signature && !usage.non_repudiation);
    assert!(certificate(NO_USAGE_LEAF).key_usages.iter().flatten().next().is_none());
    assert!(leaf.not_before.contains("2024"));
    assert!(leaf.not_after.contains("2120"));
    assert!(read_certificate(b"not a certificate").is_none());
    assert!(read_certificate(&der(REQUEST)).is_none());
}

#[test]
fn usages_are_listed_by_their_numbers() {
    assert_eq!(
        certificate_eku_oids(&certificate(LEAF)),
        vec![CLIENT_AUTH, CODE_SIGNING, EMAIL, DOCUMENT]
    );
    assert!(certificate_eku_oids(&certificate(ROOT)).is_empty());
}

#[test]
fn document_signing_needs_both_usage_bits() {
    let leaf = certificate(LEAF);
    assert!(validate_key_usage_for_purpose(&leaf, &CertificatePurpose::Mtls).is_ok());
    assert!(validate_key_usage_for_purpose(&leaf, &CertificatePurpose::CodeSigning).is_ok());
    assert_eq!(
        message(validate_key_usage_for_purpose(&leaf, &CertificatePurpose::DocumentSigning)),
        "the signed certificate has the wrong Key Usage for document signing"
    );
    let document = certificate(DOCUMENT_LEAF);
    assert!(validate_key_usage_for_purpose(&document, &CertificatePurpose::DocumentSigning).is_ok());
    assert_eq!(
        message(validate_key_usage_for_purpose(
            &certificate(NO_USAGE_LEAF),
            &CertificatePurpose::Mtls
        )),
        "the signed certificate is missing Key Usage"
    );
    assert_eq!(
        message(validate_key_usage_for_purpose(
            &certificate(ROOT),
            &CertificatePurpose::Mtls
        )),
        "the signed certificate has the wrong Key Usage for mTLS"
    );
}

#[test]
fn requests_are_decoded_whatever_their_tag() {
    assert_eq!(accepted(decode_csr_pem(REQUEST)), der(REQUEST));
    let renamed = REQUEST.replace("CERTIFICATE REQUEST", "NEW CERTIFICATE REQUEST");
    assert_eq!(accepted(decode_csr_pem(&renamed)), der(REQUEST));
    assert_eq!(
        message(decode_csr_pem("no request")),
        "Windows returned an invalid CSR PEM"
    );
}

#[test]
fn a_chain_leads_to_a_trusted_root() {
    let leaf = certificate(LEAF);
    let trusted = vec![ROOT_SHA256.to_uppercase()];
    let chain = texts(&["junk", REQUEST, OTHER_ROOT, ROOT, INTERMEDIATE]);
    let intermediates = accepted(validate_chain(&leaf, &chain, &trusted));
    assert_eq!(intermediates.len(), 1);
    assert_eq!(der(&intermediates[0]), der(INTERMEDIATE));
    let direct = accepted(validate_chain(
        &certificate(LEAF_FROM_ROOT),
        &texts(&[ROOT]),
        &trusted,
    ));
    assert!(direct.is_empty());
}

#[test]
fn chains_without_a_trusted_end_are_refused() {
    let leaf = certificate(LEAF);
    let none = "the signed certificate does not chain to an embedded root";
    let untrusted = "the signed certificate chain ends at an untrusted root";
    let trusted = texts(&[ROOT_SHA256]);
    assert_eq!(message(validate_chain(&leaf, &[], &trusted)), none);
    assert_eq!(
        message(validate_chain(&leaf, &texts(&[INTERMEDIATE]), &trusted)),
        none
    );
    assert_eq!(message(validate_chain(&leaf, &texts(&[ROOT]), &trusted)), none);
    let chain = texts(&[INTERMEDIATE, ROOT]);
    assert_eq!(message(validate_chain(&leaf, &chain, &[])), untrusted);
    assert_eq!(
        message(validate_chain(&leaf, &chain, &texts(&[OTHER_ROOT_SHA256]))),
        untrusted
    );
    assert_eq!(
        message(validate_chain(
            &leaf,
            &texts(&[INTERMEDIATE, OTHER_ROOT]),
            &texts(&[OTHER_ROOT_SHA256])
        )),
        none
    );
    assert_eq!(
        message(validate_chain(&certificate(FORGED_LEAF), &chain, &trusted)),
        none
    );
}

#[test]
fn certificates_that_sign_each_other_lead_nowhere() {
    let leaf = certificate(LOOP_LEAF);
    let trusted = texts(&[ROOT_SHA256]);
    assert_eq!(
        message(validate_chain(&leaf, &texts(&[LOOP_A, LOOP_B]), &trusted)),
        "the signed certificate does not chain to an embedded root"
    );
    assert_eq!(
        message(validate_chain(&leaf, &texts(&[LOOP_A, LOOP_B, LOOP_A]), &trusted)),
        "the signed certificate does not chain to an embedded root"
    );
}

fn check(
    leaf: &str,
    identity: &str,
    san: Option<&str>,
    purpose: CertificatePurpose,
    ekus: &[&str],
    currently_valid: bool,
) -> Result<(IssuedCertificate, Vec<String>), AppError> {
    let fingerprints = texts(&[ROOT_SHA256]);
    let expected_eku_oids = texts(ekus);
    let policy = AcceptancePolicy {
        trusted_root_fingerprints: &fingerprints,
        expected_identity: identity,
        expected_san: san,
        expected_purpose: &purpose,
        expected_eku_oids: &expected_eku_oids,
    };
    let chain = texts(&[INTERMEDIATE, ROOT]);
    check_issued_certificate(REQUEST, leaf, &chain, &policy, currently_valid)
}

const ALICE: &str = "alice@example.test";

#[test]
fn a_certificate_that_meets_the_policy_is_accepted() {
    let (issued, intermediates) = accepted(check(
        LEAF,
        "Alice@Example.Test",
        Some("ALICE@example.test"),
        CertificatePurpose::Mtls,
        &[CLIENT_AUTH, DOCUMENT],
        true,
    ));
    assert_eq!(issued.thumbprint, LEAF_SHA1);
    assert_eq!(issued.subject, certificate(LEAF).subject.text);
    assert_eq!(issued.not_after, certificate(LEAF).not_after);
    assert!(issued.warnings.is_empty());
    assert_eq!(intermediates.len(), 1);
    accepted(check(
        LEAF,
        ALICE,
        Some("alice.example.test"),
        CertificatePurpose::CodeSigning,
        &[],
        true,
    ));
    accepted(check(
        DOCUMENT_LEAF,
        ALICE,
        None,
        CertificatePurpose::DocumentSigning,
        &[DOCUMENT],
        true,
    ));
}

#[test]
fn each_breach_of_the_policy_is_named() {
    let mtls = CertificatePurpose::Mtls;
    let refuse = |leaf: &str, identity: &str, san: Option<&str>, ekus: &[&str], valid: bool| {
        message(check(leaf, identity, san, mtls, ekus, valid))
    };
    assert_eq!(
        refuse("junk", ALICE, None, &[], true),
        "OpenBao returned an invalid certificate PEM"
    );
    assert_eq!(
        refuse(REQUEST, ALICE, None, &[], true),
        "OpenBao returned an invalid X.509 certificate"
    );
    assert_eq!(
        refuse(LEAF, ALICE, None, &[], false),
        "OpenBao returned a certificate that is not currently valid"
    );
    assert_eq!(
        refuse(OTHER_KEY_LEAF, ALICE, None, &[], true),
        "the signed certificate does not match the locally generated key"
    );
    assert_eq!(
        refuse(FORGED_LEAF, ALICE, None, &[], true),
        "the signed certificate does not chain to an embedded root"
    );
    assert_eq!(
        refuse(LEAF, "bob@example.test", None, &[], true),
        "the signed certificate identity does not match the authenticated user"
    );
    assert_eq!(
        refuse(LEAF, ALICE, Some("bob@example.test"), &[], true),
        "the signed certificate SAN does not match the authenticated user"
    );
    assert_eq!(
        refuse(LEAF, ALICE, None, &[CLIENT_AUTH, "1.2.3"], true),
        "the signed certificate is missing required EKU 1.2.3"
    );
    assert_eq!(
        refuse(NO_USAGE_LEAF, ALICE, None, &[], true),
        "the signed certificate is missing Key Usage"
    );
}

#[test]
fn document_signing_stands_alone() {
    let document = CertificatePurpose::DocumentSigning;
    assert_eq!(
        message(check(LEAF, ALICE, None, document, &[DOCUMENT], true)),
        "the signed certificate has the excluded EKU 1.3.6.1.5.5.7.3.2"
    );
    let fingerprints: Vec<String> = Vec::new();
    let ekus = texts(&[DOCUMENT]);
    let policy = AcceptancePolicy {
        trusted_root_fingerprints: &fingerprints,
        expected_identity: ALICE,
        expected_san: None,
        expected_purpose: &document,
        expected_eku_oids: &ekus,
    };
    let mut leaf = certificate(DOCUMENT_LEAF);
    assert!(check_leaf(&leaf, &policy).is_ok());
    for usage in leaf.extended_key_usages.iter_mut().flatten() {
        usage.code_signing = true;
    }
    assert_eq!(
        message(check_leaf(&leaf, &policy)),
        "the signed certificate has the excluded EKU 1.3.6.1.5.5.7.3.3"
    );
    for usage in leaf.extended_key_usages.iter_mut().flatten() {
        usage.client_auth = true;
    }
    assert_eq!(
        message(check_leaf(&leaf, &policy)),
        "the signed certificate has the excluded EKU 1.3.6.1.5.5.7.3.2"
    );
    assert!(validate_key_usage_for_purpose(&leaf, &document).is_ok());
    let policy = AcceptancePolicy {
        expected_purpose: &CertificatePurpose::CodeSigning,
        ..policy
    };
    assert!(check_leaf(&leaf, &policy).is_ok());
}

#[test]
fn the_request_itself_is_checked_first() {
    let fingerprints = texts(&[ROOT_SHA256]);
    let ekus: Vec<String> = Vec::new();
    let policy = AcceptancePolicy {
        trusted_root_fingerprints: &fingerprints,
        expected_identity: ALICE,
        expected_san: None,
        expected_purpose: &CertificatePurpose::Mtls,
        expected_eku_oids: &ekus,
    };
    let chain = texts(&[INTERMEDIATE, ROOT]);
    assert_eq!(
        message(check_issued_certificate("junk", LEAF, &chain, &policy, false)),
        "Windows returned an invalid CSR PEM"
    );
    assert_eq!(
        message(check_issued_certificate(LEAF, LEAF, &chain, &policy, false)),
        "generated CSR could not be parsed"
    );
}

#[test]
fn validity_is_read_from_the_clock() {
    let fingerprints = texts(&[ROOT_SHA256]);
    let ekus = texts(&[CLIENT_AUTH]);
    let policy = AcceptancePolicy {
        trusted_root_fingerprints: &fingerprints,
        expected_identity: ALICE,
        expected_san: Some(ALICE),
        expected_purpose: &CertificatePurpose::Mtls,
        expected_eku_oids: &ekus,
    };
    let chain = texts(&[INTERMEDIATE, ROOT]);
    let (issued, _) = accepted(validate_issued_certificate(REQUEST, LEAF, &chain, &policy));
    assert_eq!(issued.thumbprint, LEAF_SHA1);
    assert_eq!(
        message(validate_issued_certificate(REQUEST, EXPIRED_LEAF, &chain, &policy)),
        "OpenBao returned a certificate that is not currently valid"
    );
}

#[test]
fn a_slot_certificate_is_listed_with_its_names() {
    let found = accepted(personal_certificate_from_pem(LEAF, true));
    assert_eq!(found.thumbprint, LEAF_SHA1);
    assert_eq!(found.serial_number, "0a:1b:2c");
    assert_eq!(found.simple_name, ALICE);
    assert_eq!(found.email_names, vec!["Alice@example.test"]);
    assert_eq!(found.dns_names, vec!["alice.example.test"]);
    assert_eq!(found.issuer, certificate(INTERMEDIATE).subject.text);
    assert!(found.has_private_key);
    assert_eq!(found.eku_oids, vec![CLIENT_AUTH, CODE_SIGNING, EMAIL, DOCUMENT]);
    assert_eq!(found.not_before, certificate(LEAF).not_before);
    assert!(!accepted(personal_certificate_from_pem(ROOT, false)).has_private_key);
    assert_eq!(
        message(personal_certificate_from_pem("junk", true)),
        "YubiKey returned an invalid certificate PEM"
    );
    assert_eq!(
        message(personal_certificate_from_pem(REQUEST, true)),
        "YubiKey returned an invalid X.509 certificate"
    );
}

#[test]
fn fingerprints_are_listed_in_any_case() {
    let list = texts(&["00ff", "ABCD"]);
    assert!(listed("abcd", &list));
    assert!(listed("00FF", &list));
    assert!(!listed("abc", &list));
    assert!(!listed("abcd", &[]));
}

#[test]
fn only_certificates_become_entries() {
    let block = |tag: &str| {
        Some(PemBlock {
            tag: tag.into(),
            contents: vec![1, 2, 3],
        })
    };
    let list = texts(&["AB"]);
    let entry = entry_from(block("CERTIFICATE"), Some("pem".into()), "ab", &list).unwrap();
    assert_eq!((entry.pem.as_str(), entry.der, entry.trusted_root), ("pem", vec![1, 2, 3], true));
    let entry = entry_from(block("CERTIFICATE"), Some("pem".into()), "cd", &list).unwrap();
    assert!(!entry.trusted_root);
    assert!(entry_from(block("CERTIFICATE REQUEST"), Some("pem".into()), "ab", &list).is_none());
    assert!(entry_from(None, None, "ab", &list).is_none());
}

#[test]
fn the_climb_uses_each_signer_once() {
    assert_eq!(
        choose_signer(&[false, true, true], &[false, false, false]),
        Some(1)
    );
    assert_eq!(
        choose_signer(&[false, true, true], &[false, true, false]),
        Some(2)
    );
    assert_eq!(choose_signer(&[true], &[true]), None);
    assert_eq!(choose_signer(&[], &[]), None);
    assert!(judge_signer(false, true, true).is_none());
    assert!(judge_signer(true, true, true).unwrap().is_ok());
    for (trusted_root, self_signed) in [(false, true), (true, false), (false, false)] {
        assert_eq!(
            message(judge_signer(true, trusted_root, self_signed).unwrap()),
            "the signed certificate chain ends at an untrusted root"
        );
    }
}

#[test]
fn a_read_certificate_is_judged_by_its_parts() {
    let leaf = certificate(LEAF);
    let key = leaf.public_key.clone();
    assert!(check_key(true, &key, &leaf).is_ok());
    assert_eq!(
        message(check_key(false, &key, &leaf)),
        "OpenBao returned a certificate that is not currently valid"
    );
    assert_eq!(
        message(check_key(true, &[0], &leaf)),
        "the signed certificate does not match the locally generated key"
    );
    let fingerprints: Vec<String> = Vec::new();
    let ekus = texts(&[DOCUMENT]);
    let policy = AcceptancePolicy {
        trusted_root_fingerprints: &fingerprints,
        expected_identity: ALICE,
        expected_san: None,
        expected_purpose: &CertificatePurpose::Mtls,
        expected_eku_oids: &ekus,
    };
    assert!(check_leaf(&leaf, &policy).is_ok());
    let (issued, between) =
        accepted(accept_leaf(certificate(LEAF), "ab".into(), texts(&["pem"]), &policy));
    assert_eq!(issued.thumbprint, "ab");
    assert_eq!(between, vec!["pem"]);
    assert_eq!(
        message(accept_leaf(certificate(ROOT), "ab".into(), Vec::new(), &policy)),
        "the signed certificate identity does not match the authenticated user"
    );
    let shown = personal_certificate(leaf, "cd".into(), false);
    assert_eq!(shown.thumbprint, "cd");
    assert_eq!(shown.simple_name, ALICE);
}
