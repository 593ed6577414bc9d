//! X.509 certificates and certificate requests as plain values.
//!
//! The parser reads DER; what the client's rules look at is taken over into
//! [`Certificate`].

use vstd::prelude::*;
use x509_parser::certificate::X509Certificate;
use x509_parser::certification_request::X509CertificationRequest;
use x509_parser::extensions::{GeneralName, ParsedExtension};
use x509_parser::prelude::FromDer;

verus! {

// ---------------------------------------------------------------------------
// Model
// ---------------------------------------------------------------------------

/// A distinguished name: how it is printed, its encoding, and each of its
/// common names, `None` for one that is no text.
pub struct Name {
    pub text: String,
    pub raw: Vec<u8>,
    pub common_names: Vec<Option<String>>,
}

#[verifier::ext_equal]
pub struct NameView {
    pub text: Seq<char>,
    pub raw: Seq<u8>,
    pub common_names: Seq<Option<Seq<char>>>,
}

impl View for Name {
    type V = NameView;

    open spec fn view(&self) -> NameView {
        NameView {
            text: self.text@,
            raw: self.raw@,
            common_names: crate::text::view_texts(self.common_names@),
        }
    }
}

/// A name of the subject alternative name extension.
pub enum AlternativeName {
    Email(String),
    Dns(String),
    Other,
}

#[verifier::ext_equal]
pub enum AlternativeNameView {
    Email(Seq<char>),
    Dns(Seq<char>),
    Other,
}

impl View for AlternativeName {
    type V = AlternativeNameView;

    open spec fn view(&self) -> AlternativeNameView {
        match self {
            AlternativeName::Email(text) => AlternativeNameView::Email(text@),
            AlternativeName::Dns(text) => AlternativeNameView::Dns(text@),
            AlternativeName::Other => AlternativeNameView::Other,
        }
    }
}

pub open spec fn view_names(names: Seq<AlternativeName>) -> Seq<AlternativeNameView> {
    Seq::new(names.len(), |i: int| names[i]@)
}

pub open spec fn view_name_lists(
    lists: Seq<Option<Vec<AlternativeName>>>,
) -> Seq<Option<Seq<AlternativeNameView>>> {
    Seq::new(
        lists.len(),
        |i: int|
            match lists[i] {
                Some(names) => Some(view_names(names@)),
                None => None,
            },
    )
}

/// The bits of a key usage extension that the client's rules look at.
#[derive(Clone, Copy, PartialEq, Eq, Structural)]
pub struct KeyUsage {
    pub digital_signature: bool,
    pub non_repudiation: bool,
}

/// The purposes of an extended key usage extension that the client's rules
/// look at, and the identifiers of those that the parser has no name for.
pub struct ExtendedKeyUsage {
    pub client_auth: bool,
    pub code_signing: bool,
    pub email_protection: bool,
    pub other: Vec<String>,
}

#[verifier::ext_equal]
pub struct ExtendedKeyUsageView {
    pub client_auth: bool,
    pub code_signing: bool,
    pub email_protection: bool,
    pub other: Seq<Seq<char>>,
}

impl View for ExtendedKeyUsage {
    type V = ExtendedKeyUsageView;

    open spec fn view(&self) -> ExtendedKeyUsageView {
        ExtendedKeyUsageView {
            client_auth: self.client_auth,
            code_signing: self.code_signing,
            email_protection: self.email_protection,
            other: crate::text::view_all(self.other@),
        }
    }
}

pub open spec fn view_purposes(
    purposes: Seq<Option<ExtendedKeyUsage>>,
) -> Seq<Option<ExtendedKeyUsageView>> {
    Seq::new(
        purposes.len(),
        |i: int|
            match purposes[i] {
                Some(purpose) => Some(purpose@),
                None => None,
            },
    )
}

/// What the client's rules look at in a certificate. The three lists have one
/// entry for each extension, `None` where the extension is of another kind.
pub struct Certificate {
    pub raw: Vec<u8>,
    pub subject: Name,
    pub issuer: Name,
    pub not_before: String,
    pub not_after: String,
    pub public_key: Vec<u8>,
    pub serial: String,
    pub authority: Option<bool>,
    pub alternative_names: Vec<Option<Vec<AlternativeName>>>,
    pub key_usages: Vec<Option<KeyUsage>>,
    pub extended_key_usages: Vec<Option<ExtendedKeyUsage>>,
}

#[verifier::ext_equal]
pub struct CertificateView {
    pub raw: Seq<u8>,
    pub subject: NameView,
    pub issuer: NameView,
    pub not_before: Seq<char>,
    pub not_after: Seq<char>,
    pub public_key: Seq<u8>,
    pub serial: Seq<char>,
    pub authority: Option<bool>,
    pub alternative_names: Seq<Option<Seq<AlternativeNameView>>>,
    pub key_usages: Seq<Option<KeyUsage>>,
    pub extended_key_usages: Seq<Option<ExtendedKeyUsageView>>,
}

impl View for Certificate {
    type V = CertificateView;

    open spec fn view(&self) -> CertificateView {
        CertificateView {
            raw: self.raw@,
            subject: self.subject@,
            issuer: self.issuer@,
            not_before: self.not_before@,
            not_after: self.not_after@,
            public_key: self.public_key@,
            serial: self.serial@,
            authority: self.authority,
            alternative_names: view_name_lists(self.alternative_names@),
            key_usages: self.key_usages@,
            extended_key_usages: view_purposes(self.extended_key_usages@),
        }
    }
}

impl CertificateView {
    /// Subject and issuer are the same name.
    pub open spec fn is_self_issued(self) -> bool {
        self.subject.raw == self.issuer.raw
    }

    /// The basic constraints say that this is a certificate authority.
    pub open spec fn is_authority(self) -> bool {
        self.authority == Some(true)
    }
}

// ---------------------------------------------------------------------------
// What the parser reads
// ---------------------------------------------------------------------------

/// The bytes of the certificate that the input begins with, if it begins with
/// one.
pub uninterp spec fn certificate_bytes(der: Seq<u8>) -> Option<Seq<u8>>;

pub uninterp spec fn certificate_subject(der: Seq<u8>) -> Option<NameView>;

pub uninterp spec fn certificate_issuer(der: Seq<u8>) -> Option<NameView>;

/// The first and the last moment of the certificate's validity, as text.
pub uninterp spec fn certificate_validity(der: Seq<u8>) -> Option<(Seq<char>, Seq<char>)>;

/// Whether the moment `now` lies in the certificate's validity.
pub uninterp spec fn certificate_valid_at(der: Seq<u8>, now: int) -> bool;

/// The encoding of the certificate's public key.
pub uninterp spec fn certificate_public_key(der: Seq<u8>) -> Option<Seq<u8>>;

/// The serial number as hexadecimal text.
pub uninterp spec fn certificate_serial(der: Seq<u8>) -> Option<Seq<char>>;

/// The authority flag of the one basic constraints extension.
pub uninterp spec fn certificate_authority(der: Seq<u8>) -> Option<Option<bool>>;

pub uninterp spec fn certificate_alternative_names(
    der: Seq<u8>,
) -> Option<Seq<Option<Seq<AlternativeNameView>>>>;

pub uninterp spec fn certificate_key_usages(der: Seq<u8>) -> Option<Seq<Option<KeyUsage>>>;

pub uninterp spec fn certificate_extended_key_usages(
    der: Seq<u8>,
) -> Option<Seq<Option<ExtendedKeyUsageView>>>;

/// Whether the certificate's signature verifies under the signer's key, or
/// under its own where no signer is given.
pub uninterp spec fn certificate_signature(der: Seq<u8>, signer: Option<Seq<u8>>) -> bool;

/// The encoding of the public key of a certificate request.
pub uninterp spec fn request_public_key(der: Seq<u8>) -> Option<Seq<u8>>;

/// `X509Certificate::from_der` and `as_raw`: a function of the bytes, `None`
/// where the parser reports an error. The certificate stands at the beginning
/// of the bytes.
#[verifier::external_body]
pub(crate) fn read_bytes(der: &[u8]) -> (r: Option<Vec<u8>>)
    ensures
        match r {
            Some(raw) => certificate_bytes(der@) == Some(raw@) && raw@.len() <= der@.len() && raw@
                == der@.take(raw@.len() as int),
            None => certificate_bytes(der@) is None,
        },
{
    let (_, cert) = X509Certificate::from_der(der).ok()?;
    Some(cert.as_raw().to_vec())
}

/// `TbsCertificate::subject` of a parsed certificate: a function of the bytes,
/// there exactly where they parse.
#[verifier::external_body]
fn read_subject(der: &[u8]) -> (r: Option<Name>)
    ensures
        match r {
            Some(name) => certificate_subject(der@) == Some(name@),
            None => certificate_subject(der@) is None,
        },
        r is Some == certificate_bytes(der@) is Some,
{
    let (_, cert) = X509Certificate::from_der(der).ok()?;
    let name = cert.subject();
    Some(Name {
        text: name.to_string(),
        raw: name.as_raw().to_vec(),
        common_names: name.iter_common_name().map(|cn| cn.as_str().ok().map(str::to_owned)).collect(),
    })
}

/// `TbsCertificate::issuer` of a parsed certificate: a function of the bytes,
/// there exactly where they parse.
#[verifier::external_body]
fn read_issuer(der: &[u8]) -> (r: Option<Name>)
    ensures
        match r {
            Some(name) => certificate_issuer(der@) == Some(name@),
            None => certificate_issuer(der@) is None,
        },
        r is Some == certificate_bytes(der@) is Some,
{
    let (_, cert) = X509Certificate::from_der(der).ok()?;
    let name = cert.issuer();
    Some(Name {
        text: name.to_string(),
        raw: name.as_raw().to_vec(),
        common_names: name.iter_common_name().map(|cn| cn.as_str().ok().map(str::to_owned)).collect(),
    })
}

/// `TbsCertificate::validity` of a parsed certificate, printed: a function of
/// the bytes, there exactly where they parse.
#[verifier::external_body]
fn read_validity(der: &[u8]) -> (r: Option<(String, String)>)
    ensures
        match r {
            Some(times) => certificate_validity(der@) == Some((times.0@, times.1@)),
            None => certificate_validity(der@) is None,
        },
        r is Some == certificate_bytes(der@) is Some,
{
    let (_, cert) = X509Certificate::from_der(der).ok()?;
    let validity = cert.validity();
    Some((validity.not_before.to_string(), validity.not_after.to_string()))
}

/// `Validity::is_valid` of a parsed certificate, which is `is_valid_at` at the
/// moment of the call: a function of the bytes and of that moment, with an
/// answer exactly where the bytes parse. Which moment it is, the clock decides,
/// and nothing is said of it.
#[verifier::external_body]
pub(crate) fn valid_now(der: &[u8]) -> (r: Option<bool>)
    ensures
        r is Some == certificate_bytes(der@) is Some,
        r is Some ==> exists|now: int| r == Some(#[trigger] certificate_valid_at(der@, now)),
{
    let (_, cert) = X509Certificate::from_der(der).ok()?;
    Some(cert.validity().is_valid())
}

/// `TbsCertificate::public_key` of a parsed certificate, as encoded: a function
/// of the bytes, there exactly where they parse.
#[verifier::external_body]
fn read_public_key(der: &[u8]) -> (r: Option<Vec<u8>>)
    ensures
        match r {
            Some(key) => certificate_public_key(der@) == Some(key@),
            None => certificate_public_key(der@) is None,
        },
        r is Some == certificate_bytes(der@) is Some,
{
    let (_, cert) = X509Certificate::from_der(der).ok()?;
    Some(cert.public_key().raw.to_vec())
}

/// `TbsCertificate::raw_serial_as_string` of a parsed certificate: a function
/// of the bytes, there exactly where they parse.
#[verifier::external_body]
fn read_serial(der: &[u8]) -> (r: Option<String>)
    ensures
        match r {
            Some(serial) => certificate_serial(der@) == Some(serial@),
            None => certificate_serial(der@) is None,
        },
        r is Some == certificate_bytes(der@) is Some,
{
    let (_, cert) = X509Certificate::from_der(der).ok()?;
    Some(cert.tbs_certificate.raw_serial_as_string())
}

/// `TbsCertificate::basic_constraints` of a parsed certificate: the authority
/// flag, or `None` where there is no such extension or more than one. A
/// function of the bytes, there exactly where they parse.
#[verifier::external_body]
fn read_authority(der: &[u8]) -> (r: Option<Option<bool>>)
    ensures
        r == certificate_authority(der@),
        r is Some == certificate_bytes(der@) is Some,
{
    let (_, cert) = X509Certificate::from_der(der).ok()?;
    let authority = cert.basic_constraints().ok().flatten().map(|extension| extension.value.ca);
    Some(authority)
}

/// `TbsCertificate::extensions` of a parsed certificate, the subject
/// alternative names among them: a function of the bytes, there exactly where
/// they parse.
#[verifier::external_body]
fn read_alternative_names(der: &[u8]) -> (r: Option<Vec<Option<Vec<AlternativeName>>>>)
    ensures
        match r {
            Some(lists) => certificate_alternative_names(der@) == Some(view_name_lists(lists@)),
            None => certificate_alternative_names(der@) is None,
        },
        r is Some == certificate_bytes(der@) is Some,
{
    let (_, cert) = X509Certificate::from_der(der).ok()?;
    Some(cert.extensions().iter().map(|extension| match extension.parsed_extension() {
        ParsedExtension::SubjectAlternativeName(san) => Some(san.general_names.iter().map(|name| match name {
            GeneralName::RFC822Name(text) => AlternativeName::Email(text.to_string()),
            GeneralName::DNSName(text) => AlternativeName::Dns(text.to_string()),
            _ => AlternativeName::Other,
        }).collect()),
        _ => None,
    }).collect())
}

/// `TbsCertificate::extensions` of a parsed certificate, the key usages among
/// them: a function of the bytes, there exactly where they parse.
#[verifier::external_body]
fn read_key_usages(der: &[u8]) -> (r: Option<Vec<Option<KeyUsage>>>)
    ensures
        match r {
            Some(usages) => certificate_key_usages(der@) == Some(usages@),
            None => certificate_key_usages(der@) is None,
        },
        r is Some == certificate_bytes(der@) is Some,
{
    let (_, cert) = X509Certificate::from_der(der).ok()?;
    Some(cert.extensions().iter().map(|extension| match extension.parsed_extension() {
        ParsedExtension::KeyUsage(usage) => Some(KeyUsage {
            digital_signature: usage.digital_signature(),
            non_repudiation: usage.non_repudiation(),
        }),
        _ => None,
    }).collect())
}

/// `TbsCertificate::extensions` of a parsed certificate, the extended key
/// usages among them: a function of the bytes, there exactly where they parse.
#[verifier::external_body]
fn read_extended_key_usages(der: &[u8]) -> (r: Option<Vec<Option<ExtendedKeyUsage>>>)
    ensures
        match r {
            Some(usages) => certificate_extended_key_usages(der@) == Some(view_purposes(usages@)),
            None => certificate_extended_key_usages(der@) is None,
        },
        r is Some == certificate_bytes(der@) is Some,
{
    let (_, cert) = X509Certificate::from_der(der).ok()?;
    Some(cert.extensions().iter().map(|extension| match extension.parsed_extension() {
        ParsedExtension::ExtendedKeyUsage(usage) => Some(ExtendedKeyUsage {
            client_auth: usage.client_auth,
            code_signing: usage.code_signing,
            email_protection: usage.email_protection,
            other: usage.other.iter().map(|oid| oid.to_id_string()).collect(),
        }),
        _ => None,
    }).collect())
}

/// `X509Certificate::verify_signature` under the key of the certificate that
/// `signer` holds, or under the certificate's own key where there is none: a
/// function of the encodings, and false where one of them is no certificate.
#[verifier::external_body]
pub(crate) fn signature_verifies(der: &[u8], signer: Option<&[u8]>) -> (r: bool)
    ensures
        r == certificate_signature(
            der@,
            match signer {
                Some(bytes) => Some(bytes@),
                None => None,
            },
        ),
{
    match (X509Certificate::from_der(der), signer.map(X509Certificate::from_der)) {
        (Ok((_, cert)), None) => cert.verify_signature(None).is_ok(),
        (Ok((_, cert)), Some(Ok((_, parent)))) => {
            cert.verify_signature(Some(parent.public_key())).is_ok()
        },
        _ => false,
    }
}

/// `X509CertificationRequest::from_der`, the public key as encoded: a function
/// of the bytes, `None` where the parser reports an error.
#[verifier::external_body]
pub(crate) fn read_request_key(der: &[u8]) -> (r: Option<Vec<u8>>)
    ensures
        match r {
            Some(key) => request_public_key(der@) == Some(key@),
            None => request_public_key(der@) is None,
        },
{
    let (_, request) = X509CertificationRequest::from_der(der).ok()?;
    Some(request.certification_request_info.subject_pki.raw.to_vec())
}

// ---------------------------------------------------------------------------
// Reading a certificate
// ---------------------------------------------------------------------------

/// The certificate that the bytes begin with, if they begin with one.
pub open spec fn certificate(der: Seq<u8>) -> Option<CertificateView> {
    match certificate_bytes(der) {
        Some(raw) => Some(
            CertificateView {
                raw,
                subject: certificate_subject(der)->Some_0,
                issuer: certificate_issuer(der)->Some_0,
                not_before: certificate_validity(der)->Some_0.0,
                not_after: certificate_validity(der)->Some_0.1,
                public_key: certificate_public_key(der)->Some_0,
                serial: certificate_serial(der)->Some_0,
                authority: certificate_authority(der)->Some_0,
                alternative_names: certificate_alternative_names(der)->Some_0,
                key_usages: certificate_key_usages(der)->Some_0,
                extended_key_usages: certificate_extended_key_usages(der)->Some_0,
            },
        ),
        None => None,
    }
}

/// Each field of a certificate is what the parser reads of it under that name:
/// two inputs of which the parser reads the same are the same certificate, and
/// two that differ in a field differ in that field.
pub proof fn law_certificates_keep_what_is_read(der: Seq<u8>)
    ensures
        certificate(der) is Some <==> certificate_bytes(der) is Some,
        certificate(der) matches Some(cert) ==> {
            &&& certificate_bytes(der) == Some(cert.raw)
            &&& certificate_subject(der)->Some_0 == cert.subject
            &&& certificate_issuer(der)->Some_0 == cert.issuer
            &&& certificate_validity(der)->Some_0 == (cert.not_before, cert.not_after)
            &&& certificate_public_key(der)->Some_0 == cert.public_key
            &&& certificate_serial(der)->Some_0 == cert.serial
            &&& certificate_authority(der)->Some_0 == cert.authority
            &&& certificate_alternative_names(der)->Some_0 == cert.alternative_names
            &&& certificate_key_usages(der)->Some_0 == cert.key_usages
            &&& certificate_extended_key_usages(der)->Some_0 == cert.extended_key_usages
        },
{
}

/// The certificate that the bytes begin with, if they begin with one.
pub fn read_certificate(der: &[u8]) -> (r: Option<Certificate>)
    ensures
        match r {
            Some(cert) => certificate(der@) == Some(cert@),
            None => certificate(der@) is None,
        },
{
    let raw: Vec<u8> = read_bytes(der)?;
    let subject: Name = read_subject(der)?;
    let issuer: Name = read_issuer(der)?;
    let (not_before, not_after): (String, String) = read_validity(der)?;
    let public_key: Vec<u8> = read_public_key(der)?;
    let serial: String = read_serial(der)?;
    let authority: Option<bool> = read_authority(der)?;
    let alternative_names: Vec<Option<Vec<AlternativeName>>> = read_alternative_names(der)?;
    let key_usages: Vec<Option<KeyUsage>> = read_key_usages(der)?;
    let extended_key_usages: Vec<Option<ExtendedKeyUsage>> = read_extended_key_usages(der)?;
    Some(
        Certificate {
            raw,
            subject,
            issuer,
            not_before,
            not_after,
            public_key,
            serial,
            authority,
            alternative_names,
            key_usages,
            extended_key_usages,
        },
    )
}

/// True where the two encodings are the same bytes.
pub fn same_bytes(a: &[u8], b: &[u8]) -> (r: bool)
    ensures
        r == (a@ == b@),
{
    if a.len() != b.len() {
        return false;
    }
    let mut i: usize = 0;
    while i < a.len()
        invariant
            a@.len() == b@.len(),
            0 <= i <= a@.len(),
            forall|k: int| 0 <= k < i ==> a@[k] == b@[k],
        decreases a@.len() - i,
    {
        if a[i] != b[i] {
            return false;
        }
        i += 1;
    }
    assert(a@ =~= b@);
    true
}

} // verus!
