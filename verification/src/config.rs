//! The deployment that is built into the client, and the server settings that
//! a user may put in its place.

use vstd::prelude::*;
use vstd::utf8::encode_utf8;

use crate::address::{join_url, joined_url, replace_path, url_with_path, Url, UrlView};
use crate::encoding::{
    fingerprint_of, parse_pem, parsed_pem, sha256_fingerprint, view_block, PemBlock, PemView,
};
use crate::error::{configuration_error, outcome, view_outcome, AppError, AppResult, ErrorView};
use crate::text::{
    alphanumeric, blank, byte_len, chars_of, concat2, concat3, concat4, control, ends_with,
    finishes, is_alphanumeric, is_blank, is_control, list_includes, lower, lowercase, strip_leading,
    text_eq, view_all, view_option, without_leading,
};

verus! {

// ---------------------------------------------------------------------------
// Data
// ---------------------------------------------------------------------------

#[derive(Debug)]
pub struct DeploymentConfig {
    pub schema_version: u32,
    pub configured: bool,
    pub deployment_name: String,
    pub openbao: OpenBaoConfig,
    pub identity: IdentityConfig,
    pub roots: Vec<RootConfig>,
    pub profiles: Vec<CertificateProfile>,
}

#[derive(Debug)]
pub struct OpenBaoConfig {
    pub address: Url,
    pub namespace: Option<String>,
    pub auth_mount: String,
    pub oidc_role: String,
    pub minimum_version: String,
}

/// The part of the server's description that a user may change.
#[derive(Debug)]
pub struct ServerSettings {
    pub schema_version: u32,
    pub address: Url,
    pub namespace: Option<String>,
    pub auth_mount: String,
    pub oidc_role: String,
}

#[derive(Debug)]
pub struct IdentityConfig {
    pub display_claim: String,
    pub subject_claim: String,
}

#[derive(Debug)]
pub struct RootConfig {
    pub id: String,
    pub pem: String,
    pub sha256: String,
    pub refresh_path: Option<String>,
}

#[derive(Debug)]
pub struct CertificateProfile {
    pub id: String,
    pub label: String,
    pub description: String,
    pub purpose: CertificatePurpose,
    pub pki_mount: String,
    pub pki_role: String,
    pub subject_claim: String,
    pub san_claim: Option<String>,
    pub destination_store: String,
    pub key_algorithm: String,
    pub expected_eku_oids: Vec<String>,
}

#[derive(Clone, Copy, Debug, PartialEq, Eq, Structural)]
pub enum CertificatePurpose {
    Mtls,
    DocumentSigning,
    CodeSigning,
}

#[verifier::ext_equal]
pub struct DeploymentView {
    pub schema_version: u32,
    pub configured: bool,
    pub deployment_name: Seq<char>,
    pub openbao: OpenBaoView,
    pub identity: IdentityView,
    pub roots: Seq<RootView>,
    pub profiles: Seq<ProfileView>,
}

#[verifier::ext_equal]
pub struct OpenBaoView {
    pub address: UrlView,
    pub namespace: Option<Seq<char>>,
    pub auth_mount: Seq<char>,
    pub oidc_role: Seq<char>,
    pub minimum_version: Seq<char>,
}

#[verifier::ext_equal]
pub struct SettingsView {
    pub schema_version: u32,
    pub address: UrlView,
    pub namespace: Option<Seq<char>>,
    pub auth_mount: Seq<char>,
    pub oidc_role: Seq<char>,
}

#[verifier::ext_equal]
pub struct IdentityView {
    pub display_claim: Seq<char>,
    pub subject_claim: Seq<char>,
}

#[verifier::ext_equal]
pub struct RootView {
    pub id: Seq<char>,
    pub pem: Seq<char>,
    pub sha256: Seq<char>,
    pub refresh_path: Option<Seq<char>>,
}

#[verifier::ext_equal]
pub struct ProfileView {
    pub id: Seq<char>,
    pub label: Seq<char>,
    pub description: Seq<char>,
    pub purpose: CertificatePurpose,
    pub pki_mount: Seq<char>,
    pub pki_role: Seq<char>,
    pub subject_claim: Seq<char>,
    pub san_claim: Option<Seq<char>>,
    pub destination_store: Seq<char>,
    pub key_algorithm: Seq<char>,
    pub expected_eku_oids: Seq<Seq<char>>,
}

impl View for DeploymentConfig {
    type V = DeploymentView;

    open spec fn view(&self) -> DeploymentView {
        DeploymentView {
            schema_version: self.schema_version,
            configured: self.configured,
            deployment_name: self.deployment_name@,
            openbao: self.openbao@,
            identity: self.identity@,
            roots: view_roots(self.roots@),
            profiles: view_profiles(self.profiles@),
        }
    }
}

impl View for OpenBaoConfig {
    type V = OpenBaoView;

    open spec fn view(&self) -> OpenBaoView {
        OpenBaoView {
            address: self.address@,
            namespace: view_option(self.namespace),
            auth_mount: self.auth_mount@,
            oidc_role: self.oidc_role@,
            minimum_version: self.minimum_version@,
        }
    }
}

impl View for ServerSettings {
    type V = SettingsView;

    open spec fn view(&self) -> SettingsView {
        SettingsView {
            schema_version: self.schema_version,
            address: self.address@,
            namespace: view_option(self.namespace),
            auth_mount: self.auth_mount@,
            oidc_role: self.oidc_role@,
        }
    }
}

impl View for IdentityConfig {
    type V = IdentityView;

    open spec fn view(&self) -> IdentityView {
        IdentityView { display_claim: self.display_claim@, subject_claim: self.subject_claim@ }
    }
}

impl View for RootConfig {
    type V = RootView;

    open spec fn view(&self) -> RootView {
        RootView {
            id: self.id@,
            pem: self.pem@,
            sha256: self.sha256@,
            refresh_path: view_option(self.refresh_path),
        }
    }
}

impl View for CertificateProfile {
    type V = ProfileView;

    open spec fn view(&self) -> ProfileView {
        ProfileView {
            id: self.id@,
            label: self.label@,
            description: self.description@,
            purpose: self.purpose,
            pki_mount: self.pki_mount@,
            pki_role: self.pki_role@,
            subject_claim: self.subject_claim@,
            san_claim: view_option(self.san_claim),
            destination_store: self.destination_store@,
            key_algorithm: self.key_algorithm@,
            expected_eku_oids: view_all(self.expected_eku_oids@),
        }
    }
}

pub open spec fn view_roots(roots: Seq<RootConfig>) -> Seq<RootView> {
    Seq::new(roots.len(), |i: int| roots[i]@)
}

pub open spec fn view_profiles(profiles: Seq<CertificateProfile>) -> Seq<ProfileView> {
    Seq::new(profiles.len(), |i: int| profiles[i]@)
}

impl Clone for OpenBaoConfig {
    fn clone(&self) -> (r: OpenBaoConfig)
        ensures
            r == *self,
    {
        OpenBaoConfig {
            address: self.address.clone(),
            namespace: self.namespace.clone(),
            auth_mount: self.auth_mount.clone(),
            oidc_role: self.oidc_role.clone(),
            minimum_version: self.minimum_version.clone(),
        }
    }
}

impl Clone for ServerSettings {
    fn clone(&self) -> (r: ServerSettings)
        ensures
            r == *self,
    {
        ServerSettings {
            schema_version: self.schema_version,
            address: self.address.clone(),
            namespace: self.namespace.clone(),
            auth_mount: self.auth_mount.clone(),
            oidc_role: self.oidc_role.clone(),
        }
    }
}

impl Clone for IdentityConfig {
    fn clone(&self) -> (r: IdentityConfig)
        ensures
            r == *self,
    {
        IdentityConfig {
            display_claim: self.display_claim.clone(),
            subject_claim: self.subject_claim.clone(),
        }
    }
}

impl Clone for RootConfig {
    fn clone(&self) -> (r: RootConfig)
        ensures
            r == *self,
    {
        RootConfig {
            id: self.id.clone(),
            pem: self.pem.clone(),
            sha256: self.sha256.clone(),
            refresh_path: self.refresh_path.clone(),
        }
    }
}

impl Clone for CertificateProfile {
    fn clone(&self) -> (r: CertificateProfile)
        ensures
            r@ == self@,
    {
        let expected_eku_oids: Vec<String> = self.expected_eku_oids.clone();
        assert(view_all(expected_eku_oids@) =~= view_all(self.expected_eku_oids@));
        CertificateProfile {
            id: self.id.clone(),
            label: self.label.clone(),
            description: self.description.clone(),
            purpose: self.purpose,
            pki_mount: self.pki_mount.clone(),
            pki_role: self.pki_role.clone(),
            subject_claim: self.subject_claim.clone(),
            san_claim: self.san_claim.clone(),
            destination_store: self.destination_store.clone(),
            key_algorithm: self.key_algorithm.clone(),
            expected_eku_oids,
        }
    }
}

impl Clone for DeploymentConfig {
    fn clone(&self) -> (r: DeploymentConfig)
        ensures
            r@ == self@,
    {
        let roots: Vec<RootConfig> = self.roots.clone();
        let profiles: Vec<CertificateProfile> = self.profiles.clone();
        assert(view_roots(roots@) =~= view_roots(self.roots@));
        assert(view_profiles(profiles@) =~= view_profiles(self.profiles@));
        DeploymentConfig {
            schema_version: self.schema_version,
            configured: self.configured,
            deployment_name: self.deployment_name.clone(),
            openbao: self.openbao.clone(),
            identity: self.identity.clone(),
            roots,
            profiles,
        }
    }
}

impl From<&OpenBaoConfig> for ServerSettings {
    fn from(value: &OpenBaoConfig) -> (r: ServerSettings) {
        ServerSettings {
            schema_version: 1,
            address: value.address.clone(),
            namespace: value.namespace.clone(),
            auth_mount: value.auth_mount.clone(),
            oidc_role: value.oidc_role.clone(),
        }
    }
}

impl vstd::std_specs::convert::FromSpecImpl<&OpenBaoConfig> for ServerSettings {
    open spec fn obeys_from_spec() -> bool {
        true
    }

    open spec fn from_spec(value: &OpenBaoConfig) -> ServerSettings {
        ServerSettings {
            schema_version: 1,
            address: value.address,
            namespace: value.namespace,
            auth_mount: value.auth_mount,
            oidc_role: value.oidc_role,
        }
    }
}

// ---------------------------------------------------------------------------
// Purposes
// ---------------------------------------------------------------------------

impl CertificatePurpose {
    pub open spec fn label_text(self) -> Seq<char> {
        match self {
            CertificatePurpose::Mtls => "mTLS"@,
            CertificatePurpose::DocumentSigning => "document signing"@,
            CertificatePurpose::CodeSigning => "code signing"@,
        }
    }

    /// The extended key usage without which a certificate cannot serve the
    /// purpose.
    pub open spec fn eku_oid(self) -> Seq<char> {
        match self {
            CertificatePurpose::Mtls => "1.3.6.1.5.5.7.3.2"@,
            CertificatePurpose::DocumentSigning => "1.3.6.1.4.1.311.10.3.12"@,
            CertificatePurpose::CodeSigning => "1.3.6.1.5.5.7.3.3"@,
        }
    }

    pub fn label(&self) -> (r: &'static str)
        ensures
            r@ == self.label_text(),
    {
        match self {
            CertificatePurpose::Mtls => "mTLS",
            CertificatePurpose::DocumentSigning => "document signing",
            CertificatePurpose::CodeSigning => "code signing",
        }
    }

    pub fn required_eku_oid(&self) -> (r: &'static str)
        ensures
            r@ == self.eku_oid(),
    {
        match self {
            CertificatePurpose::Mtls => "1.3.6.1.5.5.7.3.2",
            CertificatePurpose::DocumentSigning => "1.3.6.1.4.1.311.10.3.12",
            CertificatePurpose::CodeSigning => "1.3.6.1.5.5.7.3.3",
        }
    }
}

// ---------------------------------------------------------------------------
// Identifiers and paths
// ---------------------------------------------------------------------------

/// Every character is an ASCII letter, an ASCII digit or one of `extra`.
pub open spec fn made_of(s: Seq<char>, extra: Seq<char>) -> bool {
    forall|i: int| 0 <= i < s.len() ==> is_alphanumeric(#[trigger] s[i]) || extra.contains(s[i])
}

/// A mount, a role or an identifier.
pub open spec fn is_segment(s: Seq<char>) -> bool {
    s.len() > 0 && made_of(s, "-_"@)
}

/// The name of a claim.
pub open spec fn is_claim(s: Seq<char>) -> bool {
    s.len() > 0 && made_of(s, "-_."@)
}

/// A relative path below the API's root.
pub open spec fn is_api_path(s: Seq<char>) -> bool {
    s.len() > 0 && s[0] != '/' && made_of(s, "-_/"@)
}

fn is_among(chars: &Vec<char>, c: char) -> (r: bool)
    ensures
        r == chars@.contains(c),
{
    let mut i: usize = 0;
    while i < chars.len()
        invariant
            0 <= i <= chars@.len(),
            forall|k: int| 0 <= k < i ==> chars@[k] != c,
        decreases chars@.len() - i,
    {
        if chars[i] == c {
            return true;
        }
        i += 1;
    }
    false
}

fn all_of(value: &str, extra: &str) -> (r: bool)
    ensures
        r == made_of(value@, extra@),
{
    let chars: Vec<char> = chars_of(value);
    let others: Vec<char> = chars_of(extra);
    let mut i: usize = 0;
    while i < chars.len()
        invariant
            chars@ == value@,
            others@ == extra@,
            0 <= i <= chars@.len(),
            forall|k: int|
                0 <= k < i ==> is_alphanumeric(#[trigger] value@[k]) || extra@.contains(value@[k]),
        decreases chars@.len() - i,
    {
        if !alphanumeric(chars[i]) && !is_among(&others, chars[i]) {
            return false;
        }
        i += 1;
    }
    true
}

/// The first of two problems.
pub open spec fn either(first: Option<Seq<char>>, second: Option<Seq<char>>) -> Option<Seq<char>> {
    if first is Some {
        first
    } else {
        second
    }
}

/// The problem, where there is one.
pub open spec fn problem(present: bool, message: Seq<char>) -> Option<Seq<char>> {
    if present {
        Some(message)
    } else {
        None
    }
}

/// A problem as the outcome of a check.
pub open spec fn verdict(found: Option<Seq<char>>) -> Result<(), ErrorView> {
    match found {
        Some(message) => Err(ErrorView::Configuration(message)),
        None => Ok(()),
    }
}

pub open spec fn segment_problem(name: Seq<char>, value: Seq<char>) -> Option<Seq<char>> {
    problem(!is_segment(value), name + " must contain only letters, numbers, '-' or '_'"@)
}

pub open spec fn claim_problem(name: Seq<char>, value: Seq<char>) -> Option<Seq<char>> {
    problem(!is_claim(value), name + " contains unsupported characters"@)
}

pub open spec fn api_path_problem(name: Seq<char>, value: Seq<char>) -> Option<Seq<char>> {
    problem(!is_api_path(value), name + " is not a safe relative API path"@)
}

fn given(found: Option<String>) -> (r: AppResult<()>)
    ensures
        outcome(r) == verdict(view_option(found)),
{
    match found {
        Some(message) => Err(AppError::Configuration(message)),
        None => Ok(()),
    }
}

fn segment_fault(name: &str, value: &str) -> (r: Option<String>)
    ensures
        view_option(r) == segment_problem(name@, value@),
{
    if chars_of(value).len() > 0 && all_of(value, "-_") {
        None
    } else {
        Some(concat2(name, " must contain only letters, numbers, '-' or '_'"))
    }
}

fn claim_fault(name: &str, value: &str) -> (r: Option<String>)
    ensures
        view_option(r) == claim_problem(name@, value@),
{
    if chars_of(value).len() > 0 && all_of(value, "-_.") {
        None
    } else {
        Some(concat2(name, " contains unsupported characters"))
    }
}

fn api_path_fault(name: &str, value: &str) -> (r: Option<String>)
    ensures
        view_option(r) == api_path_problem(name@, value@),
{
    let chars: Vec<char> = chars_of(value);
    if chars.len() > 0 && chars[0] != '/' && all_of(value, "-_/") {
        None
    } else {
        Some(concat2(name, " is not a safe relative API path"))
    }
}

pub fn validate_segment(name: &str, value: &str) -> (r: AppResult<()>)
    ensures
        outcome(r) == verdict(segment_problem(name@, value@)),
{
    given(segment_fault(name, value))
}

pub fn validate_claim(name: &str, value: &str) -> (r: AppResult<()>)
    ensures
        outcome(r) == verdict(claim_problem(name@, value@)),
{
    given(claim_fault(name, value))
}

pub fn validate_id(name: &str, value: &str) -> (r: AppResult<()>)
    ensures
        outcome(r) == verdict(segment_problem(name@, value@)),
{
    validate_segment(name, value)
}

pub fn validate_api_path(name: &str, value: &str) -> (r: AppResult<()>)
    ensures
        outcome(r) == verdict(api_path_problem(name@, value@)),
{
    given(api_path_fault(name, value))
}

/// A safe path holds no way out of the API's root, no query and no fragment.
pub proof fn law_api_path_stays_below_root(s: Seq<char>)
    requires
        is_api_path(s),
    ensures
        !crate::text::contains(s, ".."@),
        !s.contains('?'),
        !s.contains('#'),
        s[0] != '/',
{
    reveal_strlit("-_/");
    reveal_strlit("..");
    if crate::text::contains(s, ".."@) {
        let i = choose|i: int| crate::text::occurs_at(s, ".."@, i);
        assert(s.subrange(i, i + 2)[0] == '.');
        assert(s[i] == '.');
    }
}

/// Compares the texts byte by byte without stopping at the first difference.
pub fn constant_time_text_eq(a: &str, b: &str) -> (r: bool)
    ensures
        r == (a@ == b@),
{
    broadcast use vstd::utf8::encode_utf8_decode_utf8;

    let x: &[u8] = a.as_bytes();
    let y: &[u8] = b.as_bytes();
    if x.len() != y.len() {
        return false;
    }
    let mut diff: u8 = 0;
    let mut i: usize = 0;
    while i < x.len()
        invariant
            0 <= i <= x@.len(),
            x@.len() == y@.len(),
            (diff == 0) == (forall|k: int| 0 <= k < i ==> x@[k] == y@[k]),
        decreases x@.len() - i,
    {
        let p: u8 = x[i];
        let q: u8 = y[i];
        let before: u8 = diff;
        diff = before | (p ^ q);
        assert((before | (p ^ q)) == 0 <==> before == 0 && p == q) by (bit_vector);
        i += 1;
    }
    if diff == 0 {
        assert(x@ =~= y@);
        assert(vstd::utf8::decode_utf8(encode_utf8(a@)) == a@);
        assert(vstd::utf8::decode_utf8(encode_utf8(b@)) == b@);
    }
    diff == 0
}

// ---------------------------------------------------------------------------
// Validation
// ---------------------------------------------------------------------------

/// An origin that is reached over HTTPS and carries no credentials.
pub open spec fn is_https_origin(url: UrlView) -> bool {
    &&& url.scheme == "https"@
    &&& url.username.len() == 0
    &&& url.password is None
    &&& url.host is Some
    &&& url.query is None
    &&& url.fragment is None
    &&& url.path == ""@ || url.path == "/"@
}

/// A namespace of one to 256 bytes without control characters.
pub open spec fn is_namespace(s: Seq<char>) -> bool {
    &&& 0 < s.len()
    &&& encode_utf8(s).len() <= 256
    &&& forall|i: int| 0 <= i < s.len() ==> !is_control(#[trigger] s[i])
}

pub open spec fn address_problem(url: UrlView) -> Option<Seq<char>> {
    either(
        problem(url.scheme != "https"@, "OpenBao address must use HTTPS"@),
        either(
            problem(
                url.username.len() > 0 || url.password is Some,
                "OpenBao address must not contain credentials"@,
            ),
            problem(
                url.host is None || url.query is Some || url.fragment is Some || (url.path != ""@
                    && url.path != "/"@),
                "OpenBao address must be an HTTPS origin without a path, query, or fragment"@,
            ),
        ),
    )
}

pub open spec fn namespace_problem(namespace: Option<Seq<char>>) -> Option<Seq<char>> {
    problem(
        namespace is Some && !is_namespace(namespace->Some_0),
        "OpenBao namespace is empty, too long, or contains control characters"@,
    )
}

pub open spec fn server_problem(server: OpenBaoView) -> Option<Seq<char>> {
    either(
        address_problem(server.address),
        either(
            namespace_problem(server.namespace),
            either(
                segment_problem("auth_mount"@, server.auth_mount),
                segment_problem("oidc_role"@, server.oidc_role),
            ),
        ),
    )
}

pub open spec fn identity_problem(identity: IdentityView) -> Option<Seq<char>> {
    either(
        claim_problem("display_claim"@, identity.display_claim),
        claim_problem("subject_claim"@, identity.subject_claim),
    )
}

/// A root with the same identifier stands before this one.
pub open spec fn root_repeats(roots: Seq<RootView>, i: int) -> bool {
    exists|j: int| 0 <= j < i && (#[trigger] roots[j]).id == roots[i].id
}

/// What is wrong with a root whose text holds `block`, where it holds one, and
/// whose fingerprint is the given one.
pub open spec fn root_pem_problem(
    root: RootView,
    block: Option<PemView>,
    fingerprint: Seq<char>,
) -> Option<Seq<char>> {
    match block {
        None => Some("root "@ + root.id + " is not valid PEM"@),
        Some(block) => either(
            problem(
                block.tag != "CERTIFICATE"@,
                "root "@ + root.id + " must contain a CERTIFICATE PEM block"@,
            ),
            problem(
                fingerprint != lower(root.sha256),
                "root "@ + root.id + " fingerprint does not match its DER"@,
            ),
        ),
    }
}

pub open spec fn root_problem(roots: Seq<RootView>, i: int) -> Option<Seq<char>> {
    let root = roots[i];
    let block = parsed_pem(root.pem);
    either(
        problem(root_repeats(roots, i), "duplicate root id "@ + root.id),
        either(
            segment_problem("root id"@, root.id),
            either(
                match root.refresh_path {
                    Some(path) => api_path_problem("root refresh_path"@, path),
                    None => None,
                },
                root_pem_problem(root, block, sha256_fingerprint(block->Some_0.contents)),
            ),
        ),
    )
}

/// The first problem among the first `n` roots.
pub open spec fn roots_problem(roots: Seq<RootView>, n: nat) -> Option<Seq<char>>
    decreases n,
{
    if n == 0 {
        None
    } else {
        either(roots_problem(roots, (n - 1) as nat), root_problem(roots, n - 1))
    }
}

/// A profile with the same identifier stands before this one.
pub open spec fn profile_repeats(profiles: Seq<ProfileView>, i: int) -> bool {
    exists|j: int| 0 <= j < i && (#[trigger] profiles[j]).id == profiles[i].id
}

pub open spec fn profile_problem(profiles: Seq<ProfileView>, i: int) -> Option<Seq<char>> {
    let profile = profiles[i];
    either(
        problem(profile_repeats(profiles, i), "duplicate profile id "@ + profile.id),
        either(
            segment_problem("profile id"@, profile.id),
            either(
                segment_problem("pki_mount"@, profile.pki_mount),
                either(
                    segment_problem("pki_role"@, profile.pki_role),
                    either(
                        claim_problem("profile subject_claim"@, profile.subject_claim),
                        either(
                            match profile.san_claim {
                                Some(claim) => claim_problem("profile san_claim"@, claim),
                                None => None,
                            },
                            either(
                                problem(
                                    profile.destination_store != "My"@ || profile.key_algorithm
                                        != "rsa-3072"@,
                                    "profile "@ + profile.id + " must use My and rsa-3072 in v1"@,
                                ),
                                problem(
                                    !profile.expected_eku_oids.contains(profile.purpose.eku_oid()),
                                    "profile "@ + profile.id + " is missing required EKU "@
                                        + profile.purpose.eku_oid(),
                                ),
                            ),
                        ),
                    ),
                ),
            ),
        ),
    )
}

/// The first problem among the first `n` profiles.
pub open spec fn profiles_problem(profiles: Seq<ProfileView>, n: nat) -> Option<Seq<char>>
    decreases n,
{
    if n == 0 {
        None
    } else {
        either(profiles_problem(profiles, (n - 1) as nat), profile_problem(profiles, n - 1))
    }
}

/// The first thing that is wrong with a deployment.
pub open spec fn deployment_problem(d: DeploymentView) -> Option<Seq<char>> {
    either(
        problem(d.schema_version != 1, "schema_version must be 1"@),
        either(
            problem(is_blank(d.deployment_name), "deployment_name is required"@),
            either(
                server_problem(d.openbao),
                either(
                    identity_problem(d.identity),
                    either(
                        problem(
                            d.configured && d.roots.len() == 0,
                            "a configured deployment must embed at least one root"@,
                        ),
                        either(
                            roots_problem(d.roots, d.roots.len()),
                            profiles_problem(d.profiles, d.profiles.len()),
                        ),
                    ),
                ),
            ),
        ),
    )
}

/// A root whose PEM holds a certificate with the fingerprint beside it.
pub open spec fn is_valid_root(root: RootView) -> bool {
    &&& is_segment(root.id)
    &&& root.refresh_path is Some ==> is_api_path(root.refresh_path->Some_0)
    &&& parsed_pem(root.pem) matches Some(block) && block.tag == "CERTIFICATE"@
        && sha256_fingerprint(block.contents) == lower(root.sha256)
}

/// A profile that asks for a key the client can make and for the usage that
/// its purpose needs.
pub open spec fn is_valid_profile(profile: ProfileView) -> bool {
    &&& is_segment(profile.id)
    &&& is_segment(profile.pki_mount)
    &&& is_segment(profile.pki_role)
    &&& is_claim(profile.subject_claim)
    &&& profile.san_claim is Some ==> is_claim(profile.san_claim->Some_0)
    &&& profile.destination_store == "My"@
    &&& profile.key_algorithm == "rsa-3072"@
    &&& profile.expected_eku_oids.contains(profile.purpose.eku_oid())
}

/// A server description that a client may talk to.
pub open spec fn is_valid_server(server: OpenBaoView) -> bool {
    &&& is_https_origin(server.address)
    &&& server.namespace is Some ==> is_namespace(server.namespace->Some_0)
    &&& is_segment(server.auth_mount)
    &&& is_segment(server.oidc_role)
}

/// What a deployment must be.
pub open spec fn is_valid_deployment(d: DeploymentView) -> bool {
    &&& d.schema_version == 1
    &&& !is_blank(d.deployment_name)
    &&& is_valid_server(d.openbao)
    &&& is_claim(d.identity.display_claim)
    &&& is_claim(d.identity.subject_claim)
    &&& d.configured ==> d.roots.len() > 0
    &&& forall|i: int| 0 <= i < d.roots.len() ==> is_valid_root(#[trigger] d.roots[i])
    &&& forall|i: int, j: int|
        0 <= i < j < d.roots.len() ==> (#[trigger] d.roots[i]).id != (#[trigger] d.roots[j]).id
    &&& forall|i: int| 0 <= i < d.profiles.len() ==> is_valid_profile(#[trigger] d.profiles[i])
    &&& forall|i: int, j: int|
        0 <= i < j < d.profiles.len() ==> (#[trigger] d.profiles[i]).id
            != (#[trigger] d.profiles[j]).id
}

proof fn lemma_roots_problem(roots: Seq<RootView>, n: nat)
    requires
        n <= roots.len(),
    ensures
        roots_problem(roots, n) is None <==> (forall|i: int|
            0 <= i < n ==> is_valid_root(#[trigger] roots[i]) && !root_repeats(roots, i)),
    decreases n,
{
    if n > 0 {
        lemma_roots_problem(roots, (n - 1) as nat);
        let last = roots[n - 1];
        assert(root_problem(roots, n - 1) is None <==> is_valid_root(last) && !root_repeats(
            roots,
            n - 1,
        ));
    }
}

proof fn lemma_profiles_problem(profiles: Seq<ProfileView>, n: nat)
    requires
        n <= profiles.len(),
    ensures
        profiles_problem(profiles, n) is None <==> (forall|i: int|
            0 <= i < n ==> is_valid_profile(#[trigger] profiles[i]) && !profile_repeats(
                profiles,
                i,
            )),
    decreases n,
{
    if n > 0 {
        lemma_profiles_problem(profiles, (n - 1) as nat);
        let last = profiles[n - 1];
        assert(profile_problem(profiles, n - 1) is None <==> is_valid_profile(last)
            && !profile_repeats(profiles, n - 1));
    }
}

/// Nothing is wrong with a deployment exactly when it is a valid one.
pub proof fn law_valid_deployments_have_no_problem(d: DeploymentView)
    ensures
        deployment_problem(d) is None <==> is_valid_deployment(d),
{
    lemma_roots_problem(d.roots, d.roots.len());
    lemma_profiles_problem(d.profiles, d.profiles.len());
    assert(server_problem(d.openbao) is None <==> is_valid_server(d.openbao)) by {
        reveal_strlit("");
    }
    if is_valid_deployment(d) {
        assert(forall|i: int| 0 <= i < d.roots.len() ==> !root_repeats(d.roots, i));
        assert(forall|i: int| 0 <= i < d.profiles.len() ==> !profile_repeats(d.profiles, i));
    }
    if deployment_problem(d) is None {
        assert forall|i: int, j: int| 0 <= i < j < d.roots.len() implies (#[trigger] d.roots[i]).id
            != (#[trigger] d.roots[j]).id by {
            assert(!root_repeats(d.roots, j));
        }
        assert forall|i: int, j: int| 0 <= i < j < d.profiles.len() implies (
        #[trigger] d.profiles[i]).id != (#[trigger] d.profiles[j]).id by {
            assert(!profile_repeats(d.profiles, j));
        }
    }
}

fn address_fault(url: &Url) -> (r: Option<String>)
    ensures
        view_option(r) == address_problem(url@),
{
    if !text_eq(url.scheme.as_str(), "https") {
        return Some("OpenBao address must use HTTPS".to_owned());
    }
    if chars_of(url.username.as_str()).len() > 0 || url.password.is_some() {
        return Some("OpenBao address must not contain credentials".to_owned());
    }
    if url.host.is_none() || url.query.is_some() || url.fragment.is_some() || !(text_eq(
        url.path.as_str(),
        "",
    ) || text_eq(url.path.as_str(), "/")) {
        return Some(
            "OpenBao address must be an HTTPS origin without a path, query, or fragment".to_owned(),
        );
    }
    None
}

fn namespace_allowed(namespace: &str) -> (r: bool)
    ensures
        r == is_namespace(namespace@),
{
    let chars: Vec<char> = chars_of(namespace);
    if chars.len() == 0 || byte_len(namespace) > 256 {
        return false;
    }
    let mut i: usize = 0;
    while i < chars.len()
        invariant
            chars@ == namespace@,
            0 <= i <= chars@.len(),
            forall|k: int| 0 <= k < i ==> !is_control(#[trigger] namespace@[k]),
        decreases chars@.len() - i,
    {
        if control(chars[i]) {
            return false;
        }
        i += 1;
    }
    true
}

fn server_fault(server: &OpenBaoConfig) -> (r: Option<String>)
    ensures
        view_option(r) == server_problem(server@),
{
    let found: Option<String> = address_fault(&server.address);
    if found.is_some() {
        return found;
    }
    if let Some(namespace) = &server.namespace {
        if !namespace_allowed(namespace.as_str()) {
            return Some(
                "OpenBao namespace is empty, too long, or contains control characters".to_owned(),
            );
        }
    }
    let found: Option<String> = segment_fault("auth_mount", server.auth_mount.as_str());
    if found.is_some() {
        return found;
    }
    segment_fault("oidc_role", server.oidc_role.as_str())
}

fn identity_fault(identity: &IdentityConfig) -> (r: Option<String>)
    ensures
        view_option(r) == identity_problem(identity@),
{
    let found: Option<String> = claim_fault("display_claim", identity.display_claim.as_str());
    if found.is_some() {
        return found;
    }
    claim_fault("subject_claim", identity.subject_claim.as_str())
}

fn root_repeated(roots: &Vec<RootConfig>, i: usize) -> (r: bool)
    requires
        i < roots@.len(),
    ensures
        r == root_repeats(view_roots(roots@), i as int),
{
    let mut j: usize = 0;
    while j < i
        invariant
            0 <= j <= i < roots@.len(),
            forall|k: int| 0 <= k < j ==> (#[trigger] view_roots(roots@)[k]).id != roots@[i as int].id@,
        decreases i - j,
    {
        if text_eq(roots[j].id.as_str(), roots[i].id.as_str()) {
            assert(view_roots(roots@)[j as int].id == view_roots(roots@)[i as int].id);
            return true;
        }
        j += 1;
    }
    false
}

/// What is wrong with a root whose text holds `block`, where it holds one, and
/// whose fingerprint is the given one.
pub fn root_pem_fault(root: &RootConfig, block: &Option<PemBlock>, fingerprint: &str) -> (r: Option<
    String,
>)
    ensures
        view_option(r) == root_pem_problem(root@, view_block(*block), fingerprint@),
{
    let id: &str = root.id.as_str();
    let block: &PemBlock = match block {
        Some(block) => block,
        None => return Some(concat3("root ", id, " is not valid PEM")),
    };
    if !text_eq(block.tag.as_str(), "CERTIFICATE") {
        return Some(concat3("root ", id, " must contain a CERTIFICATE PEM block"));
    }
    let expected: String = lowercase(root.sha256.as_str());
    if !constant_time_text_eq(fingerprint, expected.as_str()) {
        return Some(concat3("root ", id, " fingerprint does not match its DER"));
    }
    None
}

fn root_fault(roots: &Vec<RootConfig>, i: usize) -> (r: Option<String>)
    requires
        i < roots@.len(),
    ensures
        view_option(r) == root_problem(view_roots(roots@), i as int),
{
    let root: &RootConfig = &roots[i];
    let id: &str = root.id.as_str();
    if root_repeated(roots, i) {
        return Some(concat2("duplicate root id ", id));
    }
    let found: Option<String> = segment_fault("root id", id);
    if found.is_some() {
        return found;
    }
    if let Some(path) = &root.refresh_path {
        let found: Option<String> = api_path_fault("root refresh_path", path.as_str());
        if found.is_some() {
            return found;
        }
    }
    let block: Option<PemBlock> = parse_pem(root.pem.as_str());
    let fingerprint: String = match &block {
        Some(block) => fingerprint_of(block.contents.as_slice()),
        None => "".to_owned(),
    };
    root_pem_fault(root, &block, fingerprint.as_str())
}

fn roots_fault(roots: &Vec<RootConfig>) -> (r: Option<String>)
    ensures
        view_option(r) == roots_problem(view_roots(roots@), roots@.len()),
{
    let mut i: usize = 0;
    while i < roots.len()
        invariant
            0 <= i <= roots@.len(),
            roots_problem(view_roots(roots@), i as nat) is None,
        decreases roots@.len() - i,
    {
        let found: Option<String> = root_fault(roots, i);
        if found.is_some() {
            proof {
                lemma_roots_problem_stays(
                    view_roots(roots@),
                    (i + 1) as nat,
                    roots@.len(),
                );
            }
            return found;
        }
        i += 1;
    }
    None
}

proof fn lemma_roots_problem_stays(roots: Seq<RootView>, m: nat, n: nat)
    requires
        m <= n,
        roots_problem(roots, m) is Some,
    ensures
        roots_problem(roots, n) == roots_problem(roots, m),
    decreases n,
{
    if m < n {
        lemma_roots_problem_stays(roots, m, (n - 1) as nat);
    }
}

fn profile_repeated(profiles: &Vec<CertificateProfile>, i: usize) -> (r: bool)
    requires
        i < profiles@.len(),
    ensures
        r == profile_repeats(view_profiles(profiles@), i as int),
{
    let mut j: usize = 0;
    while j < i
        invariant
            0 <= j <= i < profiles@.len(),
            forall|k: int|
                0 <= k < j ==> (#[trigger] view_profiles(profiles@)[k]).id
                    != profiles@[i as int].id@,
        decreases i - j,
    {
        if text_eq(profiles[j].id.as_str(), profiles[i].id.as_str()) {
            assert(view_profiles(profiles@)[j as int].id == view_profiles(profiles@)[i as int].id);
            return true;
        }
        j += 1;
    }
    false
}

fn profile_fault(profiles: &Vec<CertificateProfile>, i: usize) -> (r: Option<String>)
    requires
        i < profiles@.len(),
    ensures
        view_option(r) == profile_problem(view_profiles(profiles@), i as int),
{
    let profile: &CertificateProfile = &profiles[i];
    let id: &str = profile.id.as_str();
    if profile_repeated(profiles, i) {
        return Some(concat2("duplicate profile id ", id));
    }
    let found: Option<String> = segment_fault("profile id", id);
    if found.is_some() {
        return found;
    }
    let found: Option<String> = segment_fault("pki_mount", profile.pki_mount.as_str());
    if found.is_some() {
        return found;
    }
    let found: Option<String> = segment_fault("pki_role", profile.pki_role.as_str());
    if found.is_some() {
        return found;
    }
    let found: Option<String> = claim_fault(
        "profile subject_claim",
        profile.subject_claim.as_str(),
    );
    if found.is_some() {
        return found;
    }
    if let Some(claim) = &profile.san_claim {
        let found: Option<String> = claim_fault("profile san_claim", claim.as_str());
        if found.is_some() {
            return found;
        }
    }
    if !text_eq(profile.destination_store.as_str(), "My") || !text_eq(
        profile.key_algorithm.as_str(),
        "rsa-3072",
    ) {
        return Some(concat3("profile ", id, " must use My and rsa-3072 in v1"));
    }
    let required: &str = profile.purpose.required_eku_oid();
    if !list_includes(&profile.expected_eku_oids, required) {
        return Some(concat4("profile ", id, " is missing required EKU ", required));
    }
    None
}

fn profiles_fault(profiles: &Vec<CertificateProfile>) -> (r: Option<String>)
    ensures
        view_option(r) == profiles_problem(view_profiles(profiles@), profiles@.len()),
{
    let mut i: usize = 0;
    while i < profiles.len()
        invariant
            0 <= i <= profiles@.len(),
            profiles_problem(view_profiles(profiles@), i as nat) is None,
        decreases profiles@.len() - i,
    {
        let found: Option<String> = profile_fault(profiles, i);
        if found.is_some() {
            proof {
                lemma_profiles_problem_stays(
                    view_profiles(profiles@),
                    (i + 1) as nat,
                    profiles@.len(),
                );
            }
            return found;
        }
        i += 1;
    }
    None
}

proof fn lemma_profiles_problem_stays(profiles: Seq<ProfileView>, m: nat, n: nat)
    requires
        m <= n,
        profiles_problem(profiles, m) is Some,
    ensures
        profiles_problem(profiles, n) == profiles_problem(profiles, m),
    decreases n,
{
    if m < n {
        lemma_profiles_problem_stays(profiles, m, (n - 1) as nat);
    }
}

impl DeploymentConfig {
    fn fault(&self) -> (r: Option<String>)
        ensures
            view_option(r) == deployment_problem(self@),
    {
        if self.schema_version != 1 {
            return Some("schema_version must be 1".to_owned());
        }
        if blank(self.deployment_name.as_str()) {
            return Some("deployment_name is required".to_owned());
        }
        let found: Option<String> = server_fault(&self.openbao);
        if found.is_some() {
            return found;
        }
        let found: Option<String> = identity_fault(&self.identity);
        if found.is_some() {
            return found;
        }
        if self.configured && self.roots.len() == 0 {
            return Some("a configured deployment must embed at least one root".to_owned());
        }
        let found: Option<String> = roots_fault(&self.roots);
        if found.is_some() {
            return found;
        }
        profiles_fault(&self.profiles)
    }

    /// Accepts exactly the valid deployments, and otherwise names the first
    /// thing that is wrong.
    pub fn validate(&self) -> (r: AppResult<()>)
        ensures
            outcome(r) == verdict(deployment_problem(self@)),
            r is Ok <==> is_valid_deployment(self@),
    {
        proof {
            law_valid_deployments_have_no_problem(self@);
        }
        given(self.fault())
    }
}

// ---------------------------------------------------------------------------
// Server settings
// ---------------------------------------------------------------------------

/// The deployment with the user's server in place of its own.
pub open spec fn with_settings(d: DeploymentView, settings: SettingsView) -> DeploymentView {
    DeploymentView {
        openbao: OpenBaoView {
            address: settings.address,
            namespace: settings.namespace,
            auth_mount: settings.auth_mount,
            oidc_role: settings.oidc_role,
            minimum_version: d.openbao.minimum_version,
        },
        ..d
    }
}

/// The settings that describe the deployment's own server.
pub open spec fn own_settings(server: OpenBaoView) -> SettingsView {
    SettingsView {
        schema_version: 1,
        address: server.address,
        namespace: server.namespace,
        auth_mount: server.auth_mount,
        oidc_role: server.oidc_role,
    }
}

/// What comes of putting the user's server in place of the deployment's own.
pub open spec fn settings_outcome(d: DeploymentView, settings: SettingsView) -> Result<
    (),
    ErrorView,
> {
    if settings.schema_version != 1 {
        Err(ErrorView::Configuration("server settings schema_version must be 1"@))
    } else {
        verdict(deployment_problem(with_settings(d, settings)))
    }
}

/// A user's settings change neither the trusted roots, nor the certificate
/// profiles, nor the identity claims, nor the oldest server version.
pub proof fn law_settings_keep_trust(d: DeploymentView, settings: SettingsView)
    ensures
        with_settings(d, settings).roots == d.roots,
        with_settings(d, settings).profiles == d.profiles,
        with_settings(d, settings).identity == d.identity,
        with_settings(d, settings).configured == d.configured,
        with_settings(d, settings).openbao.minimum_version == d.openbao.minimum_version,
{
}

/// In a valid deployment a user's settings are accepted exactly when they are
/// of the known schema and describe a server that the client may talk to.
pub proof fn law_settings_are_judged_by_the_server(d: DeploymentView, settings: SettingsView)
    requires
        is_valid_deployment(d),
    ensures
        settings_outcome(d, settings) is Ok <==> settings.schema_version == 1 && is_valid_server(
            with_settings(d, settings).openbao,
        ),
{
    law_valid_deployments_have_no_problem(with_settings(d, settings));
}

/// Putting a deployment's own settings in its place changes nothing.
pub proof fn law_own_settings_change_nothing(d: DeploymentView)
    ensures
        with_settings(d, own_settings(d.openbao)) == d,
{
}

/// The later settings replace the earlier ones entirely.
pub proof fn law_last_settings_win(d: DeploymentView, first: SettingsView, second: SettingsView)
    ensures
        with_settings(with_settings(d, first), second) == with_settings(d, second),
{
}

/// `ServerSettings::from` describes the server it is made from.
pub proof fn law_settings_describe_their_server(server: OpenBaoConfig)
    ensures
        <ServerSettings as vstd::std_specs::convert::FromSpec<&OpenBaoConfig>>::from_spec(
            &server,
        )@ == own_settings(server@),
{
}

impl DeploymentConfig {
    /// Puts the user's server in place of the deployment's own. Settings of an
    /// unknown schema change nothing; others take effect even where the result
    /// is then refused.
    pub fn apply_server_settings(&mut self, settings: &ServerSettings) -> (r: AppResult<()>)
        ensures
            outcome(r) == settings_outcome(old(self)@, settings@),
            final(self)@ == after_settings(old(self)@, settings@),
            final(self)@ == (if settings@.schema_version == 1 {
                with_settings(old(self)@, settings@)
            } else {
                old(self)@
            }),
    {
        if settings.schema_version != 1 {
            return Err(configuration_error("server settings schema_version must be 1"));
        }
        self.openbao.address = settings.address.clone();
        self.openbao.namespace = settings.namespace.clone();
        self.openbao.auth_mount = settings.auth_mount.clone();
        self.openbao.oidc_role = settings.oidc_role.clone();
        self.validate()
    }

    /// What `apply_server_settings` would say, with the deployment left as it
    /// is.
    pub fn validate_server_settings(&self, settings: &ServerSettings) -> (r: AppResult<()>)
        ensures
            outcome(r) == settings_outcome(self@, settings@),
    {
        let mut candidate: DeploymentConfig = self.clone();
        candidate.apply_server_settings(settings)
    }
}

// ---------------------------------------------------------------------------
// Loading
// ---------------------------------------------------------------------------

/// The user's settings file as it was found.
pub enum SavedSettings {
    Missing,
    Unreadable,
    Invalid(String),
    Read(ServerSettings),
}

#[verifier::ext_equal]
pub enum SavedView {
    Missing,
    Unreadable,
    Invalid(Seq<char>),
    Read(SettingsView),
}

impl View for SavedSettings {
    type V = SavedView;

    open spec fn view(&self) -> SavedView {
        match self {
            SavedSettings::Missing => SavedView::Missing,
            SavedSettings::Unreadable => SavedView::Unreadable,
            SavedSettings::Invalid(message) => SavedView::Invalid(message@),
            SavedSettings::Read(settings) => SavedView::Read(settings@),
        }
    }
}

/// A deployment as the parser left it: its value or the parser's message.
pub open spec fn view_parsed(parsed: Result<DeploymentConfig, String>) -> Result<
    DeploymentView,
    Seq<char>,
> {
    match parsed {
        Ok(config) => Ok(config@),
        Err(message) => Err(message@),
    }
}

/// The deployment that is built in, if it parsed and is valid.
pub open spec fn embedded_deployment(parsed: Result<DeploymentView, Seq<char>>) -> Result<
    DeploymentView,
    ErrorView,
> {
    match parsed {
        Err(message) => Err(
            ErrorView::Configuration("deployment.json is invalid: "@ + message),
        ),
        Ok(d) => match deployment_problem(d) {
            Some(message) => Err(ErrorView::Configuration(message)),
            None => Ok(d),
        },
    }
}

/// The deployment with the saved settings in effect, and whether there are
/// any.
pub open spec fn loaded_deployment(
    parsed: Result<DeploymentView, Seq<char>>,
    saved: SavedView,
) -> Result<(DeploymentView, bool), ErrorView> {
    match embedded_deployment(parsed) {
        Err(e) => Err(e),
        Ok(d) => match saved {
            SavedView::Missing => Ok((d, false)),
            SavedView::Unreadable => Err(
                ErrorView::Configuration("saved OpenBao server settings could not be read"@),
            ),
            SavedView::Invalid(message) => Err(
                ErrorView::Configuration(
                    "saved OpenBao server settings are invalid: "@ + message,
                ),
            ),
            SavedView::Read(settings) => match settings_outcome(d, settings) {
                Err(e) => Err(e),
                Ok(()) => Ok((with_settings(d, settings), true)),
            },
        },
    }
}

/// What the client starts with: saved settings that cannot be used are passed
/// over.
pub open spec fn startup_deployment(
    parsed: Result<DeploymentView, Seq<char>>,
    saved: SavedView,
) -> Result<(DeploymentView, bool), ErrorView> {
    match loaded_deployment(parsed, saved) {
        Ok(found) => Ok(found),
        Err(_) => match embedded_deployment(parsed) {
            Ok(d) => Ok((d, false)),
            Err(e) => Err(e),
        },
    }
}

/// Saved settings never keep a client with a valid deployment from starting,
/// and whatever it starts with is a valid deployment with the built-in roots
/// and profiles.
pub proof fn law_startup_is_safe(d: DeploymentView, saved: SavedView)
    requires
        is_valid_deployment(d),
    ensures
        startup_deployment(Ok::<DeploymentView, Seq<char>>(d), saved) matches Ok((started, _))
            && is_valid_deployment(started) && started.roots == d.roots && started.profiles
            == d.profiles,
{
    law_valid_deployments_have_no_problem(d);
    if let SavedView::Read(settings) = saved {
        law_valid_deployments_have_no_problem(with_settings(d, settings));
    }
}

/// The settings file's text without the byte order mark that some editors put
/// in front of it.
pub fn settings_text(text: &str) -> (r: String)
    ensures
        r@ == strip_leading(text@, '\u{feff}'),
{
    without_leading(text, '\u{feff}')
}

impl DeploymentConfig {
    /// The built-in deployment, from what the parser made of it.
    pub fn load_embedded(parsed: Result<DeploymentConfig, String>) -> (r: AppResult<
        DeploymentConfig,
    >)
        ensures
            view_outcome(r) == embedded_deployment(view_parsed(parsed)),
    {
        match parsed {
            Err(message) => Err(
                AppError::Configuration(concat2("deployment.json is invalid: ", message.as_str())),
            ),
            Ok(config) => match config.validate() {
                Ok(()) => Ok(config),
                Err(e) => Err(e),
            },
        }
    }

    /// The built-in deployment with the saved settings in effect, and whether
    /// there are any.
    pub fn load_with_server_settings(
        parsed: Result<DeploymentConfig, String>,
        saved: &SavedSettings,
    ) -> (r: AppResult<(DeploymentConfig, bool)>)
        ensures
            view_outcome(r) == loaded_deployment(view_parsed(parsed), saved@),
    {
        let mut config: DeploymentConfig = match Self::load_embedded(parsed) {
            Ok(config) => config,
            Err(e) => return Err(e),
        };
        match saved {
            SavedSettings::Missing => Ok((config, false)),
            SavedSettings::Unreadable => Err(
                configuration_error("saved OpenBao server settings could not be read"),
            ),
            SavedSettings::Invalid(message) => Err(
                AppError::Configuration(
                    concat2("saved OpenBao server settings are invalid: ", message.as_str()),
                ),
            ),
            SavedSettings::Read(settings) => match config.apply_server_settings(settings) {
                Ok(()) => Ok((config, true)),
                Err(e) => Err(e),
            },
        }
    }

    /// What the client starts with, and the problem with the saved settings
    /// that were passed over.
    pub fn load_for_startup(
        parsed: Result<DeploymentConfig, String>,
        saved: &SavedSettings,
    ) -> (r: (AppResult<(DeploymentConfig, bool)>, Option<AppError>))
        ensures
            view_outcome(r.0) == startup_deployment(view_parsed(parsed), saved@),
            match r.1 {
                Some(e) => loaded_deployment(view_parsed(parsed), saved@) == Err::<
                    (DeploymentView, bool),
                    ErrorView,
                >(e@),
                None => loaded_deployment(view_parsed(parsed), saved@) is Ok,
            },
    {
        let again: Result<DeploymentConfig, String> = match &parsed {
            Ok(config) => Ok(config.clone()),
            Err(message) => Err(message.clone()),
        };
        match Self::load_with_server_settings(parsed, saved) {
            Ok(found) => (Ok(found), None),
            Err(passed_over) => match Self::load_embedded(again) {
                Ok(config) => (Ok((config, false)), Some(passed_over)),
                Err(e) => (Err(e), Some(passed_over)),
            },
        }
    }
}

// ---------------------------------------------------------------------------
// Addresses
// ---------------------------------------------------------------------------

/// The address under which relative paths are resolved: it ends in a slash.
pub open spec fn api_base(address: UrlView) -> Seq<char> {
    if ends_with(address.path, "/"@) {
        address.text
    } else {
        match url_with_path(address.text, address.path + "/"@) {
            Some(text) => text,
            None => address.text,
        }
    }
}

/// The address of a path below the API's root.
pub open spec fn api_address(address: UrlView, relative: Seq<char>) -> Result<
    Seq<char>,
    ErrorView,
> {
    match joined_url(api_base(address), "v1/"@ + strip_leading(relative, '/')) {
        Ok(text) => Ok(text),
        Err(message) => Err(ErrorView::Configuration("invalid API URL: "@ + message)),
    }
}

/// The address is short enough for its path to be replaced, where the path has
/// to be; the bound is far below what the URL library can hold.
pub open spec fn is_short_address(address: UrlView) -> bool {
    ends_with(address.path, "/"@) || address.text.len() <= 0x0400_0000 && address.path.len()
        < 0x0400_0000
}

pub open spec fn callback_path(auth_mount: Seq<char>) -> Seq<char> {
    "auth/"@ + auth_mount + "/oidc/callback"@
}

impl OpenBaoConfig {
    /// The address of a path below the API's root.
    pub fn url(&self, relative: &str) -> (r: AppResult<String>)
        requires
            is_short_address(self@.address),
        ensures
            view_outcome(r) == api_address(self@.address, relative@),
    {
        let mut base: String = self.address.text.clone();
        if !finishes(self.address.path.as_str(), "/") {
            let path: String = concat2(self.address.path.as_str(), "/");
            proof {
                reveal_strlit("/");
            }
            if let Some(text) = replace_path(self.address.text.as_str(), path.as_str()) {
                base = text;
            }
        }
        let path: String = without_leading(relative, '/');
        match join_url(base.as_str(), concat2("v1/", path.as_str()).as_str()) {
            Ok(text) => Ok(text),
            Err(message) => Err(
                AppError::Configuration(concat2("invalid API URL: ", message.as_str())),
            ),
        }
    }
}

impl DeploymentConfig {
    /// The address of a path below the API's root.
    pub fn api_url(&self, relative: &str) -> (r: AppResult<String>)
        requires
            is_short_address(self@.openbao.address),
        ensures
            view_outcome(r) == api_address(self@.openbao.address, relative@),
    {
        self.openbao.url(relative)
    }

    /// Where the identity provider sends the browser back to.
    pub fn oidc_callback_url(&self) -> (r: AppResult<String>)
        requires
            is_short_address(self@.openbao.address),
        ensures
            view_outcome(r) == api_address(self@.openbao.address, callback_path(self@.openbao.auth_mount)),
    {
        let path: String = concat3("auth/", self.openbao.auth_mount.as_str(), "/oidc/callback");
        self.api_url(path.as_str())
    }
}

// ---------------------------------------------------------------------------
// What a deployment amounts to
// ---------------------------------------------------------------------------

/// A letter of the ASCII alphabet or an ASCII digit.
pub open spec fn is_plain(c: char) -> bool {
    'a' <= c <= 'z' || 'A' <= c <= 'Z' || '0' <= c <= '9'
}

/// Mounts, roles and identifiers are made of letters, digits, hyphens and
/// underscores; claims may hold dots too; paths may hold slashes, but not in
/// front. None of them is empty, and everything of that form is one.
pub proof fn law_names_are_plain(s: Seq<char>)
    ensures
        is_segment(s) <==> s.len() > 0 && forall|i: int|
            0 <= i < s.len() ==> is_plain(#[trigger] s[i]) || s[i] == '-' || s[i] == '_',
        is_claim(s) <==> s.len() > 0 && forall|i: int|
            0 <= i < s.len() ==> is_plain(#[trigger] s[i]) || s[i] == '-' || s[i] == '_' || s[i]
                == '.',
        is_api_path(s) <==> s.len() > 0 && s[0] != '/' && forall|i: int|
            0 <= i < s.len() ==> is_plain(#[trigger] s[i]) || s[i] == '-' || s[i] == '_' || s[i]
                == '/',
{
    reveal_strlit("-_");
    reveal_strlit("-_.");
    reveal_strlit("-_/");
    let two = "-_"@;
    let dot = "-_."@;
    let slash = "-_/"@;
    assert(two[0] == '-' && two[1] == '_' && two.len() == 2);
    assert(dot[0] == '-' && dot[1] == '_' && dot[2] == '.' && dot.len() == 3);
    assert(slash[0] == '-' && slash[1] == '_' && slash[2] == '/' && slash.len() == 3);
    assert(forall|c: char| two.contains(c) <==> c == '-' || c == '_');
    assert(forall|c: char| dot.contains(c) <==> c == '-' || c == '_' || c == '.');
    assert(forall|c: char| slash.contains(c) <==> c == '-' || c == '_' || c == '/');
    if made_of(s, two) {
        assert forall|i: int| 0 <= i < s.len() implies is_plain(#[trigger] s[i]) || s[i] == '-'
            || s[i] == '_' by {
            assert(crate::text::is_alphanumeric(s[i]) || two.contains(s[i]));
        }
    }
    if made_of(s, dot) {
        assert forall|i: int| 0 <= i < s.len() implies is_plain(#[trigger] s[i]) || s[i] == '-'
            || s[i] == '_' || s[i] == '.' by {
            assert(crate::text::is_alphanumeric(s[i]) || dot.contains(s[i]));
        }
    }
    if made_of(s, slash) {
        assert forall|i: int| 0 <= i < s.len() implies is_plain(#[trigger] s[i]) || s[i] == '-'
            || s[i] == '_' || s[i] == '/' by {
            assert(crate::text::is_alphanumeric(s[i]) || slash.contains(s[i]));
        }
    }
}

/// A server may be talked to exactly where it is an HTTPS origin without
/// credentials, path, query and fragment, its namespace has one to 256 bytes
/// and no control characters, and mount and role are plain names.
pub proof fn law_servers_are_plain_origins(server: OpenBaoView)
    ensures
        server_problem(server) is None <==> {
            let url = server.address;
            &&& url.scheme == "https"@
            &&& url.username.len() == 0
            &&& url.password is None
            &&& url.host is Some
            &&& url.query is None
            &&& url.fragment is None
            &&& url.path == ""@ || url.path == "/"@
            &&& server.namespace matches Some(namespace) ==> {
                &&& 1 <= encode_utf8(namespace).len() <= 256
                &&& forall|i: int|
                    0 <= i < namespace.len() ==> 32 <= (#[trigger] namespace[i]) as u32 && !(127
                        <= namespace[i] as u32 <= 159)
            }
            &&& is_segment(server.auth_mount)
            &&& is_segment(server.oidc_role)
        },
{
    if let Some(namespace) = server.namespace {
        assert(encode_utf8(namespace).len() == 0 <==> namespace.len() == 0);
        if is_namespace(namespace) {
            assert forall|i: int| 0 <= i < namespace.len() implies 32 <= (
            #[trigger] namespace[i]) as u32 && !(127 <= namespace[i] as u32 <= 159) by {
                assert(!is_control(namespace[i]));
            }
        }
        if forall|i: int|
            0 <= i < namespace.len() ==> 32 <= (#[trigger] namespace[i]) as u32 && !(127
                <= namespace[i] as u32 <= 159) {
            assert forall|i: int| 0 <= i < namespace.len() implies !is_control(
                #[trigger] namespace[i],
            ) by {
                assert(32 <= namespace[i] as u32);
            }
        }
    }
}

/// A root is fit to be embedded exactly where its text holds a certificate with
/// the fingerprint beside it, in whatever case the latter is written.
pub proof fn law_embedded_roots_match_their_fingerprint(root: RootView)
    ensures
        is_valid_root(root) ==> parsed_pem(root.pem) is Some && parsed_pem(root.pem)->Some_0.tag
            == "CERTIFICATE"@ && lower(root.sha256) == crate::encoding::hex(
            crate::encoding::sha256_digest(parsed_pem(root.pem)->Some_0.contents),
        ),
        parsed_pem(root.pem) is Some && lower(root.sha256) != crate::encoding::hex(
            crate::encoding::sha256_digest(parsed_pem(root.pem)->Some_0.contents),
        ) ==> root_pem_problem(
            root,
            parsed_pem(root.pem),
            crate::encoding::hex(
                crate::encoding::sha256_digest(parsed_pem(root.pem)->Some_0.contents),
            ),
        ) is Some,
{
}

/// Each purpose has the usage that Windows knows it by, and a name for people.
pub proof fn law_purposes_have_their_usage()
    ensures
        CertificatePurpose::Mtls.eku_oid() == "1.3.6.1.5.5.7.3.2"@,
        CertificatePurpose::DocumentSigning.eku_oid() == "1.3.6.1.4.1.311.10.3.12"@,
        CertificatePurpose::CodeSigning.eku_oid() == "1.3.6.1.5.5.7.3.3"@,
        CertificatePurpose::Mtls.label_text() == "mTLS"@,
        CertificatePurpose::DocumentSigning.label_text() == "document signing"@,
        CertificatePurpose::CodeSigning.label_text() == "code signing"@,
{
}

/// A user's settings put the user's own address, namespace, mount and role in
/// the place of the deployment's, and describe a server by the same four.
pub proof fn law_settings_name_the_server(
    d: DeploymentView,
    settings: SettingsView,
    server: OpenBaoView,
)
    ensures
        with_settings(d, settings).openbao.address == settings.address,
        with_settings(d, settings).openbao.namespace == settings.namespace,
        with_settings(d, settings).openbao.auth_mount == settings.auth_mount,
        with_settings(d, settings).openbao.oidc_role == settings.oidc_role,
        with_settings(d, settings).schema_version == d.schema_version,
        with_settings(d, settings).deployment_name == d.deployment_name,
        own_settings(server).address == server.address,
        own_settings(server).namespace == server.namespace,
        own_settings(server).auth_mount == server.auth_mount,
        own_settings(server).oidc_role == server.oidc_role,
        own_settings(server).schema_version == 1,
{
}

/// A deployment is loaded with the saved settings where there are any that fit
/// it, and by itself where there are none; settings that cannot be read, are no
/// settings or do not fit keep it from loading, but not from starting.
pub proof fn law_saved_settings_are_used_when_they_fit(
    d: DeploymentView,
    settings: SettingsView,
    message: Seq<char>,
)
    requires
        is_valid_deployment(d),
    ensures
        ({
            let own = Ok::<(DeploymentView, bool), ErrorView>((d, false));
            let parsed = Ok::<DeploymentView, Seq<char>>(d);
            let fits = settings.schema_version == 1 && is_valid_server(
                with_settings(d, settings).openbao,
            );
            &&& loaded_deployment(parsed, SavedView::Missing) == own
            &&& loaded_deployment(parsed, SavedView::Unreadable) is Err
            &&& loaded_deployment(parsed, SavedView::Invalid(message)) is Err
            &&& fits ==> loaded_deployment(parsed, SavedView::Read(settings)) == Ok::<
                (DeploymentView, bool),
                ErrorView,
            >((with_settings(d, settings), true))
            &&& !fits ==> loaded_deployment(parsed, SavedView::Read(settings)) is Err
            &&& startup_deployment(parsed, SavedView::Missing) == own
            &&& startup_deployment(parsed, SavedView::Unreadable) == own
            &&& startup_deployment(parsed, SavedView::Invalid(message)) == own
            &&& fits ==> startup_deployment(parsed, SavedView::Read(settings)) == Ok::<
                (DeploymentView, bool),
                ErrorView,
            >((with_settings(d, settings), true))
            &&& !fits ==> startup_deployment(parsed, SavedView::Read(settings)) == own
        }),
{
    law_valid_deployments_have_no_problem(d);
    law_settings_are_judged_by_the_server(d, settings);
}

/// A deployment that does not parse or is not valid is neither loaded nor
/// started with, whatever is saved.
pub proof fn law_invalid_deployments_do_not_start(
    d: DeploymentView,
    message: Seq<char>,
    saved: SavedView,
)
    ensures
        loaded_deployment(Err(message), saved) is Err,
        startup_deployment(Err(message), saved) is Err,
        embedded_deployment(Ok(d)) is Ok <==> is_valid_deployment(d),
        embedded_deployment(Ok(d)) matches Ok(loaded) ==> loaded == d,
        !is_valid_deployment(d) ==> loaded_deployment(Ok(d), saved) is Err && startup_deployment(
            Ok(d),
            saved,
        ) is Err,
{
    law_valid_deployments_have_no_problem(d);
}

/// The address of a path is the path below `v1/` below the server's own
/// address, however many slashes the path begins with; the callback is below
/// the mount that the login goes through.
pub proof fn law_paths_are_below_the_servers_address(
    address: UrlView,
    relative: Seq<char>,
    mount: Seq<char>,
)
    ensures
        api_address(address, seq!['/'] + relative) == api_address(address, relative),
        address.path == "/"@ && (relative.len() == 0 || relative[0] != '/') ==> {
            &&& joined_url(address.text, "v1/"@ + relative) matches Ok(url) ==> api_address(
                address,
                relative,
            ) == Ok::<Seq<char>, ErrorView>(url)
            &&& joined_url(address.text, "v1/"@ + relative) is Err ==> api_address(
                address,
                relative,
            ) is Err
        },
        (address.path.len() == 0 || address.path.last() != '/') && (relative.len() == 0
            || relative[0] != '/') ==> {
            let base = url_with_path(address.text, address.path + "/"@);
            &&& base is Some && joined_url(base->Some_0, "v1/"@ + relative) is Ok ==> api_address(
                address,
                relative,
            ) == Ok::<Seq<char>, ErrorView>(
                joined_url(base->Some_0, "v1/"@ + relative)->Ok_0,
            )
            &&& base is None && joined_url(address.text, "v1/"@ + relative) is Ok ==> api_address(
                address,
                relative,
            ) == Ok::<Seq<char>, ErrorView>(joined_url(address.text, "v1/"@ + relative)->Ok_0)
        },
        callback_path(mount) == "auth/"@ + mount + "/oidc/callback"@,
{
    if ends_with(address.path, "/"@) {
        reveal_strlit("/");
        assert(address.path.subrange(address.path.len() - 1, address.path.len() as int)[0] == '/');
    }
    crate::text::law_leading_characters_come_off(relative, '/');
    reveal_strlit("/");
    if address.path == "/"@ {
        assert(address.path.subrange(0, 1) =~= "/"@);
    }
}

/// A server that may not be talked to says why: the first of these that holds.
pub proof fn law_refused_servers_say_why(server: OpenBaoView)
    ensures
        ({
            let url = server.address;
            let plain = url.username.len() == 0 && url.password is None;
            let origin = url.scheme == "https"@ && plain && url.host is Some && url.query is None
                && url.fragment is None && (url.path == ""@ || url.path == "/"@);
            let spaced = namespace_problem(server.namespace) is None;
            &&& url.scheme != "https"@ ==> server_problem(server) == Some(
                "OpenBao address must use HTTPS"@,
            )
            &&& url.scheme == "https"@ && !plain ==> server_problem(server) == Some(
                "OpenBao address must not contain credentials"@,
            )
            &&& url.scheme == "https"@ && plain && !origin ==> server_problem(server) == Some(
                "OpenBao address must be an HTTPS origin without a path, query, or fragment"@,
            )
            &&& origin && !spaced ==> server_problem(server) == Some(
                "OpenBao namespace is empty, too long, or contains control characters"@,
            )
            &&& origin && spaced && !is_segment(server.auth_mount) ==> server_problem(server)
                == Some("auth_mount"@ + " must contain only letters, numbers, '-' or '_'"@)
            &&& origin && spaced && is_segment(server.auth_mount) && !is_segment(server.oidc_role)
                ==> server_problem(server) == Some(
                "oidc_role"@ + " must contain only letters, numbers, '-' or '_'"@,
            )
        }),
{
}

/// A root that may not be embedded says why: the first of these that holds.
pub proof fn law_refused_roots_say_why(roots: Seq<RootView>, i: int)
    requires
        0 <= i < roots.len(),
    ensures
        ({
            let root = roots[i];
            let block = parsed_pem(root.pem);
            let alone = forall|j: int| 0 <= j < i ==> (#[trigger] roots[j]).id != root.id;
            let named = alone && is_segment(root.id);
            let placed = named && (root.refresh_path is Some ==> is_api_path(
                root.refresh_path->Some_0,
            ));
            &&& !alone ==> root_problem(roots, i) == Some("duplicate root id "@ + root.id)
            &&& alone && !named ==> root_problem(roots, i) == Some(
                "root id"@ + " must contain only letters, numbers, '-' or '_'"@,
            )
            &&& named && !placed ==> root_problem(roots, i) == Some(
                "root refresh_path"@ + " is not a safe relative API path"@,
            )
            &&& placed && block is None ==> root_problem(roots, i) == Some(
                "root "@ + root.id + " is not valid PEM"@,
            )
            &&& placed && block is Some && block->Some_0.tag != "CERTIFICATE"@ ==> root_problem(
                roots,
                i,
            ) == Some("root "@ + root.id + " must contain a CERTIFICATE PEM block"@)
            &&& placed && block is Some && block->Some_0.tag == "CERTIFICATE"@ && root_problem(
                roots,
                i,
            ) is Some ==> root_problem(roots, i) == Some(
                "root "@ + root.id + " fingerprint does not match its DER"@,
            )
        }),
{
}

/// A profile that may not be offered says why: the first of these that holds.
pub proof fn law_refused_profiles_say_why(profiles: Seq<ProfileView>, i: int)
    requires
        0 <= i < profiles.len(),
    ensures
        ({
            let profile = profiles[i];
            let said = profile_problem(profiles, i);
            let segment = " must contain only letters, numbers, '-' or '_'"@;
            let claim = " contains unsupported characters"@;
            let alone = forall|j: int| 0 <= j < i ==> (#[trigger] profiles[j]).id != profile.id;
            let named = alone && is_segment(profile.id);
            let mounted = named && is_segment(profile.pki_mount);
            let cast = mounted && is_segment(profile.pki_role);
            let claimed = cast && is_claim(profile.subject_claim);
            let addressed = claimed && (profile.san_claim is Some ==> is_claim(
                profile.san_claim->Some_0,
            ));
            let stored = addressed && profile.destination_store == "My"@ && profile.key_algorithm
                == "rsa-3072"@;
            &&& !alone ==> said == Some("duplicate profile id "@ + profile.id)
            &&& alone && !named ==> said == Some("profile id"@ + segment)
            &&& named && !mounted ==> said == Some("pki_mount"@ + segment)
            &&& mounted && !cast ==> said == Some("pki_role"@ + segment)
            &&& cast && !claimed ==> said == Some("profile subject_claim"@ + claim)
            &&& claimed && !addressed ==> said == Some("profile san_claim"@ + claim)
            &&& addressed && !stored ==> said == Some(
                "profile "@ + profile.id + " must use My and rsa-3072 in v1"@,
            )
            &&& stored && !profile.expected_eku_oids.contains(profile.purpose.eku_oid()) ==> said
                == Some(
                "profile "@ + profile.id + " is missing required EKU "@ + profile.purpose.eku_oid(),
            )
        }),
{
}

proof fn lemma_first_root_problem(roots: Seq<RootView>, i: int, n: nat)
    requires
        0 <= i < n,
        forall|j: int| 0 <= j < i ==> #[trigger] root_problem(roots, j) is None,
        root_problem(roots, i) is Some,
    ensures
        roots_problem(roots, n) == root_problem(roots, i),
        roots_problem(roots, i as nat) is None,
    decreases n,
{
    lemma_no_root_problem(roots, i as nat);
    if n > i + 1 {
        lemma_first_root_problem(roots, i, (n - 1) as nat);
    }
}

proof fn lemma_no_root_problem(roots: Seq<RootView>, n: nat)
    requires
        forall|j: int| 0 <= j < n ==> #[trigger] root_problem(roots, j) is None,
    ensures
        roots_problem(roots, n) is None,
    decreases n,
{
    if n > 0 {
        lemma_no_root_problem(roots, (n - 1) as nat);
        assert(root_problem(roots, n - 1) is None);
    }
}

proof fn lemma_first_profile_problem(profiles: Seq<ProfileView>, i: int, n: nat)
    requires
        0 <= i < n,
        forall|j: int| 0 <= j < i ==> #[trigger] profile_problem(profiles, j) is None,
        profile_problem(profiles, i) is Some,
    ensures
        profiles_problem(profiles, n) == profile_problem(profiles, i),
    decreases n,
{
    lemma_no_profile_problem(profiles, i as nat);
    if n > i + 1 {
        lemma_first_profile_problem(profiles, i, (n - 1) as nat);
    }
}

proof fn lemma_no_profile_problem(profiles: Seq<ProfileView>, n: nat)
    requires
        forall|j: int| 0 <= j < n ==> #[trigger] profile_problem(profiles, j) is None,
    ensures
        profiles_problem(profiles, n) is None,
    decreases n,
{
    if n > 0 {
        lemma_no_profile_problem(profiles, (n - 1) as nat);
        assert(profile_problem(profiles, n - 1) is None);
    }
}

/// A deployment that is refused says why: its version, its name, its server,
/// its claims, that it has no roots, the first root or the first profile at
/// fault, in this order.
pub proof fn law_refused_deployments_say_why(d: DeploymentView, i: int)
    ensures
        ({
            let said = deployment_problem(d);
            let named = d.schema_version == 1 && !is_blank(d.deployment_name);
            let served = named && server_problem(d.openbao) is None;
            let shown = served && is_claim(d.identity.display_claim);
            let known = shown && is_claim(d.identity.subject_claim);
            let rooted = known && !(d.configured && d.roots.len() == 0);
            let trusted = rooted && forall|j: int|
                0 <= j < d.roots.len() ==> #[trigger] root_problem(d.roots, j) is None;
            &&& d.schema_version != 1 ==> said == Some("schema_version must be 1"@)
            &&& d.schema_version == 1 && !named ==> said == Some("deployment_name is required"@)
            &&& named && !served ==> said == server_problem(d.openbao)
            &&& served && !shown ==> said == Some(
                "display_claim"@ + " contains unsupported characters"@,
            )
            &&& shown && !known ==> said == Some(
                "subject_claim"@ + " contains unsupported characters"@,
            )
            &&& known && !rooted ==> said == Some(
                "a configured deployment must embed at least one root"@,
            )
            &&& rooted && 0 <= i < d.roots.len() && root_problem(d.roots, i) is Some && (forall|j:
                int| 0 <= j < i ==> #[trigger] root_problem(d.roots, j) is None) ==> said
                == root_problem(d.roots, i)
            &&& trusted && 0 <= i < d.profiles.len() && profile_problem(d.profiles, i) is Some && (
            forall|j: int| 0 <= j < i ==> #[trigger] profile_problem(d.profiles, j) is None)
                ==> said == profile_problem(d.profiles, i)
        }),
{
    if 0 <= i < d.roots.len() && root_problem(d.roots, i) is Some && (forall|j: int|
        0 <= j < i ==> #[trigger] root_problem(d.roots, j) is None) {
        lemma_first_root_problem(d.roots, i, d.roots.len());
    }
    if forall|j: int| 0 <= j < d.roots.len() ==> #[trigger] root_problem(d.roots, j) is None {
        lemma_no_root_problem(d.roots, d.roots.len());
    }
    if 0 <= i < d.profiles.len() && profile_problem(d.profiles, i) is Some && (forall|j: int|
        0 <= j < i ==> #[trigger] profile_problem(d.profiles, j) is None) {
        lemma_first_profile_problem(d.profiles, i, d.profiles.len());
    }
}

/// What keeps a deployment from loading is reported as a fault of the
/// configuration, with the parser's or the address's own words.
pub proof fn law_configuration_faults_say_why(
    d: DeploymentView,
    settings: SettingsView,
    message: Seq<char>,
    saved: SavedView,
    address: UrlView,
    relative: Seq<char>,
)
    ensures
        embedded_deployment(Err(message)) == Err::<DeploymentView, ErrorView>(
            ErrorView::Configuration("deployment.json is invalid: "@ + message),
        ),
        loaded_deployment(Err(message), saved) == Err::<(DeploymentView, bool), ErrorView>(
            ErrorView::Configuration("deployment.json is invalid: "@ + message),
        ),
        deployment_problem(d) is Some ==> embedded_deployment(Ok(d)) == Err::<
            DeploymentView,
            ErrorView,
        >(ErrorView::Configuration(deployment_problem(d)->Some_0)),
        deployment_problem(d) is None ==> loaded_deployment(Ok(d), SavedView::Unreadable) == Err::<
            (DeploymentView, bool),
            ErrorView,
        >(ErrorView::Configuration("saved OpenBao server settings could not be read"@)),
        deployment_problem(d) is None ==> loaded_deployment(Ok(d), SavedView::Invalid(message))
            == Err::<(DeploymentView, bool), ErrorView>(
            ErrorView::Configuration("saved OpenBao server settings are invalid: "@ + message),
        ),
        settings.schema_version != 1 ==> settings_outcome(d, settings) == Err::<(), ErrorView>(
            ErrorView::Configuration("server settings schema_version must be 1"@),
        ),
        address.path == "/"@ && (relative.len() == 0 || relative[0] != '/') && joined_url(
            address.text,
            "v1/"@ + relative,
        ) is Err ==> api_address(address, relative) == Err::<Seq<char>, ErrorView>(
            ErrorView::Configuration(
                "invalid API URL: "@ + joined_url(address.text, "v1/"@ + relative)->Err_0,
            ),
        ),
{
    crate::text::law_leading_characters_come_off(relative, '/');
    reveal_strlit("/");
    if address.path == "/"@ {
        assert(address.path.subrange(0, 1) =~= "/"@);
    }
}

/// The deployment once settings were put into it.
pub open spec fn after_settings(d: DeploymentView, settings: SettingsView) -> DeploymentView {
    if settings.schema_version == 1 {
        with_settings(d, settings)
    } else {
        d
    }
}

/// Settings of the known version are put in, and leave everything but the
/// server alone; settings of another version change nothing.
pub proof fn law_settings_change_the_server_only(d: DeploymentView, settings: SettingsView)
    ensures
        settings.schema_version != 1 ==> after_settings(d, settings) == d,
        settings.schema_version == 1 ==> {
            let after = after_settings(d, settings);
            &&& after.openbao.address == settings.address
            &&& after.openbao.namespace == settings.namespace
            &&& after.openbao.auth_mount == settings.auth_mount
            &&& after.openbao.oidc_role == settings.oidc_role
            &&& after.openbao.minimum_version == d.openbao.minimum_version
            &&& after.roots == d.roots
            &&& after.profiles == d.profiles
            &&& after.identity == d.identity
            &&& after.configured == d.configured
            &&& after.deployment_name == d.deployment_name
        },
{
}

} // verus!
