//! Issuing a certificate to the signed-in user, and what is issued already.
//!
//! An [`Issuance`] goes from the user's session over a certificate request and
//! its signature to the accepted certificate. The caller acts, and is told
//! what comes next.

use vstd::prelude::*;

use crate::api::{
    is_only_member, law_sign_requests_send_their_fields, MemberView, PkiSignData, PkiSignRequest,
    SignRequestView, SignedView,
};
use crate::certificates::{
    certificates_for_profile, eku_oids, first_usage, for_profile, law_expected_usages_are_there,
    leaf_outcome, suits, view_personal, AcceptancePolicy, IssuedCertificate, IssuedView,
    PersonalCertificate, PersonalView, PolicyView, ProfileCertificateStatus, ProfileStatusView,
};
use crate::config::{
    is_valid_profile, settings_outcome, view_profiles, CertificateProfile, DeploymentConfig,
    DeploymentView, ProfileView, RootView, ServerSettings, SettingsView,
};
use crate::error::{
    certificate_error, configuration_error, outcome, view_outcome, AppError, AppResult, ErrorView,
};
use crate::secret::Secret;
use crate::state::{
    editable_outcome, ensure_server_settings_editable, is_active, live_runtime,
    require_active_session, RuntimeState, RuntimeView, Session, SessionView,
};
use crate::text::{
    chars_of, clone_texts, concat2, decimal, decimal_text, text_eq, view_all, view_option,
};
use crate::x509::CertificateView;

verus! {

// ---------------------------------------------------------------------------
// What an issuance begins with
// ---------------------------------------------------------------------------

pub open spec fn configured_outcome(config: DeploymentView) -> Result<(), ErrorView> {
    if config.configured {
        Ok(())
    } else {
        Err(ErrorView::Configuration("this build has not been configured for a homelab"@))
    }
}

pub fn ensure_configured(config: &DeploymentConfig) -> (r: AppResult<()>)
    ensures
        outcome(r) == configured_outcome(config@),
{
    if config.configured {
        Ok(())
    } else {
        Err(configuration_error("this build has not been configured for a homelab"))
    }
}

/// The first profile with the identifier.
pub open spec fn first_profile(profiles: Seq<ProfileView>, id: Seq<char>) -> Option<ProfileView>
    decreases profiles.len(),
{
    if profiles.len() == 0 {
        None
    } else if profiles[0].id == id {
        Some(profiles[0])
    } else {
        first_profile(profiles.drop_first(), id)
    }
}

pub open spec fn profile_lookup(config: DeploymentView, id: Seq<char>) -> Result<
    ProfileView,
    ErrorView,
> {
    match first_profile(config.profiles, id) {
        Some(profile) => Ok(profile),
        None => Err(ErrorView::Certificate("unknown certificate profile"@)),
    }
}

/// The profile with the identifier.
pub fn find_profile(config: &DeploymentConfig, id: &str) -> (r: AppResult<CertificateProfile>)
    ensures
        view_outcome(r) == profile_lookup(config@, id@),
{
    let ghost all = config@.profiles;
    let mut i: usize = 0;
    assert(all.skip(0) =~= all);
    while i < config.profiles.len()
        invariant
            0 <= i <= config.profiles@.len(),
            all == config@.profiles,
            first_profile(all.skip(i as int), id@) == first_profile(all, id@),
        decreases config.profiles@.len() - i,
    {
        proof {
            assert(all.skip(i as int)[0] == all[i as int]);
            assert(all.skip(i as int).drop_first() =~= all.skip(i + 1));
        }
        if text_eq(config.profiles[i].id.as_str(), id) {
            return Ok(config.profiles[i].clone());
        }
        i += 1;
    }
    Err(certificate_error("unknown certificate profile"))
}

/// A claim that a profile needs and the session must carry.
pub open spec fn required_claim(session: SessionView, claim: Seq<char>) -> Result<
    Seq<char>,
    ErrorView,
> {
    if session.metadata.dom().contains(claim) {
        Ok(session.metadata[claim])
    } else {
        Err(
            ErrorView::Certificate(
                "OIDC session is missing required mapped claim "@ + claim,
            ),
        )
    }
}

fn require_claim(session: &Session, claim: &str) -> (r: AppResult<String>)
    ensures
        view_outcome(r) == required_claim(session@, claim@),
{
    match session.claim(claim) {
        Some(value) => Ok(value),
        None => Err(
            AppError::Certificate(
                concat2("OIDC session is missing required mapped claim ", claim),
            ),
        ),
    }
}

/// The value of a profile's alternative name: empty where it has none.
pub open spec fn alternative_in(session: SessionView, profile: ProfileView) -> Result<
    Seq<char>,
    ErrorView,
> {
    match profile.san_claim {
        Some(claim) => required_claim(session, claim),
        None => Ok(""@),
    }
}

fn alternative_of(session: &Session, profile: &CertificateProfile) -> (r: AppResult<String>)
    ensures
        view_outcome(r) == alternative_in(session@, profile@),
{
    match &profile.san_claim {
        Some(claim) => require_claim(session, claim.as_str()),
        None => Ok("".to_owned()),
    }
}

// ---------------------------------------------------------------------------
// Issuances
// ---------------------------------------------------------------------------

/// What an issuance waits for. `existing` is the number of certificates that
/// the user has for the profile.
#[derive(Clone, Copy, Debug, PartialEq, Eq, Structural)]
pub enum IssueStage {
    Inventory,
    Generation { existing: u64 },
    Alternative { existing: u64 },
    Signing { existing: u64 },
    Acceptance { existing: u64 },
    Finished,
}

/// An issuance that is under way: for whom, under which profile, and the
/// alternative name and the request as soon as they are there.
pub struct Issuance {
    pub profile: CertificateProfile,
    pub token: Secret,
    pub identity: String,
    pub replace_existing: bool,
    pub alternative: Option<String>,
    pub csr_pem: String,
    pub stage: IssueStage,
}

#[verifier::ext_equal]
pub struct IssuanceView {
    pub profile: ProfileView,
    pub token: Seq<char>,
    pub identity: Seq<char>,
    pub replace_existing: bool,
    pub alternative: Option<Seq<char>>,
    pub csr_pem: Seq<char>,
    pub stage: IssueStage,
}

impl View for Issuance {
    type V = IssuanceView;

    open spec fn view(&self) -> IssuanceView {
        IssuanceView {
            profile: self.profile@,
            token: self.token@,
            identity: self.identity@,
            replace_existing: self.replace_existing,
            alternative: view_option(self.alternative),
            csr_pem: self.csr_pem@,
            stage: self.stage,
        }
    }
}

/// What reading a profile's alternative name comes to: it takes a session that
/// has not run out, where the profile has a claim for it.
pub open spec fn alternative_outcome(
    profile: ProfileView,
    session: Option<SessionView>,
    now: u64,
) -> Result<Seq<char>, ErrorView> {
    if profile.san_claim is None {
        Ok(""@)
    } else if is_active(session, now) {
        alternative_in(session->Some_0, profile)
    } else {
        Err(ErrorView::NotAuthenticated)
    }
}

/// The beginning of an issuance whose key Windows keeps.
pub open spec fn issue_begin(
    config: DeploymentView,
    session: Option<SessionView>,
    now: u64,
    profile_id: Seq<char>,
    replace_existing: bool,
) -> Result<IssuanceView, ErrorView> {
    match configured_outcome(config) {
        Err(e) => Err(e),
        Ok(()) => match profile_lookup(config, profile_id) {
            Err(e) => Err(e),
            Ok(profile) => if !is_active(session, now) {
                Err(ErrorView::NotAuthenticated)
            } else {
                match required_claim(session->Some_0, profile.subject_claim) {
                    Err(e) => Err(e),
                    Ok(identity) => Ok(
                        IssuanceView {
                            profile,
                            token: session->Some_0.token,
                            identity,
                            replace_existing,
                            alternative: None,
                            csr_pem: ""@,
                            stage: IssueStage::Inventory,
                        },
                    ),
                }
            },
        },
    }
}

/// The beginning of an issuance whose key a YubiKey keeps: the slot is looked
/// at instead of the store, and the alternative name is read at once.
pub open spec fn issue_yubikey_begin(
    config: DeploymentView,
    session: Option<SessionView>,
    now: u64,
    profile_id: Seq<char>,
    replace_existing: bool,
) -> Result<IssuanceView, ErrorView> {
    match issue_begin(config, session, now, profile_id, replace_existing) {
        Err(e) => Err(e),
        Ok(issuance) => match alternative_in(session->Some_0, issuance.profile) {
            Err(e) => Err(e),
            Ok(alternative) => Ok(
                IssuanceView {
                    alternative: Some(alternative),
                    stage: IssueStage::Generation { existing: 0 },
                    ..issuance
                },
            ),
        },
    }
}

/// The state is looked at only for a configured deployment and a known
/// profile.
pub open spec fn runtime_after_begin(
    config: DeploymentView,
    runtime: RuntimeView,
    now: u64,
    profile_id: Seq<char>,
) -> RuntimeView {
    if config.configured && first_profile(config.profiles, profile_id) is Some {
        live_runtime(runtime, now)
    } else {
        runtime
    }
}

/// Begins an issuance whose key Windows keeps; the first action is to list the
/// certificates that are installed.
pub fn issue_certificate(
    config: &DeploymentConfig,
    runtime: &mut RuntimeState,
    now: u64,
    profile_id: &str,
    replace_existing: bool,
) -> (r: AppResult<Issuance>)
    ensures
        view_outcome(r) == issue_begin(
            config@,
            old(runtime)@.session,
            now,
            profile_id@,
            replace_existing,
        ),
        final(runtime)@ == runtime_after_begin(config@, old(runtime)@, now, profile_id@),
{
    match ensure_configured(config) {
        Ok(()) => {},
        Err(e) => return Err(e),
    }
    let profile: CertificateProfile = match find_profile(config, profile_id) {
        Ok(profile) => profile,
        Err(e) => return Err(e),
    };
    match require_active_session(runtime, now) {
        Ok(()) => {},
        Err(e) => return Err(e),
    }
    match &runtime.session {
        None => Err(AppError::NotAuthenticated),
        Some(session) => match require_claim(session, profile.subject_claim.as_str()) {
            Err(e) => Err(e),
            Ok(identity) => Ok(
                Issuance {
                    profile,
                    token: session.token.duplicate(),
                    identity,
                    replace_existing,
                    alternative: None,
                    csr_pem: "".to_owned(),
                    stage: IssueStage::Inventory,
                },
            ),
        },
    }
}

/// Begins an issuance whose key a YubiKey keeps; the first action is to make a
/// certificate request.
pub fn issue_yubikey_certificate(
    config: &DeploymentConfig,
    runtime: &mut RuntimeState,
    now: u64,
    profile_id: &str,
    replace_existing: bool,
) -> (r: AppResult<Issuance>)
    ensures
        view_outcome(r) == issue_yubikey_begin(
            config@,
            old(runtime)@.session,
            now,
            profile_id@,
            replace_existing,
        ),
        final(runtime)@ == runtime_after_begin(config@, old(runtime)@, now, profile_id@),
{
    let mut issuance: Issuance = match issue_certificate(
        config,
        runtime,
        now,
        profile_id,
        replace_existing,
    ) {
        Ok(issuance) => issuance,
        Err(e) => return Err(e),
    };
    match &runtime.session {
        None => Err(AppError::NotAuthenticated),
        Some(session) => match alternative_of(session, &issuance.profile) {
            Err(e) => Err(e),
            Ok(alternative) => {
                issuance.alternative = Some(alternative);
                issuance.stage = IssueStage::Generation { existing: 0 };
                Ok(issuance)
            },
        },
    }
}

/// What happened in an issuance.
pub enum IssueEvent {
    Inventory(AppResult<Vec<PersonalCertificate>>),
    Generated(AppResult<String>),
    Alternative(AppResult<String>),
    Signed(AppResult<PkiSignData>),
    Accepted(AppResult<IssuedCertificate>),
}

#[verifier::ext_equal]
pub enum IssueEventView {
    Inventory(Result<Seq<PersonalView>, ErrorView>),
    Generated(Result<Seq<char>, ErrorView>),
    Alternative(Result<Seq<char>, ErrorView>),
    Signed(Result<SignedView, ErrorView>),
    Accepted(Result<IssuedView, ErrorView>),
}

impl View for IssueEvent {
    type V = IssueEventView;

    open spec fn view(&self) -> IssueEventView {
        match self {
            IssueEvent::Inventory(all) => IssueEventView::Inventory(
                match all {
                    Ok(all) => Ok(view_personal(all@)),
                    Err(e) => Err(e@),
                },
            ),
            IssueEvent::Generated(csr) => IssueEventView::Generated(view_outcome(*csr)),
            IssueEvent::Alternative(value) => IssueEventView::Alternative(view_outcome(*value)),
            IssueEvent::Signed(data) => IssueEventView::Signed(view_outcome(*data)),
            IssueEvent::Accepted(issued) => IssueEventView::Accepted(view_outcome(*issued)),
        }
    }
}

/// What the caller is to do next; `Done` ends the issuance.
pub enum IssueAction {
    ListCertificates,
    GenerateRequest,
    ReadAlternative,
    Sign,
    Accept(PkiSignData),
    Done(AppResult<IssuedCertificate>),
}

#[verifier::ext_equal]
pub enum IssueActionView {
    ListCertificates,
    GenerateRequest,
    ReadAlternative,
    Sign,
    Accept(SignedView),
    Done(Result<IssuedView, ErrorView>),
}

impl View for IssueAction {
    type V = IssueActionView;

    open spec fn view(&self) -> IssueActionView {
        match self {
            IssueAction::ListCertificates => IssueActionView::ListCertificates,
            IssueAction::GenerateRequest => IssueActionView::GenerateRequest,
            IssueAction::ReadAlternative => IssueActionView::ReadAlternative,
            IssueAction::Sign => IssueActionView::Sign,
            IssueAction::Accept(data) => IssueActionView::Accept(data@),
            IssueAction::Done(issued) => IssueActionView::Done(view_outcome(*issued)),
        }
    }
}

/// The warning that older certificates are still there.
pub open spec fn retention_warning(existing: u64) -> Seq<char> {
    decimal(existing as nat)
        + " previous matching certificate(s) were retained until the new certificate is verified"@
}

/// The certificate with a warning where older ones are still there.
pub open spec fn with_retention(issued: IssuedView, existing: u64) -> IssuedView {
    if existing > 0 {
        IssuedView { warnings: issued.warnings.push(retention_warning(existing)), ..issued }
    } else {
        issued
    }
}

pub type IssueStep = (IssuanceView, IssueActionView);

pub open spec fn issue_at(v: IssuanceView, stage: IssueStage) -> IssuanceView {
    IssuanceView { stage, ..v }
}

pub open spec fn issue_fail(v: IssuanceView, error: ErrorView) -> IssueStep {
    (issue_at(v, IssueStage::Finished), IssueActionView::Done(Err(error)))
}

/// One step of an issuance.
pub open spec fn issue_step(v: IssuanceView, event: IssueEventView) -> IssueStep {
    match (v.stage, event) {
        (IssueStage::Inventory, IssueEventView::Inventory(all)) => match all {
            Err(e) => issue_fail(v, e),
            Ok(all) => {
                let existing = for_profile(all, v.profile, v.identity).len();
                if existing > 0 && !v.replace_existing {
                    issue_fail(
                        v,
                        ErrorView::Certificate(
                            "a matching certificate is already installed; confirm replacement to continue"@,
                        ),
                    )
                } else {
                    (
                        issue_at(v, IssueStage::Generation { existing: existing as u64 }),
                        IssueActionView::GenerateRequest,
                    )
                }
            },
        },
        (IssueStage::Generation { existing }, IssueEventView::Generated(csr)) => match csr {
            Err(e) => issue_fail(v, e),
            Ok(csr_pem) => if v.alternative is Some {
                (
                    IssuanceView { csr_pem, stage: IssueStage::Signing { existing }, ..v },
                    IssueActionView::Sign,
                )
            } else {
                (
                    IssuanceView { csr_pem, stage: IssueStage::Alternative { existing }, ..v },
                    IssueActionView::ReadAlternative,
                )
            },
        },
        (IssueStage::Alternative { existing }, IssueEventView::Alternative(value)) => match value {
            Err(e) => issue_fail(v, e),
            Ok(value) => (
                IssuanceView {
                    alternative: Some(value),
                    stage: IssueStage::Signing { existing },
                    ..v
                },
                IssueActionView::Sign,
            ),
        },
        (IssueStage::Signing { existing }, IssueEventView::Signed(data)) => match data {
            Err(e) => issue_fail(v, e),
            Ok(data) => (
                issue_at(v, IssueStage::Acceptance { existing }),
                IssueActionView::Accept(data),
            ),
        },
        (IssueStage::Acceptance { existing }, IssueEventView::Accepted(issued)) => match issued {
            Err(e) => issue_fail(v, e),
            Ok(issued) => (
                issue_at(v, IssueStage::Finished),
                IssueActionView::Done(Ok(with_retention(issued, existing))),
            ),
        },
        (_, _) => issue_fail(v, ErrorView::Internal),
    }
}

/// The alternative name that the request and the policy speak of: none where
/// the value is empty.
pub open spec fn wanted_alternative(v: IssuanceView) -> Option<Seq<char>> {
    match v.alternative {
        Some(value) => if value.len() > 0 {
            Some(value)
        } else {
            None
        },
        None => None,
    }
}

/// The request for a signature.
pub open spec fn signature_request(v: IssuanceView) -> SignRequestView {
    SignRequestView {
        csr: v.csr_pem,
        common_name: v.identity,
        alt_names: wanted_alternative(v),
        format: "pem"@,
        exclude_cn_from_sans: wanted_alternative(v) is None,
    }
}

/// The certificates of the embedded roots.
pub open spec fn root_pems(roots: Seq<RootView>) -> Seq<Seq<char>> {
    Seq::new(roots.len(), |i: int| roots[i].pem)
}

/// The fingerprints of the embedded roots.
pub open spec fn root_fingerprints(roots: Seq<RootView>) -> Seq<Seq<char>> {
    Seq::new(roots.len(), |i: int| roots[i].sha256)
}

/// The certificates that may stand above a signed one: those that came with
/// it, then the embedded roots.
pub open spec fn candidate_chain(signed: SignedView, roots: Seq<RootView>) -> Seq<Seq<char>> {
    (if signed.issuing_ca.len() > 0 {
        signed.ca_chain.push(signed.issuing_ca)
    } else {
        signed.ca_chain
    }) + root_pems(roots)
}

/// What the signed certificate is held against.
pub open spec fn issuance_policy(v: IssuanceView, fingerprints: Seq<Seq<char>>) -> PolicyView {
    PolicyView {
        trusted_root_fingerprints: fingerprints,
        expected_identity: v.identity,
        expected_san: wanted_alternative(v),
        expected_purpose: v.profile.purpose,
        expected_eku_oids: v.profile.expected_eku_oids,
    }
}

/// The fingerprints of the embedded roots.
pub fn trusted_fingerprints(config: &DeploymentConfig) -> (r: Vec<String>)
    ensures
        view_all(r@) == root_fingerprints(config@.roots),
{
    let mut r: Vec<String> = Vec::new();
    let mut i: usize = 0;
    while i < config.roots.len()
        invariant
            0 <= i <= config.roots@.len(),
            r@.len() == i,
            forall|k: int| 0 <= k < i ==> (#[trigger] r@[k])@ == config.roots@[k].sha256@,
        decreases config.roots@.len() - i,
    {
        r.push(config.roots[i].sha256.clone());
        i += 1;
    }
    assert(view_all(r@) =~= root_fingerprints(config@.roots));
    r
}

/// The certificates that may stand above a signed one.
pub fn chain_candidates(config: &DeploymentConfig, signed: &PkiSignData) -> (r: Vec<String>)
    ensures
        view_all(r@) == candidate_chain(signed@, config@.roots),
{
    let mut r: Vec<String> = clone_texts(&signed.ca_chain);
    if chars_of(signed.issuing_ca.as_str()).len() > 0 {
        let ghost before = view_all(r@);
        r.push(signed.issuing_ca.clone());
        assert(view_all(r@) =~= before.push(signed.issuing_ca@));
    }
    let ghost start = view_all(r@);
    let mut i: usize = 0;
    assert(view_all(r@) =~= start + root_pems(config@.roots).take(0));
    while i < config.roots.len()
        invariant
            0 <= i <= config.roots@.len(),
            view_all(r@) == start + root_pems(config@.roots).take(i as int),
        decreases config.roots@.len() - i,
    {
        let ghost before = view_all(r@);
        r.push(config.roots[i].pem.clone());
        i += 1;
        assert(view_all(r@) =~= before.push(config@.roots[i - 1].pem));
        assert(view_all(r@) =~= start + root_pems(config@.roots).take(i as int));
    }
    assert(root_pems(config@.roots).take(i as int) =~= root_pems(config@.roots));
    r
}

impl Issuance {
    fn at(self, stage: IssueStage) -> (r: Issuance)
        ensures
            r@ == issue_at(self@, stage),
    {
        Issuance {
            profile: self.profile,
            token: self.token,
            identity: self.identity,
            replace_existing: self.replace_existing,
            alternative: self.alternative,
            csr_pem: self.csr_pem,
            stage,
        }
    }

    fn failed(self, error: AppError) -> (r: (Issuance, IssueAction))
        ensures
            (r.0@, r.1@) == issue_fail(self@, error@),
    {
        (self.at(IssueStage::Finished), IssueAction::Done(Err(error)))
    }

    /// Takes what happened and says what the next action is.
    pub fn step(self, event: IssueEvent) -> (r: (Issuance, IssueAction))
        ensures
            (r.0@, r.1@) == issue_step(self@, event@),
    {
        let mut issuance: Issuance = self;
        match (issuance.stage, event) {
            (IssueStage::Inventory, IssueEvent::Inventory(all)) => match all {
                Err(e) => issuance.failed(e),
                Ok(all) => {
                    let matching: Vec<PersonalCertificate> = certificates_for_profile(
                        &all,
                        &issuance.profile,
                        issuance.identity.as_str(),
                    );
                    assert(matching@.len() == view_personal(matching@).len());
                    if matching.len() > 0 && !issuance.replace_existing {
                        issuance.failed(
                            certificate_error(
                                "a matching certificate is already installed; confirm replacement to continue",
                            ),
                        )
                    } else {
                        (
                            issuance.at(
                                IssueStage::Generation { existing: matching.len() as u64 },
                            ),
                            IssueAction::GenerateRequest,
                        )
                    }
                },
            },
            (IssueStage::Generation { existing }, IssueEvent::Generated(csr)) => match csr {
                Err(e) => issuance.failed(e),
                Ok(csr_pem) => {
                    issuance.csr_pem = csr_pem;
                    if issuance.alternative.is_some() {
                        (issuance.at(IssueStage::Signing { existing }), IssueAction::Sign)
                    } else {
                        (
                            issuance.at(IssueStage::Alternative { existing }),
                            IssueAction::ReadAlternative,
                        )
                    }
                },
            },
            (IssueStage::Alternative { existing }, IssueEvent::Alternative(value)) => match value {
                Err(e) => issuance.failed(e),
                Ok(value) => {
                    issuance.alternative = Some(value);
                    (issuance.at(IssueStage::Signing { existing }), IssueAction::Sign)
                },
            },
            (IssueStage::Signing { existing }, IssueEvent::Signed(data)) => match data {
                Err(e) => issuance.failed(e),
                Ok(data) => (
                    issuance.at(IssueStage::Acceptance { existing }),
                    IssueAction::Accept(data),
                ),
            },
            (IssueStage::Acceptance { existing }, IssueEvent::Accepted(issued)) => match issued {
                Err(e) => issuance.failed(e),
                Ok(issued) => (
                    issuance.at(IssueStage::Finished),
                    IssueAction::Done(Ok(warned(issued, existing))),
                ),
            },
            (_, _) => issuance.failed(AppError::Internal),
        }
    }

    /// Reads the alternative name from the session; one that has run out is
    /// dropped.
    pub fn read_alternative(&self, runtime: &mut RuntimeState, now: u64) -> (r: AppResult<String>)
        ensures
            view_outcome(r) == alternative_outcome(self@.profile, old(runtime)@.session, now),
            view_outcome(r) == (if self@.profile.san_claim is None {
                Ok::<Seq<char>, ErrorView>(""@)
            } else if is_active(old(runtime)@.session, now) {
                alternative_in(old(runtime)@.session->Some_0, self@.profile)
            } else {
                Err::<Seq<char>, ErrorView>(ErrorView::NotAuthenticated)
            }),
            final(runtime)@ == (if self@.profile.san_claim is None {
                old(runtime)@
            } else {
                live_runtime(old(runtime)@, now)
            }),
    {
        if self.profile.san_claim.is_none() {
            return Ok("".to_owned());
        }
        match require_active_session(runtime, now) {
            Ok(()) => {},
            Err(e) => return Err(e),
        }
        match &runtime.session {
            Some(session) => alternative_of(session, &self.profile),
            None => Err(AppError::NotAuthenticated),
        }
    }

    fn wanted(&self) -> (r: Option<&str>)
        ensures
            match r {
                Some(text) => wanted_alternative(self@) == Some(text@),
                None => wanted_alternative(self@) is None,
            },
    {
        match &self.alternative {
            Some(value) => if chars_of(value.as_str()).len() > 0 {
                Some(value.as_str())
            } else {
                None
            },
            None => None,
        }
    }

    /// The request for a signature.
    pub fn sign_request(&self) -> (r: PkiSignRequest<'_>)
        ensures
            r@ == signature_request(self@),
    {
        let alt_names: Option<&str> = self.wanted();
        PkiSignRequest {
            csr: self.csr_pem.as_str(),
            common_name: self.identity.as_str(),
            alt_names,
            format: "pem",
            exclude_cn_from_sans: alt_names.is_none(),
        }
    }

    /// What the signed certificate is held against.
    pub fn policy<'a>(&'a self, fingerprints: &'a [String]) -> (r: AcceptancePolicy<'a>)
        ensures
            r@ == issuance_policy(self@, view_all(fingerprints@)),
    {
        AcceptancePolicy {
            trusted_root_fingerprints: fingerprints,
            expected_identity: self.identity.as_str(),
            expected_san: self.wanted(),
            expected_purpose: &self.profile.purpose,
            expected_eku_oids: &self.profile.expected_eku_oids,
        }
    }
}

fn warned(issued: IssuedCertificate, existing: u64) -> (r: IssuedCertificate)
    ensures
        r@ == with_retention(issued@, existing),
{
    let mut issued: IssuedCertificate = issued;
    if existing > 0 {
        let ghost before = view_all(issued.warnings@);
        let warning: String = concat2(
            decimal_text(existing).as_str(),
            " previous matching certificate(s) were retained until the new certificate is verified",
        );
        issued.warnings.push(warning);
        assert(view_all(issued.warnings@) =~= before.push(retention_warning(existing)));
    }
    issued
}

// ---------------------------------------------------------------------------
// What holds of every issuance
// ---------------------------------------------------------------------------

/// The request is made in the name that the session vouches for, the signed
/// certificate is held against the same name, and the same holds of the
/// alternative name; without one the server is asked to make none of the
/// common name.
pub proof fn law_requests_and_policies_agree(v: IssuanceView, fingerprints: Seq<Seq<char>>)
    ensures
        signature_request(v).common_name == issuance_policy(v, fingerprints).expected_identity,
        signature_request(v).alt_names == issuance_policy(v, fingerprints).expected_san,
        signature_request(v).exclude_cn_from_sans <==> signature_request(v).alt_names is None,
        v.alternative == Some(""@) ==> signature_request(v).exclude_cn_from_sans,
{
    reveal_strlit("");
}

/// An issuance begins only for the claim that the profile names, in a session
/// that has not run out.
pub proof fn law_issuances_are_for_the_signed_in_user(
    config: DeploymentView,
    session: Option<SessionView>,
    now: u64,
    profile_id: Seq<char>,
    replace_existing: bool,
)
    ensures
        issue_begin(config, session, now, profile_id, replace_existing) matches Ok(v) ==> {
            &&& config.configured
            &&& is_active(session, now)
            &&& v.token == session->Some_0.token
            &&& session->Some_0.metadata.dom().contains(v.profile.subject_claim)
            &&& v.identity == session->Some_0.metadata[v.profile.subject_claim]
        },
        issue_yubikey_begin(config, session, now, profile_id, replace_existing) matches Ok(v)
            ==> {
            &&& config.configured
            &&& is_active(session, now)
            &&& v.token == session->Some_0.token
            &&& session->Some_0.metadata.dom().contains(v.profile.subject_claim)
            &&& v.identity == session->Some_0.metadata[v.profile.subject_claim]
        },
{
}

/// A build that was not configured issues nothing.
pub proof fn law_unconfigured_builds_issue_nothing(
    config: DeploymentView,
    session: Option<SessionView>,
    now: u64,
    profile_id: Seq<char>,
    replace_existing: bool,
)
    requires
        !config.configured,
    ensures
        issue_begin(config, session, now, profile_id, replace_existing) is Err,
        issue_yubikey_begin(config, session, now, profile_id, replace_existing) is Err,
{
}

/// A certificate that is accepted under a valid profile has the extended usage
/// and the key usage that the profile's purpose needs.
pub proof fn law_issued_certificates_serve_their_purpose(
    v: IssuanceView,
    fingerprints: Seq<Seq<char>>,
    cert: CertificateView,
)
    requires
        is_valid_profile(v.profile),
        leaf_outcome(cert, issuance_policy(v, fingerprints)) is Ok,
    ensures
        eku_oids(cert.extended_key_usages).contains(v.profile.purpose.eku_oid()),
        first_usage(cert.key_usages) matches Some(usage) && suits(usage, v.profile.purpose),
{
    law_expected_usages_are_there(
        cert,
        issuance_policy(v, fingerprints),
        v.profile.purpose.eku_oid(),
    );
}

/// An issuance ends well only with a certificate that was accepted, and asks
/// for that only with one that was signed.
pub proof fn law_nothing_is_issued_unaccepted(v: IssuanceView, event: IssueEventView)
    ensures
        issue_step(v, event).1 matches IssueActionView::Done(Ok(_)) ==> v.stage is Acceptance
            && event matches IssueEventView::Accepted(Ok(_)),
        issue_step(v, event).1 matches IssueActionView::Accept(data) ==> v.stage is Signing
            && event == IssueEventView::Signed(Ok::<SignedView, ErrorView>(data)),
{
}

/// No step changes for whom a certificate is issued, or under which profile.
pub proof fn law_steps_keep_the_user(v: IssuanceView, event: IssueEventView)
    ensures
        issue_step(v, event).0.profile == v.profile,
        issue_step(v, event).0.identity == v.identity,
        issue_step(v, event).0.token == v.token,
{
}

/// Where a matching certificate is installed, no key is made without leave to
/// replace it.
pub proof fn law_replacement_needs_leave(v: IssuanceView, all: Seq<PersonalView>)
    requires
        v.stage == IssueStage::Inventory,
        !v.replace_existing,
        for_profile(all, v.profile, v.identity).len() > 0,
    ensures
        issue_step(
            v,
            IssueEventView::Inventory(Ok::<Seq<PersonalView>, ErrorView>(all)),
        ).1 matches IssueActionView::Done(Err(_)),
{
}

/// The embedded roots are always among the candidates, so that a chain may end
/// at one that the server did not send.
pub proof fn law_embedded_roots_are_candidates(signed: SignedView, roots: Seq<RootView>, i: int)
    requires
        0 <= i < roots.len(),
    ensures
        candidate_chain(signed, roots).contains(roots[i].pem),
{
    let chain = candidate_chain(signed, roots);
    let k = chain.len() - roots.len() + i;
    assert(chain[k] == roots[i].pem);
}

// ---------------------------------------------------------------------------
// What is issued already
// ---------------------------------------------------------------------------

/// For each profile the claim that says whose certificates count.
pub open spec fn identities_for(session: SessionView, profiles: Seq<ProfileView>) -> Result<
    Seq<Seq<char>>,
    ErrorView,
>
    decreases profiles.len(),
{
    if profiles.len() == 0 {
        Ok(Seq::empty())
    } else {
        match identities_for(session, profiles.drop_last()) {
            Err(e) => Err(e),
            Ok(before) => match required_claim(session, profiles.last().subject_claim) {
                Err(e) => Err(e),
                Ok(identity) => Ok(before.push(identity)),
            },
        }
    }
}

pub open spec fn status_identities(
    config: DeploymentView,
    session: Option<SessionView>,
    now: u64,
) -> Result<Seq<Seq<char>>, ErrorView> {
    if is_active(session, now) {
        identities_for(session->Some_0, config.profiles)
    } else {
        Err(ErrorView::NotAuthenticated)
    }
}

pub open spec fn view_texts_outcome(r: AppResult<Vec<String>>) -> Result<
    Seq<Seq<char>>,
    ErrorView,
> {
    match r {
        Ok(texts) => Ok(view_all(texts@)),
        Err(e) => Err(e@),
    }
}

proof fn lemma_identities_fail_early(session: SessionView, profiles: Seq<ProfileView>, n: int)
    requires
        0 <= n <= profiles.len(),
        identities_for(session, profiles.take(n)) is Err,
    ensures
        identities_for(session, profiles) == identities_for(session, profiles.take(n)),
    decreases profiles.len(),
{
    if n == profiles.len() {
        assert(profiles.take(n) =~= profiles);
    } else {
        assert(profiles.drop_last().take(n) =~= profiles.take(n));
        lemma_identities_fail_early(session, profiles.drop_last(), n);
    }
}

fn collect_identities(session: &Session, profiles: &Vec<CertificateProfile>) -> (r: AppResult<
    Vec<String>,
>)
    ensures
        view_texts_outcome(r) == identities_for(session@, view_profiles(profiles@)),
{
    let ghost all = view_profiles(profiles@);
    let mut r: Vec<String> = Vec::new();
    let mut i: usize = 0;
    assert(view_all(r@) =~= Seq::empty());
    assert(all.take(0) =~= Seq::empty());
    while i < profiles.len()
        invariant
            0 <= i <= profiles@.len(),
            all == view_profiles(profiles@),
            identities_for(session@, all.take(i as int)) == Ok::<Seq<Seq<char>>, ErrorView>(
                view_all(r@),
            ),
        decreases profiles@.len() - i,
    {
        let ghost before = view_all(r@);
        proof {
            assert(all.take(i + 1).drop_last() =~= all.take(i as int));
            assert(all.take(i + 1).last() == all[i as int]);
        }
        match require_claim(session, profiles[i].subject_claim.as_str()) {
            Err(e) => {
                proof {
                    lemma_identities_fail_early(session@, all, i + 1);
                }
                return Err(e);
            },
            Ok(identity) => {
                let ghost added = identity@;
                r.push(identity);
                assert(view_all(r@) =~= before.push(added));
            },
        }
        i += 1;
    }
    assert(all.take(i as int) =~= all);
    Ok(r)
}

/// For each profile the identity whose certificates count; a session that has
/// run out is dropped.
pub fn certificate_identities(config: &DeploymentConfig, runtime: &mut RuntimeState, now: u64) -> (r:
    AppResult<Vec<String>>)
    ensures
        view_texts_outcome(r) == status_identities(config@, old(runtime)@.session, now),
        final(runtime)@ == live_runtime(old(runtime)@, now),
{
    match require_active_session(runtime, now) {
        Ok(()) => {},
        Err(e) => return Err(e),
    }
    match &runtime.session {
        Some(session) => collect_identities(session, &config.profiles),
        None => Err(AppError::NotAuthenticated),
    }
}

/// For each profile the certificates that the user has for it.
pub open spec fn status_list(
    profiles: Seq<ProfileView>,
    identities: Seq<Seq<char>>,
    all: Seq<PersonalView>,
) -> Seq<ProfileStatusView> {
    Seq::new(
        profiles.len(),
        |i: int|
            ProfileStatusView {
                profile_id: profiles[i].id,
                certificates: for_profile(all, profiles[i], identities[i]),
            },
    )
}

pub open spec fn view_statuses(list: Seq<ProfileCertificateStatus>) -> Seq<ProfileStatusView> {
    Seq::new(list.len(), |i: int| list[i]@)
}

/// For each profile the certificates that the user has for it.
pub fn list_certificate_status(
    config: &DeploymentConfig,
    identities: &[String],
    all: &[PersonalCertificate],
) -> (r: Vec<ProfileCertificateStatus>)
    requires
        identities@.len() == config@.profiles.len(),
    ensures
        view_statuses(r@) == status_list(
            config@.profiles,
            view_all(identities@),
            view_personal(all@),
        ),
{
    let ghost expected = status_list(
        config@.profiles,
        view_all(identities@),
        view_personal(all@),
    );
    let mut r: Vec<ProfileCertificateStatus> = Vec::new();
    let mut i: usize = 0;
    while i < config.profiles.len()
        invariant
            0 <= i <= config.profiles@.len(),
            identities@.len() == config.profiles@.len(),
            expected == status_list(
                config@.profiles,
                view_all(identities@),
                view_personal(all@),
            ),
            r@.len() == i,
            forall|k: int| 0 <= k < i ==> (#[trigger] r@[k])@ == expected[k],
        decreases config.profiles@.len() - i,
    {
        let profile: &CertificateProfile = &config.profiles[i];
        let certificates: Vec<PersonalCertificate> = certificates_for_profile(
            all,
            profile,
            identities[i].as_str(),
        );
        let status: ProfileCertificateStatus = ProfileCertificateStatus {
            profile_id: profile.id.clone(),
            certificates,
        };
        assert(status@ == expected[i as int]);
        r.push(status);
        i += 1;
    }
    assert(view_statuses(r@) =~= expected);
    r
}

// ---------------------------------------------------------------------------
// Changing the server
// ---------------------------------------------------------------------------

/// What can go wrong with the settings file.
#[derive(Clone, Copy, Debug, PartialEq, Eq, Structural)]
pub enum SettingsFault {
    NoDirectory,
    DirectoryNotCreated,
    NotEncoded,
    NotSaved,
    NotRemoved,
}

impl SettingsFault {
    pub open spec fn error_view(self) -> ErrorView {
        ErrorView::Configuration(
            match self {
                SettingsFault::NoDirectory => "server settings path has no parent directory"@,
                SettingsFault::DirectoryNotCreated => "server settings directory could not be created"@,
                SettingsFault::NotEncoded => "server settings could not be encoded"@,
                SettingsFault::NotSaved => "server settings could not be saved"@,
                SettingsFault::NotRemoved => "saved server settings could not be removed"@,
            },
        )
    }

    pub fn error(self) -> (r: AppError)
        ensures
            r@ == self.error_view(),
    {
        match self {
            SettingsFault::NoDirectory => configuration_error(
                "server settings path has no parent directory",
            ),
            SettingsFault::DirectoryNotCreated => configuration_error(
                "server settings directory could not be created",
            ),
            SettingsFault::NotEncoded => configuration_error(
                "server settings could not be encoded",
            ),
            SettingsFault::NotSaved => configuration_error("server settings could not be saved"),
            SettingsFault::NotRemoved => configuration_error(
                "saved server settings could not be removed",
            ),
        }
    }
}

pub open spec fn change_outcome(
    runtime: RuntimeView,
    config: DeploymentView,
    settings: SettingsView,
    now: u64,
) -> Result<(), ErrorView> {
    match editable_outcome(runtime, now) {
        Err(e) => Err(e),
        Ok(()) => settings_outcome(config, settings),
    }
}

/// The server is not changed under a user who is signed in or signing in:
/// neither are settings saved, nor are saved ones removed.
pub proof fn law_settings_wait_for_the_user(
    runtime: RuntimeView,
    config: DeploymentView,
    settings: SettingsView,
    now: u64,
)
    requires
        is_active(runtime.session, now) || runtime.login_cancel is Some,
    ensures
        change_outcome(runtime, config, settings, now) is Err,
        editable_outcome(runtime, now) is Err,
{
}

/// Whether the settings may be saved: nobody is signed in or signing in, and
/// they are acceptable. A session that has run out is dropped.
pub fn save_server_settings(
    runtime: &mut RuntimeState,
    config: &DeploymentConfig,
    settings: &ServerSettings,
    now: u64,
) -> (r: AppResult<()>)
    ensures
        outcome(r) == change_outcome(old(runtime)@, config@, settings@, now),
        final(runtime)@ == live_runtime(old(runtime)@, now),
{
    match ensure_server_settings_editable(runtime, now) {
        Ok(()) => config.validate_server_settings(settings),
        Err(e) => Err(e),
    }
}

/// What came of removing the settings file.
#[derive(Clone, Copy, Debug, PartialEq, Eq, Structural)]
pub enum Removal {
    Removed,
    NotFound,
    Failed,
}

/// Whether the saved settings may be removed: nobody is signed in or signing
/// in. A session that has run out is dropped.
pub fn reset_server_settings(runtime: &mut RuntimeState, now: u64) -> (r: AppResult<()>)
    ensures
        outcome(r) == editable_outcome(old(runtime)@, now),
        final(runtime)@ == live_runtime(old(runtime)@, now),
{
    ensure_server_settings_editable(runtime, now)
}

/// What removing the saved settings came to: a file that was not there is as
/// good as removed.
pub open spec fn removal_outcome(removal: Removal) -> Result<(), ErrorView> {
    if removal == Removal::Failed {
        Err(SettingsFault::NotRemoved.error_view())
    } else {
        Ok(())
    }
}

/// What a reset of the settings comes to, once the file was removed or could
/// not be.
pub fn settings_removed(removal: Removal) -> (r: AppResult<()>)
    ensures
        outcome(r) == removal_outcome(removal),
{
    match removal {
        Removal::Failed => Err(SettingsFault::NotRemoved.error()),
        _ => Ok(()),
    }
}

// ---------------------------------------------------------------------------
// What an issuance amounts to
// ---------------------------------------------------------------------------

proof fn lemma_first_profile(profiles: Seq<ProfileView>, id: Seq<char>, i: int)
    requires
        0 <= i < profiles.len(),
        profiles[i].id == id,
        forall|k: int| 0 <= k < i ==> (#[trigger] profiles[k]).id != id,
    ensures
        first_profile(profiles, id) == Some(profiles[i]),
    decreases i,
{
    if i > 0 {
        assert(profiles[0].id != id);
        let rest = profiles.drop_first();
        assert(rest[i - 1] == profiles[i]);
        assert(forall|k: int| 0 <= k < i - 1 ==> #[trigger] rest[k] == profiles[k + 1]);
        lemma_first_profile(rest, id, i - 1);
    }
}

proof fn lemma_no_profile(profiles: Seq<ProfileView>, id: Seq<char>)
    requires
        forall|k: int| 0 <= k < profiles.len() ==> (#[trigger] profiles[k]).id != id,
    ensures
        first_profile(profiles, id) is None,
    decreases profiles.len(),
{
    if profiles.len() > 0 {
        assert(profiles[0].id != id);
        let rest = profiles.drop_first();
        assert(forall|k: int| 0 <= k < rest.len() ==> #[trigger] rest[k] == profiles[k + 1]);
        lemma_no_profile(rest, id);
    }
}

/// An issuance begins for the first profile with the identifier, in the session
/// that has not run out, in the name that the profile's claim gives there; and
/// it begins exactly where all of that is there. A YubiKey's has its alternative
/// name at once: the claim's value, or none.
pub proof fn law_issuances_begin_with_profile_and_session(
    config: DeploymentView,
    session: SessionView,
    now: u64,
    profile_id: Seq<char>,
    replace_existing: bool,
    i: int,
)
    requires
        config.configured,
        0 <= i < config.profiles.len(),
        config.profiles[i].id == profile_id,
        forall|k: int| 0 <= k < i ==> (#[trigger] config.profiles[k]).id != profile_id,
        session.expires_at > now,
    ensures
        ({
            let profile = config.profiles[i];
            let named = session.metadata.dom().contains(profile.subject_claim);
            let begun = issue_begin(config, Some(session), now, profile_id, replace_existing);
            let on_key = issue_yubikey_begin(
                config,
                Some(session),
                now,
                profile_id,
                replace_existing,
            );
            &&& begun is Ok <==> named
            &&& begun matches Ok(v) ==> {
                &&& v.profile == profile
                &&& v.token == session.token
                &&& v.identity == session.metadata[profile.subject_claim]
                &&& v.replace_existing == replace_existing
                &&& v.alternative is None
                &&& v.stage == IssueStage::Inventory
            }
            &&& on_key is Ok <==> named && (profile.san_claim matches Some(claim)
                ==> session.metadata.dom().contains(claim))
            &&& on_key matches Ok(v) ==> {
                &&& v.profile == profile
                &&& v.token == session.token
                &&& v.identity == session.metadata[profile.subject_claim]
                &&& v.replace_existing == replace_existing
                &&& profile.san_claim matches Some(claim) ==> v.alternative == Some(
                    session.metadata[claim],
                )
                &&& profile.san_claim is None ==> v.alternative is Some
                    && v.alternative->Some_0.len() == 0
                &&& v.stage == (IssueStage::Generation { existing: 0 })
            }
        }),
{
    reveal_strlit("");
    lemma_first_profile(config.profiles, profile_id, i);
}

/// Nothing is issued for an unknown profile, nor without a session, nor in one
/// that has run out.
pub proof fn law_issuances_need_profile_and_session(
    config: DeploymentView,
    session: Option<SessionView>,
    now: u64,
    profile_id: Seq<char>,
    replace_existing: bool,
)
    ensures
        config.configured && (forall|k: int|
            0 <= k < config.profiles.len() ==> (#[trigger] config.profiles[k]).id != profile_id)
            ==> issue_begin(config, session, now, profile_id, replace_existing) == Err::<
            IssuanceView,
            ErrorView,
        >(ErrorView::Certificate("unknown certificate profile"@)),
        session is None || session->Some_0.expires_at <= now ==> issue_begin(
            config,
            session,
            now,
            profile_id,
            replace_existing,
        ) is Err && issue_yubikey_begin(
            config,
            session,
            now,
            profile_id,
            replace_existing,
        ) is Err,
{
    if forall|k: int|
        0 <= k < config.profiles.len() ==> (#[trigger] config.profiles[k]).id != profile_id {
        lemma_no_profile(config.profiles, profile_id);
    }
}

/// An issuance in which all goes well looks at the installed certificates, has
/// a request made, reads the alternative name, has that very request signed,
/// has the signed certificate accepted, and hands it back with a warning exactly
/// where older ones are still there.
pub proof fn law_issuances_that_go_well(
    v: IssuanceView,
    all: Seq<PersonalView>,
    csr: Seq<char>,
    alternative: Seq<char>,
    signed: SignedView,
    issued: IssuedView,
)
    requires
        v.stage == IssueStage::Inventory,
        v.alternative is None,
        for_profile(all, v.profile, v.identity).len() == 0 || v.replace_existing,
        for_profile(all, v.profile, v.identity).len() <= u64::MAX,
    ensures
        ({
            let existing = for_profile(all, v.profile, v.identity).len();
            let (v1, a1) = issue_step(v, IssueEventView::Inventory(Ok(all)));
            let (v2, a2) = issue_step(v1, IssueEventView::Generated(Ok(csr)));
            let (v3, a3) = issue_step(v2, IssueEventView::Alternative(Ok(alternative)));
            let (v4, a4) = issue_step(v3, IssueEventView::Signed(Ok(signed)));
            let (v5, a5) = issue_step(v4, IssueEventView::Accepted(Ok(issued)));
            &&& a1 == IssueActionView::GenerateRequest
            &&& a2 == IssueActionView::ReadAlternative
            &&& a3 == IssueActionView::Sign
            &&& v3.csr_pem == csr && v3.alternative == Some(alternative)
            &&& signature_request(v3).csr == csr
            &&& a4 == IssueActionView::Accept(signed)
            &&& v4.csr_pem == csr && v4.alternative == Some(alternative)
            &&& a5 matches IssueActionView::Done(Ok(shown))
            &&& shown.thumbprint == issued.thumbprint
            &&& shown.subject == issued.subject
            &&& shown.not_after == issued.not_after
            &&& existing == 0 ==> shown.warnings == issued.warnings
            &&& existing > 0 ==> shown.warnings == issued.warnings.push(
                decimal(existing)
                    + " previous matching certificate(s) were retained until the new certificate is verified"@,
            )
        }),
{
}

/// A YubiKey's issuance goes from the request straight to the signature.
pub proof fn law_issuances_on_a_key_that_go_well(
    v: IssuanceView,
    csr: Seq<char>,
    signed: SignedView,
    issued: IssuedView,
)
    requires
        v.stage == (IssueStage::Generation { existing: 0 }),
        v.alternative is Some,
    ensures
        ({
            let (v1, a1) = issue_step(v, IssueEventView::Generated(Ok(csr)));
            let (v2, a2) = issue_step(v1, IssueEventView::Signed(Ok(signed)));
            let (v3, a3) = issue_step(v2, IssueEventView::Accepted(Ok(issued)));
            &&& a1 == IssueActionView::Sign
            &&& v1.csr_pem == csr && v1.alternative == v.alternative
            &&& a2 == IssueActionView::Accept(signed)
            &&& a3 == IssueActionView::Done(Ok::<IssuedView, ErrorView>(issued))
        }),
{
}

/// Whatever goes wrong ends the issuance with its own error.
pub proof fn law_faults_end_the_issuance(v: IssuanceView, error: ErrorView)
    ensures
        v.stage is Inventory ==> issue_step(v, IssueEventView::Inventory(Err(error))).1
            == IssueActionView::Done(Err::<IssuedView, ErrorView>(error)),
        v.stage is Generation ==> issue_step(v, IssueEventView::Generated(Err(error))).1
            == IssueActionView::Done(Err::<IssuedView, ErrorView>(error)),
        v.stage is Alternative ==> issue_step(v, IssueEventView::Alternative(Err(error))).1
            == IssueActionView::Done(Err::<IssuedView, ErrorView>(error)),
        v.stage is Signing ==> issue_step(v, IssueEventView::Signed(Err(error))).1
            == IssueActionView::Done(Err::<IssuedView, ErrorView>(error)),
        v.stage is Acceptance ==> issue_step(v, IssueEventView::Accepted(Err(error))).1
            == IssueActionView::Done(Err::<IssuedView, ErrorView>(error)),
{
}

/// What is sent to the server is the request that was made, in the user's name,
/// with the alternative name that the certificate is then held against; where
/// there is none, the server is told not to make one of the common name. The
/// certificate is asked for in PEM.
pub proof fn law_the_server_is_asked_for_what_is_expected(
    v: IssuanceView,
    fingerprints: Seq<Seq<char>>,
)
    ensures
        ({
            let members = signature_request(v).json_members();
            let policy = issuance_policy(v, fingerprints);
            &&& is_only_member(members, "csr"@, MemberView::Text(v.csr_pem))
            &&& is_only_member(members, "common_name"@, MemberView::Text(v.identity))
            &&& is_only_member(members, "format"@, MemberView::Text("pem"@))
            &&& policy.expected_identity == v.identity
            &&& v.alternative is Some && v.alternative->Some_0.len() > 0 ==> {
                &&& policy.expected_san == v.alternative
                &&& is_only_member(
                    members,
                    "alt_names"@,
                    MemberView::Text(v.alternative->Some_0),
                )
                &&& is_only_member(members, "exclude_cn_from_sans"@, MemberView::Flag(false))
            }
            &&& v.alternative is None || v.alternative->Some_0.len() == 0 ==> {
                &&& policy.expected_san is None
                &&& members.len() == 4
                &&& is_only_member(members, "exclude_cn_from_sans"@, MemberView::Flag(true))
            }
            &&& policy.expected_purpose == v.profile.purpose
            &&& policy.expected_eku_oids == v.profile.expected_eku_oids
            &&& policy.trusted_root_fingerprints == fingerprints
        }),
{
    law_sign_requests_send_their_fields(signature_request(v));
}

/// The candidates for a chain are the certificates that came with the signed
/// one, then the issuer where the server names one, then the embedded roots, in
/// their order; and what is trusted are the roots' own fingerprints.
pub proof fn law_candidates_stand_in_order(signed: SignedView, roots: Seq<RootView>, i: int)
    ensures
        ({
            let all = candidate_chain(signed, roots);
            let named = if signed.issuing_ca.len() > 0 {
                1int
            } else {
                0int
            };
            let n = signed.ca_chain.len();
            &&& all.len() == n + named + roots.len()
            &&& 0 <= i < n ==> all[i] == signed.ca_chain[i]
            &&& named == 1 ==> all[n as int] == signed.issuing_ca
            &&& 0 <= i < roots.len() ==> all[n + named + i] == roots[i].pem
        }),
        root_fingerprints(roots).len() == roots.len(),
        0 <= i < roots.len() ==> root_fingerprints(roots)[i] == roots[i].sha256,
{
}

/// For each profile the user's certificates are looked for under the value of
/// the profile's own claim, and there is such a value for each or the status is
/// refused.
pub proof fn law_statuses_go_by_each_profiles_claim(
    session: SessionView,
    profiles: Seq<ProfileView>,
)
    ensures
        identities_for(session, profiles) is Ok <==> forall|i: int|
            0 <= i < profiles.len() ==> session.metadata.dom().contains(
                (#[trigger] profiles[i]).subject_claim,
            ),
        identities_for(session, profiles) matches Ok(names) ==> {
            &&& names.len() == profiles.len()
            &&& forall|i: int|
                0 <= i < profiles.len() ==> #[trigger] names[i]
                    == session.metadata[profiles[i].subject_claim]
        },
    decreases profiles.len(),
{
    if profiles.len() > 0 {
        let rest = profiles.drop_last();
        law_statuses_go_by_each_profiles_claim(session, rest);
        assert(forall|i: int| 0 <= i < rest.len() ==> #[trigger] rest[i] == profiles[i]);
        let last = profiles[profiles.len() - 1];
        if identities_for(session, profiles) is Ok {
            let names = identities_for(session, profiles)->Ok_0;
            let before = identities_for(session, rest)->Ok_0;
            assert(names =~= before.push(session.metadata[last.subject_claim]));
            assert forall|i: int| 0 <= i < profiles.len() implies session.metadata.dom().contains(
                (#[trigger] profiles[i]).subject_claim,
            ) by {
                if i < rest.len() {
                    assert(rest[i] == profiles[i]);
                }
            }
            assert forall|i: int| 0 <= i < profiles.len() implies #[trigger] names[i]
                == session.metadata[profiles[i].subject_claim] by {
                if i < rest.len() {
                    assert(names[i] == before[i]);
                    assert(rest[i] == profiles[i]);
                }
            }
        }
        if forall|i: int|
            0 <= i < profiles.len() ==> session.metadata.dom().contains(
                (#[trigger] profiles[i]).subject_claim,
            ) {
            assert forall|i: int| 0 <= i < rest.len() implies session.metadata.dom().contains(
                (#[trigger] rest[i]).subject_claim,
            ) by {
                assert(rest[i] == profiles[i]);
            }
            assert(session.metadata.dom().contains(profiles[profiles.len() - 1].subject_claim));
        }
    }
}

/// The status has one entry for each profile, in their order, with the
/// certificates that the user has for that profile.
pub proof fn law_statuses_have_an_entry_for_each_profile(
    profiles: Seq<ProfileView>,
    identities: Seq<Seq<char>>,
    all: Seq<PersonalView>,
    config: DeploymentView,
    session: Option<SessionView>,
    now: u64,
    i: int,
)
    ensures
        status_list(profiles, identities, all).len() == profiles.len(),
        0 <= i < profiles.len() ==> status_list(profiles, identities, all)[i].profile_id
            == profiles[i].id && status_list(profiles, identities, all)[i].certificates
            == for_profile(all, profiles[i], identities[i]),
        session is None || session->Some_0.expires_at <= now ==> status_identities(
            config,
            session,
            now,
        ) == Err::<Seq<Seq<char>>, ErrorView>(ErrorView::NotAuthenticated),
        session is Some && session->Some_0.expires_at > now ==> status_identities(
            config,
            session,
            now,
        ) == identities_for(session->Some_0, config.profiles),
{
}

/// A profile's alternative name is the value of its own claim in the session
/// that is in use, and empty where the profile has no such claim.
pub proof fn law_alternative_names_are_the_claims(
    profile: ProfileView,
    session: Option<SessionView>,
    now: u64,
)
    ensures
        profile.san_claim is None ==> alternative_outcome(profile, session, now) is Ok
            && alternative_outcome(profile, session, now)->Ok_0.len() == 0,
        profile.san_claim matches Some(claim) ==> {
            &&& alternative_outcome(profile, session, now) is Ok <==> session is Some
                && session->Some_0.expires_at > now && session->Some_0.metadata.dom().contains(claim)
            &&& alternative_outcome(profile, session, now) matches Ok(value) ==> value
                == session->Some_0.metadata[claim]
        },
{
    reveal_strlit("");
}

/// Settings are changed exactly where nobody is signed in or signing in and the
/// settings fit the deployment; a file that was not there counts as removed.
pub proof fn law_settings_change_when_nobody_is_there(
    runtime: RuntimeView,
    config: DeploymentView,
    settings: SettingsView,
    now: u64,
    removal: Removal,
)
    ensures
        change_outcome(runtime, config, settings, now) is Ok <==> {
            &&& runtime.session is None || runtime.session->Some_0.expires_at <= now
            &&& runtime.login_cancel is None
            &&& settings_outcome(config, settings) is Ok
        },
        removal_outcome(removal) is Ok <==> removal == Removal::Removed || removal
            == Removal::NotFound,
        configured_outcome(config) is Ok <==> config.configured,
{
}

/// A session is dropped when an issuance begins after it has run out, and kept
/// as it is otherwise; an issuance that does not begin leaves it alone.
pub proof fn law_issuances_drop_sessions_that_ran_out(
    config: DeploymentView,
    runtime: RuntimeView,
    now: u64,
    profile_id: Seq<char>,
    i: int,
)
    ensures
        ({
            let after = runtime_after_begin(config, runtime, now, profile_id);
            let begins = config.configured && 0 <= i < config.profiles.len()
                && config.profiles[i].id == profile_id;
            let never = !config.configured || forall|k: int|
                0 <= k < config.profiles.len() ==> (#[trigger] config.profiles[k]).id
                    != profile_id;
            &&& begins && runtime.session is Some && runtime.session->Some_0.expires_at <= now
                ==> after.session is None
            &&& runtime.session is Some && runtime.session->Some_0.expires_at > now
                ==> after.session == runtime.session
            &&& runtime.session is None ==> after.session is None
            &&& never ==> after == runtime
            &&& after.login_cancel == runtime.login_cancel
            &&& after.pending_root == runtime.pending_root
        }),
{
    if 0 <= i < config.profiles.len() && config.profiles[i].id == profile_id {
        lemma_some_profile(config.profiles, profile_id, i);
    }
    if forall|k: int|
        0 <= k < config.profiles.len() ==> (#[trigger] config.profiles[k]).id != profile_id {
        lemma_no_profile(config.profiles, profile_id);
    }
}

proof fn lemma_some_profile(profiles: Seq<ProfileView>, id: Seq<char>, i: int)
    requires
        0 <= i < profiles.len(),
        profiles[i].id == id,
    ensures
        first_profile(profiles, id) is Some,
    decreases i,
{
    if i > 0 && profiles[0].id != id {
        let rest = profiles.drop_first();
        assert(rest[i - 1] == profiles[i]);
        lemma_some_profile(rest, id, i - 1);
    }
}

/// A claim that the session does not carry is named, as is what a build lacks
/// and what befell the settings.
pub proof fn law_issuance_faults_say_why(
    session: SessionView,
    claim: Seq<char>,
    config: DeploymentView,
)
    ensures
        session.metadata.dom().contains(claim) ==> required_claim(session, claim) == Ok::<
            Seq<char>,
            ErrorView,
        >(session.metadata[claim]),
        !session.metadata.dom().contains(claim) ==> required_claim(session, claim) == Err::<
            Seq<char>,
            ErrorView,
        >(
            ErrorView::Certificate(
                "OIDC session is missing required mapped claim "@ + claim,
            ),
        ),
        configured_outcome(config) is Ok <==> config.configured,
        !config.configured ==> configured_outcome(config)->Err_0 == ErrorView::Configuration(
            "this build has not been configured for a homelab"@,
        ),
        SettingsFault::NoDirectory.error_view() == ErrorView::Configuration(
            "server settings path has no parent directory"@,
        ),
        SettingsFault::DirectoryNotCreated.error_view() == ErrorView::Configuration(
            "server settings directory could not be created"@,
        ),
        SettingsFault::NotEncoded.error_view() == ErrorView::Configuration(
            "server settings could not be encoded"@,
        ),
        SettingsFault::NotSaved.error_view() == ErrorView::Configuration(
            "server settings could not be saved"@,
        ),
        SettingsFault::NotRemoved.error_view() == ErrorView::Configuration(
            "saved server settings could not be removed"@,
        ),
{
}

} // verus!
