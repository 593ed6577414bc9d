//! Trusted roots: what is known of one, and how it is installed, removed and
//! replaced.

use vstd::prelude::*;
use vstd::utf8::encode_utf8;

use crate::certificates::{RootInfo, RootInfoView};
use crate::config::{DeploymentConfig, DeploymentView, RootConfig, RootView};
use crate::encoding::{
    base64_encode, base64_text, fingerprint_of, hex, parse_pem, parsed_pem, sha1_digest,
    sha1_thumbprint, sha256_digest, sha256_fingerprint, thumbprint_of, PemBlock,
};
use crate::error::{certificate_error, outcome, view_outcome, AppError, AppResult, ErrorView};
use crate::issuance::{configured_outcome, ensure_configured};
use crate::process::{command_error, command_message, CommandOutput, Event, EventView, OutputView};
use crate::state::{RuntimeState, RuntimeView};
use crate::text::{
    concat3, concat5, contains, eq_ignoring_case, lower, lowercase, occurs_at, same_ignoring_case,
    text_eq, upper, uppercase,
};
use crate::windows::{
    view_windows_action, WindowsAction, WindowsActionView, WindowsCommand, WindowsFile,
};
use crate::x509::{certificate, read_certificate, same_bytes, Certificate, CertificateView};

verus! {

// ---------------------------------------------------------------------------
// Examining a root
// ---------------------------------------------------------------------------

/// What a root's own bytes say of it.
pub struct RootExamination {
    pub id: String,
    pub subject: String,
    pub issuer: String,
    pub fingerprint: String,
    pub thumbprint: String,
    pub not_before: String,
    pub not_after: String,
    pub refreshable: bool,
}

#[verifier::ext_equal]
pub struct ExaminedView {
    pub id: Seq<char>,
    pub subject: Seq<char>,
    pub issuer: Seq<char>,
    pub fingerprint: Seq<char>,
    pub thumbprint: Seq<char>,
    pub not_before: Seq<char>,
    pub not_after: Seq<char>,
    pub refreshable: bool,
}

impl View for RootExamination {
    type V = ExaminedView;

    open spec fn view(&self) -> ExaminedView {
        ExaminedView {
            id: self.id@,
            subject: self.subject@,
            issuer: self.issuer@,
            fingerprint: self.fingerprint@,
            thumbprint: self.thumbprint@,
            not_before: self.not_before@,
            not_after: self.not_after@,
            refreshable: self.refreshable,
        }
    }
}

/// The thumbprint under which the certificate stores know a root.
pub open spec fn store_thumbprint(der: Seq<u8>) -> Seq<char> {
    upper(sha1_thumbprint(der))
}

/// What a root's certificate says of it: it must be a certificate authority
/// that names itself as its issuer.
pub open spec fn examined_certificate(
    root: RootView,
    cert: CertificateView,
    fingerprint: Seq<char>,
    thumbprint: Seq<char>,
) -> Result<ExaminedView, ErrorView> {
    if !cert.is_self_issued() || !cert.is_authority() {
        Err(
            ErrorView::Certificate(
                "embedded certificate "@ + root.id + " is not a self-signed CA"@,
            ),
        )
    } else {
        Ok(
            ExaminedView {
                id: root.id,
                subject: cert.subject.text,
                issuer: cert.issuer.text,
                fingerprint,
                thumbprint,
                not_before: cert.not_before,
                not_after: cert.not_after,
                refreshable: root.refresh_path is Some,
            },
        )
    }
}

/// What a root's own bytes say of it.
pub open spec fn examined(root: RootView) -> Result<ExaminedView, ErrorView> {
    match parsed_pem(root.pem) {
        None => Err(ErrorView::Certificate("embedded root is invalid PEM"@)),
        Some(block) => match certificate(block.contents) {
            None => Err(ErrorView::Certificate("embedded root is invalid X.509"@)),
            Some(cert) => examined_certificate(
                root,
                cert,
                sha256_fingerprint(block.contents),
                store_thumbprint(block.contents),
            ),
        },
    }
}

/// What a root's certificate says of it.
pub fn examine_certificate(
    root: &RootConfig,
    cert: Certificate,
    fingerprint: String,
    thumbprint: String,
) -> (r: AppResult<RootExamination>)
    ensures
        view_outcome(r) == examined_certificate(root@, cert@, fingerprint@, thumbprint@),
{
    let authority: bool = match cert.authority {
        Some(authority) => authority,
        None => false,
    };
    if !same_bytes(&cert.subject.raw, &cert.issuer.raw) || !authority {
        return Err(
            AppError::Certificate(
                concat3(
                    "embedded certificate ",
                    root.id.as_str(),
                    " is not a self-signed CA",
                ),
            ),
        );
    }
    Ok(
        RootExamination {
            id: root.id.clone(),
            subject: cert.subject.text,
            issuer: cert.issuer.text,
            fingerprint,
            thumbprint,
            not_before: cert.not_before,
            not_after: cert.not_after,
            refreshable: root.refresh_path.is_some(),
        },
    )
}

/// What a root's own bytes say of it.
pub fn examine_root(root: &RootConfig) -> (r: AppResult<RootExamination>)
    ensures
        view_outcome(r) == examined(root@),
{
    let block: PemBlock = match parse_pem(root.pem.as_str()) {
        Some(block) => block,
        None => return Err(certificate_error("embedded root is invalid PEM")),
    };
    let cert: Certificate = match read_certificate(block.contents.as_slice()) {
        Some(cert) => cert,
        None => return Err(certificate_error("embedded root is invalid X.509")),
    };
    let fingerprint: String = fingerprint_of(block.contents.as_slice());
    let thumbprint: String = uppercase(thumbprint_of(block.contents.as_slice()).as_str());
    examine_certificate(root, cert, fingerprint, thumbprint)
}

/// The thumbprint under which the certificate stores know a root.
pub open spec fn thumbprint_outcome(root: RootView) -> Result<Seq<char>, ErrorView> {
    match parsed_pem(root.pem) {
        None => Err(ErrorView::Certificate("embedded root is invalid PEM"@)),
        Some(block) => Ok(store_thumbprint(block.contents)),
    }
}

pub fn root_sha1_thumbprint(root: &RootConfig) -> (r: AppResult<String>)
    ensures
        view_outcome(r) == thumbprint_outcome(root@),
{
    match parse_pem(root.pem.as_str()) {
        Some(block) => Ok(uppercase(thumbprint_of(block.contents.as_slice()).as_str())),
        None => Err(certificate_error("embedded root is invalid PEM")),
    }
}

// ---------------------------------------------------------------------------
// Asking the stores
// ---------------------------------------------------------------------------

/// The script that looks in the user's store for another certificate with the
/// root's subject, which is given in Base64, and says so with exit code 7.
pub open spec fn encoded_script_text(encoded: Seq<char>, fingerprint: Seq<char>) -> Seq<char> {
    "$s=[Text.Encoding]::UTF8.GetString([Convert]::FromBase64String('"@ + encoded
        + "')); $f='"@ + lower(fingerprint)
        + "'; $sha=[Security.Cryptography.SHA256]::Create(); $conflict=@(Get-ChildItem Cert:\\CurrentUser\\Root | Where-Object {$_.Subject -eq $s -and (($sha.ComputeHash($_.RawData) | ForEach-Object {$_.ToString('x2')}) -join '') -ne $f}); if($conflict.Count -gt 0){exit 7}else{exit 0}"@
}

/// The script for a subject in plain text.
pub open spec fn conflict_script_text(subject: Seq<char>, fingerprint: Seq<char>) -> Seq<char> {
    encoded_script_text(base64_text(encode_utf8(subject)), fingerprint)
}

/// The script for a subject in Base64.
pub fn encoded_script(encoded: &str, fingerprint: &str) -> (r: String)
    ensures
        r@ == encoded_script_text(encoded@, fingerprint@),
{
    let expected: String = lowercase(fingerprint);
    concat5(
        "$s=[Text.Encoding]::UTF8.GetString([Convert]::FromBase64String('",
        encoded,
        "')); $f='",
        expected.as_str(),
        "'; $sha=[Security.Cryptography.SHA256]::Create(); $conflict=@(Get-ChildItem Cert:\\CurrentUser\\Root | Where-Object {$_.Subject -eq $s -and (($sha.ComputeHash($_.RawData) | ForEach-Object {$_.ToString('x2')}) -join '') -ne $f}); if($conflict.Count -gt 0){exit 7}else{exit 0}",
    )
}

/// The script for a subject in plain text.
pub fn conflict_script(subject: &str, fingerprint: &str) -> (r: String)
    ensures
        r@ == conflict_script_text(subject@, fingerprint@),
{
    let encoded: String = base64_encode(subject.as_bytes());
    encoded_script(encoded.as_str(), fingerprint)
}

/// A store that was asked for a certificate has it.
pub open spec fn found(output: Result<OutputView, ErrorView>) -> Result<bool, ErrorView> {
    match output {
        Ok(output) => Ok(output.success),
        Err(e) => Err(e),
    }
}

/// The script found a conflict.
pub open spec fn conflicts(output: Result<OutputView, ErrorView>) -> Result<bool, ErrorView> {
    match output {
        Ok(output) => Ok(output.code == Some(7i32)),
        Err(e) => Err(e),
    }
}

/// A question that could not be asked counts as answered with no.
pub open spec fn or_no(answer: Result<bool, ErrorView>) -> bool {
    answer == Ok::<bool, ErrorView>(true)
}

pub fn root_is_installed(output: AppResult<CommandOutput>) -> (r: AppResult<bool>)
    ensures
        outcome(r) == found(view_outcome(output)),
{
    match output {
        Ok(output) => Ok(output.success),
        Err(e) => Err(e),
    }
}

pub fn subject_has_other_certificate(output: AppResult<CommandOutput>) -> (r: AppResult<bool>)
    ensures
        outcome(r) == conflicts(view_outcome(output)),
{
    match output {
        Ok(output) => Ok(
            match output.code {
                Some(code) => code == 7,
                None => false,
            },
        ),
        Err(e) => Err(e),
    }
}

fn yes(answer: AppResult<bool>) -> (r: bool)
    ensures
        r == or_no(outcome(answer)),
{
    match answer {
        Ok(answer) => answer,
        Err(_) => false,
    }
}

/// What an inspection waits for: the user's store, the machine's store, and
/// the search for a conflict.
#[derive(Clone, Copy, Debug, PartialEq, Eq, Structural)]
pub enum InspectionStage {
    UserStore,
    MachineStore { installed: bool },
    Conflict { installed: bool, machine_installed: bool },
    Finished,
}

/// An inspection of a root that is under way.
pub struct RootInspection {
    pub examination: RootExamination,
    pub stage: InspectionStage,
}

pub open spec fn root_info(
    e: ExaminedView,
    installed: bool,
    machine_installed: bool,
    conflicting_subject: bool,
) -> RootInfoView {
    RootInfoView {
        id: e.id,
        subject: e.subject,
        issuer: e.issuer,
        fingerprint: e.fingerprint,
        not_before: e.not_before,
        not_after: e.not_after,
        installed,
        machine_installed,
        conflicting_subject,
        refreshable: e.refreshable,
    }
}

pub type InspectionStep = (InspectionStage, WindowsActionView<RootInfoView>);

/// One step of an inspection.
pub open spec fn inspection_step(
    e: ExaminedView,
    stage: InspectionStage,
    event: EventView,
) -> InspectionStep {
    match (stage, event) {
        (InspectionStage::UserStore, EventView::Output(output)) => (
            InspectionStage::MachineStore { installed: or_no(found(output)) },
            WindowsActionView::Run(WindowsCommand::FindMachineRoot),
        ),
        (InspectionStage::MachineStore { installed }, EventView::Output(output)) => (
            InspectionStage::Conflict { installed, machine_installed: or_no(found(output)) },
            WindowsActionView::Run(WindowsCommand::Script),
        ),
        (
            InspectionStage::Conflict { installed, machine_installed },
            EventView::Output(output),
        ) => (
            InspectionStage::Finished,
            WindowsActionView::Done(
                Ok(root_info(e, installed, machine_installed, or_no(conflicts(output)))),
            ),
        ),
        (_, _) => (
            InspectionStage::Finished,
            WindowsActionView::Done(Err(ErrorView::Internal)),
        ),
    }
}

/// Where the inspection of a root begins.
pub open spec fn inspection_begin(root: RootView) -> Result<
    (ExaminedView, InspectionStage),
    ErrorView,
> {
    match examined(root) {
        Ok(e) => Ok((e, InspectionStage::UserStore)),
        Err(e) => Err(e),
    }
}

/// What a command of an inspection is about: the root's thumbprint, or the
/// script.
pub open spec fn command_subject(e: ExaminedView, command: WindowsCommand) -> Seq<char> {
    if command == WindowsCommand::Script {
        conflict_script_text(e.subject, e.fingerprint)
    } else {
        e.thumbprint
    }
}

/// Begins an inspection; the first action is to look in the user's store.
pub fn inspect_root(root: &RootConfig) -> (r: AppResult<RootInspection>)
    ensures
        match r {
            Ok(machine) => examined(root@) == Ok::<ExaminedView, ErrorView>(machine.examination@)
                && machine.stage == InspectionStage::UserStore,
            Err(e) => examined(root@) == Err::<ExaminedView, ErrorView>(e@),
        },
        match r {
            Ok(machine) => inspection_begin(root@) == Ok::<
                (ExaminedView, InspectionStage),
                ErrorView,
            >((machine.examination@, machine.stage)),
            Err(e) => inspection_begin(root@) == Err::<(ExaminedView, InspectionStage), ErrorView>(
                e@,
            ),
        },
{
    match examine_root(root) {
        Ok(examination) => Ok(RootInspection { examination, stage: InspectionStage::UserStore }),
        Err(e) => Err(e),
    }
}

impl RootInspection {
    /// What a command of the inspection is about: the root's thumbprint, or
    /// the script.
    pub fn subject_of(&self, command: WindowsCommand) -> (r: String)
        ensures
            r@ == command_subject(self.examination@, command),
            r@ == (if command == WindowsCommand::Script {
                conflict_script_text(self.examination@.subject, self.examination@.fingerprint)
            } else {
                self.examination@.thumbprint
            }),
    {
        match command {
            WindowsCommand::Script => conflict_script(
                self.examination.subject.as_str(),
                self.examination.fingerprint.as_str(),
            ),
            _ => self.examination.thumbprint.clone(),
        }
    }

    /// Takes what came of the last action and says what the next one is.
    pub fn step(self, event: Event) -> (r: (RootInspection, WindowsAction<RootInfo>))
        ensures
            r.0.examination@ == self.examination@,
            (r.0.stage, view_windows_action(r.1)) == inspection_step(
                self.examination@,
                self.stage,
                event@,
            ),
    {
        let RootInspection { examination, stage } = self;
        let (stage, action): (InspectionStage, WindowsAction<RootInfo>) = match (stage, event) {
            (InspectionStage::UserStore, Event::Output(output)) => (
                InspectionStage::MachineStore { installed: yes(root_is_installed(output)) },
                WindowsAction::Run(WindowsCommand::FindMachineRoot),
            ),
            (InspectionStage::MachineStore { installed }, Event::Output(output)) => (
                InspectionStage::Conflict {
                    installed,
                    machine_installed: yes(root_is_installed(output)),
                },
                WindowsAction::Run(WindowsCommand::Script),
            ),
            (InspectionStage::Conflict { installed, machine_installed }, Event::Output(output)) => (
                InspectionStage::Finished,
                WindowsAction::Done(
                    Ok(
                        RootInfo {
                            id: examination.id.clone(),
                            subject: examination.subject.clone(),
                            issuer: examination.issuer.clone(),
                            fingerprint: examination.fingerprint.clone(),
                            not_before: examination.not_before.clone(),
                            not_after: examination.not_after.clone(),
                            installed,
                            machine_installed,
                            conflicting_subject: yes(subject_has_other_certificate(output)),
                            refreshable: examination.refreshable,
                        },
                    ),
                ),
            ),
            (_, _) => (InspectionStage::Finished, WindowsAction::Done(Err(AppError::Internal))),
        };
        (RootInspection { examination, stage }, action)
    }
}

// ---------------------------------------------------------------------------
// Installing and removing
// ---------------------------------------------------------------------------

/// What the installation or the removal of a root waits for.
pub enum RootStage {
    Directory,
    Staging,
    Adding,
    Verifying,
    Deleting,
    Checking(CommandOutput),
    Finished,
}

#[verifier::ext_equal]
pub enum RootStageView {
    Directory,
    Staging,
    Adding,
    Verifying,
    Deleting,
    Checking(OutputView),
    Finished,
}

impl View for RootStage {
    type V = RootStageView;

    open spec fn view(&self) -> RootStageView {
        match self {
            RootStage::Directory => RootStageView::Directory,
            RootStage::Staging => RootStageView::Staging,
            RootStage::Adding => RootStageView::Adding,
            RootStage::Verifying => RootStageView::Verifying,
            RootStage::Deleting => RootStageView::Deleting,
            RootStage::Checking(output) => RootStageView::Checking(output@),
            RootStage::Finished => RootStageView::Finished,
        }
    }
}

pub type RootStep = (RootStageView, WindowsActionView<()>);

pub open spec fn root_done() -> RootStep {
    (RootStageView::Finished, WindowsActionView::Done(Ok(())))
}

pub open spec fn root_fail(error: ErrorView) -> RootStep {
    (RootStageView::Finished, WindowsActionView::Done(Err(error)))
}

/// The beginning of an installation: a root that is installed stays as it is,
/// and one whose subject is taken is refused unless that is expected.
pub open spec fn install_begin(info: RootInfoView, allow_same_subject: bool) -> RootStep {
    if info.installed {
        root_done()
    } else if info.conflicting_subject && !allow_same_subject {
        root_fail(
            ErrorView::Certificate(
                "a different root with the same subject is already installed; resolve the conflict manually"@,
            ),
        )
    } else {
        (RootStageView::Directory, WindowsActionView::CreateDirectory)
    }
}

/// The beginning of a first installation.
pub open spec fn install_first(info: RootInfoView) -> RootStep {
    install_begin(info, false)
}

/// The beginning of the installation of a successor.
pub open spec fn install_successor(info: RootInfoView) -> RootStep {
    install_begin(info, true)
}

/// The beginning of a removal: a root that is not installed stays as it is.
pub open spec fn remove_begin(info: RootInfoView) -> RootStep {
    if info.installed {
        (RootStageView::Deleting, WindowsActionView::Run(WindowsCommand::DeleteRoot))
    } else {
        root_done()
    }
}

/// One step of an installation or a removal.
pub open spec fn root_step(pem: Seq<char>, stage: RootStageView, event: EventView) -> RootStep {
    match (stage, event) {
        (RootStageView::Directory, EventView::Directory(made)) => if made {
            (RootStageView::Staging, WindowsActionView::Write(WindowsFile::Root, pem))
        } else {
            root_fail(
                ErrorView::Certificate("could not create a protected temporary directory"@),
            )
        },
        (RootStageView::Staging, EventView::Written(written)) => if written {
            (RootStageView::Adding, WindowsActionView::Run(WindowsCommand::AddRoot))
        } else {
            root_fail(ErrorView::Certificate("could not stage the root certificate"@))
        },
        (RootStageView::Adding, EventView::Output(Ok(output))) => if output.success {
            (RootStageView::Verifying, WindowsActionView::Run(WindowsCommand::FindUserRoot))
        } else {
            root_fail(
                ErrorView::Certificate(
                    command_message("Windows did not install the root certificate"@, output),
                ),
            )
        },
        (RootStageView::Verifying, EventView::Output(Ok(output))) => if output.success {
            root_done()
        } else {
            root_fail(ErrorView::Certificate("root installation could not be verified"@))
        },
        (RootStageView::Deleting, EventView::Output(Ok(output))) => if output.success {
            (
                RootStageView::Checking(output),
                WindowsActionView::Run(WindowsCommand::FindUserRoot),
            )
        } else {
            root_fail(
                ErrorView::Certificate(
                    command_message("Windows did not remove the root certificate"@, output),
                ),
            )
        },
        (RootStageView::Checking(deleted), EventView::Output(Ok(output))) => if output.success {
            root_fail(
                ErrorView::Certificate(
                    command_message("Windows did not remove the root certificate"@, deleted),
                ),
            )
        } else {
            root_done()
        },
        (RootStageView::Finished, _) => root_fail(ErrorView::Internal),
        (_, EventView::Output(Err(e))) => root_fail(e),
        (_, _) => root_fail(ErrorView::Internal),
    }
}

/// An installation or a removal of a root that is under way.
pub struct RootChange {
    pub pem: String,
    pub stage: RootStage,
}

fn root_failed(error: AppError) -> (r: (RootStage, WindowsAction<()>))
    ensures
        (r.0@, view_windows_action(r.1)) == root_fail(error@),
{
    (RootStage::Finished, WindowsAction::Done(Err(error)))
}

fn root_changed() -> (r: (RootStage, WindowsAction<()>))
    ensures
        (r.0@, view_windows_action(r.1)) == root_done(),
{
    (RootStage::Finished, WindowsAction::Done(Ok(())))
}

/// Begins the installation of a root that was inspected, over one with the same
/// subject only where that is allowed.
pub fn install_root_with_policy(
    root: &RootConfig,
    info: &RootInfo,
    allow_same_subject: bool,
) -> (r: (RootChange, WindowsAction<()>))
    ensures
        r.0.pem@ == root@.pem,
        (r.0.stage@, view_windows_action(r.1)) == install_begin(info@, allow_same_subject),
{
    let (stage, action): (RootStage, WindowsAction<()>) = if info.installed {
        root_changed()
    } else if info.conflicting_subject && !allow_same_subject {
        root_failed(
            certificate_error(
                "a different root with the same subject is already installed; resolve the conflict manually",
            ),
        )
    } else {
        (RootStage::Directory, WindowsAction::CreateDirectory)
    };
    (RootChange { pem: root.pem.clone(), stage }, action)
}

/// Begins the installation of a root that was inspected.
pub fn install_root(root: &RootConfig, info: &RootInfo) -> (r: (RootChange, WindowsAction<()>))
    ensures
        r.0.pem@ == root@.pem,
        (r.0.stage@, view_windows_action(r.1)) == install_begin(info@, false),
        (r.0.stage@, view_windows_action(r.1)) == install_first(info@),
{
    install_root_with_policy(root, info, false)
}

/// Begins the installation of a root that takes the place of one with the same
/// subject.
pub fn install_refreshed_root(root: &RootConfig, info: &RootInfo) -> (r: (
    RootChange,
    WindowsAction<()>,
))
    ensures
        r.0.pem@ == root@.pem,
        (r.0.stage@, view_windows_action(r.1)) == install_begin(info@, true),
        (r.0.stage@, view_windows_action(r.1)) == install_successor(info@),
{
    install_root_with_policy(root, info, true)
}

/// Begins the removal of a root that was inspected.
pub fn remove_root(root: &RootConfig, info: &RootInfo) -> (r: (RootChange, WindowsAction<()>))
    ensures
        r.0.pem@ == root@.pem,
        (r.0.stage@, view_windows_action(r.1)) == remove_begin(info@),
{
    let (stage, action): (RootStage, WindowsAction<()>) = if info.installed {
        (RootStage::Deleting, WindowsAction::Run(WindowsCommand::DeleteRoot))
    } else {
        root_changed()
    };
    (RootChange { pem: root.pem.clone(), stage }, action)
}

impl RootChange {
    /// Takes what came of the last action and says what the next one is.
    pub fn step(self, event: Event) -> (r: (RootChange, WindowsAction<()>))
        ensures
            r.0.pem == self.pem,
            (r.0.stage@, view_windows_action(r.1)) == root_step(self.pem@, self.stage@, event@),
    {
        let RootChange { pem, stage } = self;
        let (stage, action): (RootStage, WindowsAction<()>) = match (stage, event) {
            (RootStage::Directory, Event::Directory(made)) => if made {
                (RootStage::Staging, WindowsAction::Write(WindowsFile::Root, pem.clone()))
            } else {
                root_failed(certificate_error("could not create a protected temporary directory"))
            },
            (RootStage::Staging, Event::Written(written)) => if written {
                (RootStage::Adding, WindowsAction::Run(WindowsCommand::AddRoot))
            } else {
                root_failed(certificate_error("could not stage the root certificate"))
            },
            (RootStage::Adding, Event::Output(Ok(output))) => if output.success {
                (RootStage::Verifying, WindowsAction::Run(WindowsCommand::FindUserRoot))
            } else {
                root_failed(
                    AppError::Certificate(
                        command_error("Windows did not install the root certificate", &output),
                    ),
                )
            },
            (RootStage::Verifying, Event::Output(Ok(output))) => if output.success {
                root_changed()
            } else {
                root_failed(certificate_error("root installation could not be verified"))
            },
            (RootStage::Deleting, Event::Output(Ok(output))) => if output.success {
                (
                    RootStage::Checking(output),
                    WindowsAction::Run(WindowsCommand::FindUserRoot),
                )
            } else {
                root_failed(
                    AppError::Certificate(
                        command_error("Windows did not remove the root certificate", &output),
                    ),
                )
            },
            (RootStage::Checking(deleted), Event::Output(Ok(output))) => if output.success {
                root_failed(
                    AppError::Certificate(
                        command_error("Windows did not remove the root certificate", &deleted),
                    ),
                )
            } else {
                root_changed()
            },
            (RootStage::Finished, _) => root_failed(AppError::Internal),
            (_, Event::Output(Err(e))) => root_failed(e),
            (_, _) => root_failed(AppError::Internal),
        };
        (RootChange { pem, stage }, action)
    }
}

/// Installing a root that is installed, and removing one that is not, does
/// nothing.
pub proof fn law_root_changes_are_idempotent(info: RootInfoView, allow_same_subject: bool)
    ensures
        info.installed ==> install_begin(info, allow_same_subject) == root_done(),
        !info.installed ==> remove_begin(info) == root_done(),
{
}

/// A root whose subject another certificate has is not installed over it.
pub proof fn law_conflicting_roots_are_refused(info: RootInfoView)
    requires
        info.conflicting_subject,
        !info.installed,
    ensures
        install_begin(info, false).1 matches WindowsActionView::Done(Err(_)),
{
}

/// An installation succeeds only once the store was asked and has the root,
/// and a removal only once it was asked and no longer has it.
pub proof fn law_root_changes_are_verified(pem: Seq<char>, stage: RootStageView, event: EventView)
    requires
        root_step(pem, stage, event) == root_done(),
    ensures
        event matches EventView::Output(Ok(output)) && (output.success <==> stage
            == RootStageView::Verifying),
        stage == RootStageView::Verifying || stage is Checking,
{
}

// ---------------------------------------------------------------------------
// Whole runs, and what becomes of the store
// ---------------------------------------------------------------------------

/// The stage that an installation or a removal has come to, and all actions so
/// far.
#[verifier::ext_equal]
pub struct ChangeTrace {
    pub stage: RootStageView,
    pub actions: Seq<WindowsActionView<()>>,
}

/// The run of an installation or a removal that began as given, over what came
/// of its actions.
pub open spec fn change_run(pem: Seq<char>, begin: RootStep, events: Seq<EventView>) -> ChangeTrace
    decreases events.len(),
{
    if events.len() == 0 {
        ChangeTrace { stage: begin.0, actions: seq![begin.1] }
    } else {
        let before = change_run(pem, begin, events.drop_last());
        let (stage, action) = root_step(pem, before.stage, events.last());
        ChangeTrace { stage, actions: before.actions.push(action) }
    }
}

/// The stage that an inspection has come to, and all actions so far.
#[verifier::ext_equal]
pub struct InspectionTrace {
    pub stage: InspectionStage,
    pub actions: Seq<WindowsActionView<RootInfoView>>,
}

/// The run of an inspection, which begins with a look in the user's store.
pub open spec fn inspection_run(e: ExaminedView, events: Seq<EventView>) -> InspectionTrace
    decreases events.len(),
{
    if events.len() == 0 {
        InspectionTrace {
            stage: InspectionStage::UserStore,
            actions: seq![WindowsActionView::Run(WindowsCommand::FindUserRoot)],
        }
    } else {
        let before = inspection_run(e, events.drop_last());
        let (stage, action) = inspection_step(e, before.stage, events.last());
        InspectionTrace { stage, actions: before.actions.push(action) }
    }
}

/// The last action ends the run with the result, and none before it did.
pub open spec fn ends_in<T>(
    actions: Seq<WindowsActionView<T>>,
    result: Result<T, ErrorView>,
) -> bool {
    &&& actions.len() > 0
    &&& actions.last() == WindowsActionView::Done(result)
    &&& forall|i: int| 0 <= i < actions.len() - 1 ==> !(#[trigger] actions[i] is Done)
}

/// The actions that may change the user's store of roots.
pub open spec fn changes_store<T>(action: WindowsActionView<T>) -> bool {
    action == WindowsActionView::<T>::Run(WindowsCommand::AddRoot) || action
        == WindowsActionView::<T>::Run(WindowsCommand::DeleteRoot)
}

/// Windows answers a look in the user's store by whether it holds the root.
pub open spec fn is_look(event: EventView, held: bool) -> bool {
    event matches EventView::Output(Ok(output)) && output.success == held
}

/// `held` tells whether the user's store holds the root, before the run and
/// after each of the actions that were carried out: a look finds what is there,
/// and only adding or deleting a root changes it.
pub open spec fn is_history<T>(
    actions: Seq<WindowsActionView<T>>,
    events: Seq<EventView>,
    held: Seq<bool>,
) -> bool {
    &&& held.len() == events.len() + 1
    &&& actions.len() == events.len() + 1
    &&& forall|i: int| #![trigger actions[i]]
        0 <= i < events.len() ==> {
            &&& actions[i] == WindowsActionView::<T>::Run(WindowsCommand::FindUserRoot) ==> is_look(
                events[i],
                held[i + 1],
            )
            &&& !changes_store(actions[i]) ==> held[i + 1] == held[i]
        }
}

proof fn lemma_store_is_kept<T>(
    actions: Seq<WindowsActionView<T>>,
    events: Seq<EventView>,
    held: Seq<bool>,
    k: int,
)
    requires
        is_history(actions, events, held),
        0 <= k <= events.len(),
        forall|i: int| 0 <= i < actions.len() ==> !changes_store(#[trigger] actions[i]),
    ensures
        held[k] == held[0],
    decreases k,
{
    if k > 0 {
        lemma_store_is_kept(actions, events, held, k - 1);
        assert(!changes_store(actions[k - 1]));
    }
}

/// What the stage of a run tells of its last action and of how it began.
proof fn lemma_change_run(pem: Seq<char>, begin: RootStep, events: Seq<EventView>)
    requires
        begin.0 is Finished <==> begin.1 is Done,
        begin.0 is Directory || begin.0 is Deleting || begin.0 is Finished,
    ensures
        ({
            let t = change_run(pem, begin, events);
            &&& t.actions.len() == events.len() + 1
            &&& t.actions[0] == begin.1
            &&& t.stage is Finished <==> t.actions.last() is Done
            &&& t.stage is Verifying || t.stage is Checking ==> t.actions.last()
                == WindowsActionView::<()>::Run(WindowsCommand::FindUserRoot)
            &&& begin.0 is Directory ==> !(t.stage is Deleting || t.stage is Checking)
            &&& begin.0 is Deleting ==> t.stage is Deleting || t.stage is Checking
                || t.stage is Finished
            &&& begin.0 is Finished ==> t.stage is Finished
            &&& begin.0 is Finished ==> forall|i: int|
                0 <= i < t.actions.len() ==> #[trigger] t.actions[i] is Done
        }),
    decreases events.len(),
{
    if events.len() > 0 {
        lemma_change_run(pem, begin, events.drop_last());
    }
}

/// What an inspection does to the store, and what its stage tells of its first
/// look.
proof fn lemma_inspection_run(e: ExaminedView, events: Seq<EventView>)
    ensures
        ({
            let t = inspection_run(e, events);
            &&& t.actions.len() == events.len() + 1
            &&& t.actions[0] == WindowsActionView::<RootInfoView>::Run(WindowsCommand::FindUserRoot)
            &&& t.stage is Finished <==> t.actions.last() is Done
            &&& t.stage is UserStore ==> events.len() == 0
            &&& match t.stage {
                InspectionStage::MachineStore { installed } => {
                    &&& events.len() > 0
                    &&& events[0] matches EventView::Output(output)
                    &&& installed == or_no(found(output))
                },
                InspectionStage::Conflict { installed, .. } => {
                    &&& events.len() > 0
                    &&& events[0] matches EventView::Output(output)
                    &&& installed == or_no(found(output))
                },
                _ => true,
            }
            &&& forall|i: int|
                0 <= i < t.actions.len() ==> !changes_store(#[trigger] t.actions[i])
        }),
    decreases events.len(),
{
    if events.len() > 0 {
        lemma_inspection_run(e, events.drop_last());
    }
}

/// An inspection changes nothing in the user's store, and reports of a root
/// whether the store holds it.
pub proof fn law_inspections_report_the_store(
    e: ExaminedView,
    events: Seq<EventView>,
    held: Seq<bool>,
    info: RootInfoView,
)
    requires
        is_history(inspection_run(e, events).actions, events, held),
        ends_in(inspection_run(e, events).actions, Ok::<RootInfoView, ErrorView>(info)),
    ensures
        info.installed == held[0],
        held.last() == held[0],
{
    let t = inspection_run(e, events);
    lemma_inspection_run(e, events);
    lemma_store_is_kept(t.actions, events, held, events.len() as int);
    if events.len() > 0 {
        let before = inspection_run(e, events.drop_last());
        lemma_inspection_run(e, events.drop_last());
        assert(t.actions.drop_last() =~= before.actions);
        assert(t.actions[before.actions.len() - 1] == before.actions.last());
        assert(is_look(events[0], held[1]));
        assert(!changes_store(t.actions[0]));
        if events.len() > 1 {
            assert(events.drop_last()[0] == events[0]);
        }
    }
}

/// An installation that succeeds leaves the root in the user's store, where a
/// look found it.
pub proof fn law_installed_roots_are_in_the_store(
    pem: Seq<char>,
    info: RootInfoView,
    allow_same_subject: bool,
    events: Seq<EventView>,
    held: Seq<bool>,
)
    requires
        is_history(
            change_run(pem, install_begin(info, allow_same_subject), events).actions,
            events,
            held,
        ),
        info.installed == held[0],
        ends_in(
            change_run(pem, install_begin(info, allow_same_subject), events).actions,
            Ok::<(), ErrorView>(()),
        ),
    ensures
        held.last(),
        info.installed <==> events.len() == 0,
        events.len() > 0 ==> is_look(events.last(), true) && change_run(
            pem,
            install_begin(info, allow_same_subject),
            events.drop_last(),
        ).actions.last() == WindowsActionView::<()>::Run(WindowsCommand::FindUserRoot),
{
    let begin = install_begin(info, allow_same_subject);
    let t = change_run(pem, begin, events);
    lemma_change_run(pem, begin, events);
    if events.len() > 0 {
        let before = change_run(pem, begin, events.drop_last());
        lemma_change_run(pem, begin, events.drop_last());
        assert(t.actions.drop_last() =~= before.actions);
        let n = events.len() - 1;
        assert(t.actions[n] == before.actions.last());
        assert(!(t.actions[0] is Done));
        assert(t.actions[n + 1] == root_step(pem, before.stage, events.last()).1);
        assert(!(before.stage is Finished));
        assert(is_look(events[n], held[n + 1]));
    }
}

/// Installing a root again changes nothing: after an installation that
/// succeeded, an inspection finds the root installed, and the installation
/// that follows succeeds at once, adds nothing and leaves the root where it is.
/// All of them look for the same thumbprint.
pub proof fn law_installing_twice_is_installing_once(
    root: RootView,
    info: RootInfoView,
    allow_same_subject: bool,
    events: Seq<EventView>,
    held: Seq<bool>,
    again: RootInfoView,
    inspection: Seq<EventView>,
    held_then: Seq<bool>,
    allow_then: bool,
    later: Seq<EventView>,
    held_later: Seq<bool>,
)
    requires
        examined(root) is Ok,
        is_history(
            change_run(root.pem, install_begin(info, allow_same_subject), events).actions,
            events,
            held,
        ),
        info.installed == held[0],
        ends_in(
            change_run(root.pem, install_begin(info, allow_same_subject), events).actions,
            Ok::<(), ErrorView>(()),
        ),
        is_history(inspection_run(examined(root)->Ok_0, inspection).actions, inspection, held_then),
        held_then[0] == held.last(),
        ends_in(
            inspection_run(examined(root)->Ok_0, inspection).actions,
            Ok::<RootInfoView, ErrorView>(again),
        ),
        is_history(
            change_run(root.pem, install_begin(again, allow_then), later).actions,
            later,
            held_later,
        ),
        held_later[0] == held_then.last(),
    ensures
        thumbprint_outcome(root) == Ok::<Seq<char>, ErrorView>(examined(root)->Ok_0.thumbprint),
        again.installed,
        install_begin(again, allow_then) == root_done(),
        forall|i: int|
            0 <= i <= later.len() ==> #[trigger] change_run(
                root.pem,
                install_begin(again, allow_then),
                later,
            ).actions[i] is Done,
        held_later.last(),
{
    law_installed_roots_are_in_the_store(root.pem, info, allow_same_subject, events, held);
    law_inspections_report_the_store(examined(root)->Ok_0, inspection, held_then, again);
    let begin = install_begin(again, allow_then);
    lemma_change_run(root.pem, begin, later);
    assert forall|i: int| 0 <= i < change_run(root.pem, begin, later).actions.len() implies
        !changes_store(#[trigger] change_run(root.pem, begin, later).actions[i]) by {
        assert(change_run(root.pem, begin, later).actions[i] is Done);
    }
    lemma_store_is_kept(
        change_run(root.pem, begin, later).actions,
        later,
        held_later,
        later.len() as int,
    );
}

/// A root whose subject another certificate has is refused at once, and the
/// user's store stays as it is.
pub proof fn law_refused_conflicts_leave_the_store(
    pem: Seq<char>,
    info: RootInfoView,
    events: Seq<EventView>,
    held: Seq<bool>,
)
    requires
        info.conflicting_subject,
        !info.installed,
        is_history(change_run(pem, install_begin(info, false), events).actions, events, held),
    ensures
        change_run(pem, install_begin(info, false), events).actions[0] matches WindowsActionView::Done(
            Err(ErrorView::Certificate(_)),
        ),
        forall|i: int|
            0 <= i <= events.len() ==> #[trigger] change_run(
                pem,
                install_begin(info, false),
                events,
            ).actions[i] is Done,
        held.last() == held[0],
{
    let begin = install_begin(info, false);
    let t = change_run(pem, begin, events);
    lemma_change_run(pem, begin, events);
    assert forall|i: int| 0 <= i < t.actions.len() implies !changes_store(
        #[trigger] t.actions[i],
    ) by {
        assert(t.actions[i] is Done);
    }
    lemma_store_is_kept(t.actions, events, held, events.len() as int);
}

/// A removal that succeeds leaves the user's store without the root.
pub proof fn law_removed_roots_are_gone(
    pem: Seq<char>,
    info: RootInfoView,
    events: Seq<EventView>,
    held: Seq<bool>,
)
    requires
        is_history(change_run(pem, remove_begin(info), events).actions, events, held),
        info.installed == held[0],
        ends_in(
            change_run(pem, remove_begin(info), events).actions,
            Ok::<(), ErrorView>(()),
        ),
    ensures
        !held.last(),
{
    let begin = remove_begin(info);
    let t = change_run(pem, begin, events);
    lemma_change_run(pem, begin, events);
    if events.len() > 0 {
        let before = change_run(pem, begin, events.drop_last());
        lemma_change_run(pem, begin, events.drop_last());
        assert(t.actions.drop_last() =~= before.actions);
        let n = events.len() - 1;
        assert(t.actions[n] == before.actions.last());
        assert(!(t.actions[0] is Done));
        assert(t.actions[n + 1] == root_step(pem, before.stage, events.last()).1);
        assert(!(before.stage is Finished));
        assert(is_look(events[n], held[n + 1]));
    }
}

// ---------------------------------------------------------------------------
// Choosing a root
// ---------------------------------------------------------------------------

/// The first root with the identifier.
pub open spec fn first_root(roots: Seq<RootView>, id: Seq<char>) -> Option<RootView>
    decreases roots.len(),
{
    if roots.len() == 0 {
        None
    } else if roots[0].id == id {
        Some(roots[0])
    } else {
        first_root(roots.drop_first(), id)
    }
}

pub open spec fn root_lookup(config: DeploymentView, id: Seq<char>) -> Result<
    RootView,
    ErrorView,
> {
    match first_root(config.roots, id) {
        Some(root) => Ok(root),
        None => Err(ErrorView::Certificate("unknown embedded root"@)),
    }
}

/// The embedded root with the identifier.
pub fn find_root(config: &DeploymentConfig, id: &str) -> (r: AppResult<RootConfig>)
    ensures
        view_outcome(r) == root_lookup(config@, id@),
{
    let ghost all = config@.roots;
    let mut i: usize = 0;
    assert(all.skip(0) =~= all);
    while i < config.roots.len()
        invariant
            0 <= i <= config.roots@.len(),
            all == config@.roots,
            first_root(all.skip(i as int), id@) == first_root(all, id@),
        decreases config.roots@.len() - i,
    {
        proof {
            assert(all.skip(i as int)[0] == all[i as int]);
            assert(all.skip(i as int).drop_first() =~= all.skip(i + 1));
        }
        if text_eq(config.roots[i].id.as_str(), id) {
            return Ok(config.roots[i].clone());
        }
        i += 1;
    }
    Err(certificate_error("unknown embedded root"))
}

/// The first root that could not be inspected or is not installed, as the
/// outcome of looking at all of them.
pub open spec fn installed_outcome(inspected: Seq<Result<RootInfoView, ErrorView>>) -> Result<
    (),
    ErrorView,
>
    decreases inspected.len(),
{
    if inspected.len() == 0 {
        Ok(())
    } else {
        match inspected[0] {
            Err(e) => Err(e),
            Ok(info) => if info.installed {
                installed_outcome(inspected.drop_first())
            } else {
                Err(
                    ErrorView::Certificate(
                        "install the embedded root certificate before signing in"@,
                    ),
                )
            },
        }
    }
}

/// Nobody signs in before every embedded root is installed.
pub proof fn law_every_root_must_be_installed(inspected: Seq<Result<RootInfoView, ErrorView>>)
    ensures
        installed_outcome(inspected) is Ok <==> (forall|i: int|
            0 <= i < inspected.len() ==> (#[trigger] inspected[i] matches Ok(info)
                && info.installed)),
    decreases inspected.len(),
{
    if inspected.len() > 0 {
        let rest = inspected.drop_first();
        law_every_root_must_be_installed(rest);
        assert(forall|i: int| 0 <= i < rest.len() ==> #[trigger] rest[i] == inspected[i + 1]);
        if installed_outcome(inspected) is Ok {
            assert forall|i: int| 0 <= i < inspected.len() implies (#[trigger] inspected[i] matches Ok(
                info,
            ) && info.installed) by {
                if i > 0 {
                    assert(inspected[i] == rest[i - 1]);
                }
            }
        }
    }
}

pub open spec fn view_inspected(inspected: Seq<AppResult<RootInfo>>) -> Seq<
    Result<RootInfoView, ErrorView>,
> {
    Seq::new(inspected.len(), |i: int| view_outcome(inspected[i]))
}

/// Whether every embedded root is installed, from what their inspections found
/// in the deployment's order.
pub fn ensure_roots_installed(inspected: Vec<AppResult<RootInfo>>) -> (r: AppResult<()>)
    ensures
        outcome(r) == installed_outcome(view_inspected(inspected@)),
{
    let ghost all = view_inspected(inspected@);
    let mut rest: Vec<AppResult<RootInfo>> = inspected;
    assert(view_inspected(rest@) =~= all.skip(0));
    assert(all.skip(0) =~= all);
    let ghost mut n: int = 0;
    while rest.len() > 0
        invariant
            all == view_inspected(inspected@),
            0 <= n <= all.len(),
            view_inspected(rest@) == all.skip(n),
            installed_outcome(all.skip(n)) == installed_outcome(all),
        decreases rest@.len(),
    {
        let ghost before = rest@;
        let first: AppResult<RootInfo> = rest.remove(0);
        proof {
            assert(view_inspected(before)[0] == view_outcome(first));
            assert(view_inspected(rest@) =~= view_inspected(before).drop_first());
            assert(all.skip(n).drop_first() =~= all.skip(n + 1));
        }
        match first {
            Err(e) => return Err(e),
            Ok(info) => if !info.installed {
                return Err(
                    certificate_error("install the embedded root certificate before signing in"),
                );
            },
        }
        proof {
            n = n + 1;
        }
    }
    Ok(())
}

/// There is an inspection for every embedded root, in the deployment's order,
/// or as many as it takes to find one that is not installed. A deployment that
/// is not configured needs none.
pub open spec fn covers_roots(
    config: DeploymentView,
    inspected: Seq<Result<RootInfoView, ErrorView>>,
) -> bool {
    config.configured ==> inspected.len() == config.roots.len() || installed_outcome(inspected) is Err
}

/// Whether the client may talk to the server: the deployment is configured, and
/// every embedded root is installed.
pub open spec fn ready_outcome(
    config: DeploymentView,
    inspected: Seq<Result<RootInfoView, ErrorView>>,
) -> Result<(), ErrorView> {
    match configured_outcome(config) {
        Err(e) => Err(e),
        Ok(()) => installed_outcome(inspected),
    }
}

/// Whether the client may talk to the server, from what the inspections of the
/// deployment's roots found.
pub fn ensure_ready(config: &DeploymentConfig, inspected: Vec<AppResult<RootInfo>>) -> (r:
    AppResult<()>)
    requires
        covers_roots(config@, view_inspected(inspected@)),
    ensures
        outcome(r) == ready_outcome(config@, view_inspected(inspected@)),
{
    match ensure_configured(config) {
        Ok(()) => ensure_roots_installed(inspected),
        Err(e) => Err(e),
    }
}

/// The client talks to the server exactly once the deployment is configured
/// and the inspection of each of its roots found it installed.
pub proof fn law_readiness_needs_every_root(
    config: DeploymentView,
    inspected: Seq<Result<RootInfoView, ErrorView>>,
)
    requires
        covers_roots(config, inspected),
    ensures
        ready_outcome(config, inspected) is Ok <==> {
            &&& config.configured
            &&& inspected.len() == config.roots.len()
            &&& forall|i: int|
                0 <= i < config.roots.len() ==> (#[trigger] inspected[i] matches Ok(info)
                    && info.installed)
        },
{
    law_every_root_must_be_installed(inspected);
}

/// What the inspection of a root found, and that its run came to it while the
/// store was as `held` tells.
pub open spec fn is_inspection_of(
    root: RootView,
    inspected: Result<RootInfoView, ErrorView>,
    events: Seq<EventView>,
    held: Seq<bool>,
) -> bool {
    match examined(root) {
        Err(e) => inspected == Err::<RootInfoView, ErrorView>(e),
        Ok(e) => {
            &&& ends_in(inspection_run(e, events).actions, inspected)
            &&& is_history(inspection_run(e, events).actions, events, held)
        },
    }
}

/// Where the client may talk to the server, every embedded root is in the
/// user's store.
pub proof fn law_ready_clients_hold_every_root(
    config: DeploymentView,
    inspected: Seq<Result<RootInfoView, ErrorView>>,
    events: Seq<Seq<EventView>>,
    held: Seq<Seq<bool>>,
)
    requires
        covers_roots(config, inspected),
        ready_outcome(config, inspected) is Ok,
        forall|i: int|
            0 <= i < config.roots.len() ==> is_inspection_of(
                #[trigger] config.roots[i],
                inspected[i],
                events[i],
                held[i],
            ),
    ensures
        forall|i: int|
            0 <= i < config.roots.len() ==> examined(#[trigger] config.roots[i]) is Ok
                && held[i].last(),
{
    law_readiness_needs_every_root(config, inspected);
    assert forall|i: int| 0 <= i < config.roots.len() implies examined(
        #[trigger] config.roots[i],
    ) is Ok && held[i].last() by {
        assert(is_inspection_of(config.roots[i], inspected[i], events[i], held[i]));
        assert(inspected[i] is Ok);
        law_inspections_report_the_store(
            examined(config.roots[i])->Ok_0,
            events[i],
            held[i],
            inspected[i]->Ok_0,
        );
    }
}

// ---------------------------------------------------------------------------
// Replacing a root
// ---------------------------------------------------------------------------

/// The path under which a root's successor is found, where there is one.
pub open spec fn refresh_outcome(root: RootView) -> Result<Seq<char>, ErrorView> {
    match root.refresh_path {
        Some(path) => Ok(path),
        None => Err(ErrorView::Certificate("this root has no refresh endpoint"@)),
    }
}

/// The path under which a root's successor is found.
pub fn refresh_path_of(root: &RootConfig) -> (r: AppResult<String>)
    ensures
        view_outcome(r) == refresh_outcome(root@),
        view_outcome(r) == (match root@.refresh_path {
            Some(path) => Ok::<Seq<char>, ErrorView>(path),
            None => Err::<Seq<char>, ErrorView>(
                ErrorView::Certificate("this root has no refresh endpoint"@),
            ),
        }),
{
    match &root.refresh_path {
        Some(path) => Ok(path.clone()),
        None => Err(certificate_error("this root has no refresh endpoint")),
    }
}

/// The root with its successor's certificate and fingerprint.
pub open spec fn refreshed(root: RootView, pem: Seq<char>) -> Result<RootView, ErrorView> {
    match parsed_pem(pem) {
        None => Err(ErrorView::Certificate("OpenBao returned invalid root PEM"@)),
        Some(block) => Ok(
            RootView { pem, sha256: sha256_fingerprint(block.contents), ..root },
        ),
    }
}

/// The root with the certificate that the server gave out in its place.
pub fn refreshed_root(root: RootConfig, pem: String) -> (r: AppResult<RootConfig>)
    ensures
        view_outcome(r) == refreshed(root@, pem@),
{
    match parse_pem(pem.as_str()) {
        None => Err(certificate_error("OpenBao returned invalid root PEM")),
        Some(block) => Ok(
            RootConfig {
                id: root.id,
                sha256: fingerprint_of(block.contents.as_slice()),
                pem,
                refresh_path: root.refresh_path,
            },
        ),
    }
}

/// The state once a successor was inspected: it is pending where the inspection
/// succeeded, and otherwise nothing changes.
pub open spec fn after_inspection(
    runtime: RuntimeView,
    root: RootView,
    inspection: Result<RootInfoView, ErrorView>,
) -> RuntimeView {
    match inspection {
        Ok(_) => RuntimeView { pending_root: Some(root), ..runtime },
        Err(_) => runtime,
    }
}

/// Keeps a root that was inspected until the user has approved it, and says
/// what the inspection found.
pub fn hold_root(runtime: &mut RuntimeState, root: RootConfig, inspection: AppResult<RootInfo>) -> (r:
    AppResult<RootInfo>)
    ensures
        r == inspection,
        final(runtime)@ == after_inspection(old(runtime)@, root@, view_outcome(inspection)),
{
    if inspection.is_ok() {
        runtime.pending_root = Some(root);
    }
    inspection
}

/// The pending root, if it is the one that the user approved.
pub open spec fn approved(
    pending: Option<RootView>,
    id: Seq<char>,
    fingerprint: Seq<char>,
) -> Result<RootView, ErrorView> {
    match pending {
        Some(root) => if root.id == id && same_ignoring_case(root.sha256, fingerprint) {
            Ok(root)
        } else {
            Err(ErrorView::Certificate("the pending root update changed; check it again"@))
        },
        None => Err(ErrorView::Certificate("the pending root update changed; check it again"@)),
    }
}

/// The state once an approval was judged: nothing is pending any more.
pub open spec fn after_approval(runtime: RuntimeView) -> RuntimeView {
    RuntimeView { pending_root: None, ..runtime }
}

/// Takes the pending root, if it is the one that the user approved. Nothing is
/// pending afterwards either way.
pub fn approve_root_update(runtime: &mut RuntimeState, id: &str, fingerprint: &str) -> (r: AppResult<
    RootConfig,
>)
    ensures
        view_outcome(r) == approved(old(runtime)@.pending_root, id@, fingerprint@),
        final(runtime)@ == after_approval(old(runtime)@),
{
    let pending: Option<RootConfig> = runtime.pending_root.take();
    if let Some(root) = pending {
        if text_eq(root.id.as_str(), id) && eq_ignoring_case(root.sha256.as_str(), fingerprint) {
            return Ok(root);
        }
    }
    Err(certificate_error("the pending root update changed; check it again"))
}

/// A root whose inspection failed is never approved: it does not become
/// pending, and one that was pending before still is.
pub proof fn law_uninspected_roots_are_not_approved(
    runtime: RuntimeView,
    root: RootView,
    error: ErrorView,
    id: Seq<char>,
    fingerprint: Seq<char>,
)
    ensures
        approved(
            after_inspection(runtime, root, Err(error)).pending_root,
            id,
            fingerprint,
        ) == approved(runtime.pending_root, id, fingerprint),
        runtime.pending_root is None ==> approved(
            after_inspection(runtime, root, Err(error)).pending_root,
            id,
            fingerprint,
        ) is Err,
{
}

/// Only the pending root's own fingerprint approves it, and it does so once:
/// whatever was said of the pending root, a second approval is refused.
pub proof fn law_approval_is_by_fingerprint(
    runtime: RuntimeView,
    id: Seq<char>,
    fingerprint: Seq<char>,
)
    ensures
        approved(runtime.pending_root, id, fingerprint) matches Ok(root) ==> runtime.pending_root
            == Some(root) && same_ignoring_case(root.sha256, fingerprint) && root.id == id,
        approved(after_approval(runtime).pending_root, id, fingerprint) is Err,
{
}

/// A successor keeps the root's identifier and the path it came by, and its
/// fingerprint is that of its own certificate.
pub proof fn law_successors_carry_their_own_fingerprint(root: RootView, pem: Seq<char>)
    requires
        refreshed(root, pem) is Ok,
    ensures
        refreshed(root, pem)->Ok_0.id == root.id,
        refreshed(root, pem)->Ok_0.refresh_path == root.refresh_path,
        parsed_pem(pem) matches Some(block) && refreshed(root, pem)->Ok_0.sha256
            == sha256_fingerprint(block.contents),
{
}

// ---------------------------------------------------------------------------
// What is known of a root, and how it changes
// ---------------------------------------------------------------------------

/// A root is examined with success exactly where its text holds a certificate
/// that names itself as its issuer and says that it is an authority; what is
/// known of it then is what the certificate says, with its SHA-256 in lower
/// case and its SHA-1 in upper case.
pub proof fn law_roots_are_what_their_bytes_say(root: RootView)
    ensures
        examined(root) is Ok <==> {
            &&& parsed_pem(root.pem) matches Some(block)
            &&& certificate(block.contents) matches Some(cert)
            &&& cert.subject.raw == cert.issuer.raw
            &&& cert.authority == Some(true)
        },
        examined(root) matches Ok(e) ==> {
            let der = parsed_pem(root.pem)->Some_0.contents;
            let cert = certificate(der)->Some_0;
            &&& e.id == root.id
            &&& e.subject == cert.subject.text
            &&& e.issuer == cert.issuer.text
            &&& e.fingerprint == hex(sha256_digest(der))
            &&& e.thumbprint == upper(hex(sha1_digest(der)))
            &&& e.not_before == cert.not_before
            &&& e.not_after == cert.not_after
            &&& e.refreshable <==> root.refresh_path is Some
            &&& thumbprint_outcome(root) == Ok::<Seq<char>, ErrorView>(e.thumbprint)
        },
        thumbprint_outcome(root) is Ok <==> parsed_pem(root.pem) is Some,
{
}

/// The fingerprint and the thumbprint go into the examination as they were
/// computed.
pub proof fn law_examinations_keep_both_prints(
    root: RootView,
    cert: CertificateView,
    fingerprint: Seq<char>,
    thumbprint: Seq<char>,
)
    ensures
        examined_certificate(root, cert, fingerprint, thumbprint) is Ok <==> cert.subject.raw
            == cert.issuer.raw && cert.authority == Some(true),
        examined_certificate(root, cert, fingerprint, thumbprint) matches Ok(e) ==> e.fingerprint
            == fingerprint && e.thumbprint == thumbprint && e.id == root.id,
{
}

/// The script looks for the given subject, which stands in it in Base64 only,
/// and for certificates whose fingerprint is not the given one, in the root
/// store of the current user; it ends with seven where it finds one.
pub proof fn law_scripts_look_for_other_certificates(subject: Seq<char>, fingerprint: Seq<char>)
    ensures
        contains(
            conflict_script_text(subject, fingerprint),
            "FromBase64String('"@ + base64_text(encode_utf8(subject)) + "')"@,
        ),
        contains(
            conflict_script_text(subject, fingerprint),
            "$f='"@ + lower(fingerprint) + "';"@,
        ),
        contains(
            conflict_script_text(subject, fingerprint),
            "Get-ChildItem Cert:\\CurrentUser\\Root | Where-Object {$_.Subject -eq $s -and "@,
        ),
        contains(
            conflict_script_text(subject, fingerprint),
            " -ne $f}); if($conflict.Count -gt 0){exit 7}else{exit 0}"@,
        ),
{
    let head = "$s=[Text.Encoding]::UTF8.GetString([Convert]::FromBase64String('"@;
    let between = "')); $f='"@;
    let tail =
        "'; $sha=[Security.Cryptography.SHA256]::Create(); $conflict=@(Get-ChildItem Cert:\\CurrentUser\\Root | Where-Object {$_.Subject -eq $s -and (($sha.ComputeHash($_.RawData) | ForEach-Object {$_.ToString('x2')}) -join '') -ne $f}); if($conflict.Count -gt 0){exit 7}else{exit 0}"@;
    reveal_strlit("$s=[Text.Encoding]::UTF8.GetString([Convert]::FromBase64String('");
    reveal_strlit("')); $f='");
    reveal_strlit(
        "'; $sha=[Security.Cryptography.SHA256]::Create(); $conflict=@(Get-ChildItem Cert:\\CurrentUser\\Root | Where-Object {$_.Subject -eq $s -and (($sha.ComputeHash($_.RawData) | ForEach-Object {$_.ToString('x2')}) -join '') -ne $f}); if($conflict.Count -gt 0){exit 7}else{exit 0}",
    );
    reveal_strlit("FromBase64String('");
    reveal_strlit("')");
    reveal_strlit("$f='");
    reveal_strlit("';");
    reveal_strlit(
        "Get-ChildItem Cert:\\CurrentUser\\Root | Where-Object {$_.Subject -eq $s -and ",
    );
    reveal_strlit(" -ne $f}); if($conflict.Count -gt 0){exit 7}else{exit 0}");
    let encoded = base64_text(encode_utf8(subject));
    let expected = lower(fingerprint);
    let text = conflict_script_text(subject, fingerprint);
    let h: int = head.len() as int;
    let e: int = h + encoded.len();
    let b: int = e + between.len();
    let f: int = b + expected.len();
    let first = "FromBase64String('"@;
    assert(text.subrange(h - first.len(), e + 2) =~= first + encoded + "')"@);
    assert(occurs_at(text, first + encoded + "')"@, h - first.len()));
    assert(text.subrange(b - 4, f + 2) =~= "$f='"@ + expected + "';"@);
    assert(occurs_at(text, "$f='"@ + expected + "';"@, b - 4));
    let look = "Get-ChildItem Cert:\\CurrentUser\\Root | Where-Object {$_.Subject -eq $s -and "@;
    assert(text.subrange(f + 62, f + 62 + look.len()) =~= look);
    assert(occurs_at(text, look, f + 62));
    let end = " -ne $f}); if($conflict.Count -gt 0){exit 7}else{exit 0}"@;
    assert(text.subrange(text.len() - end.len(), text.len() as int) =~= end);
    assert(occurs_at(text, end, text.len() - end.len()));
}

/// A root is in a store where the search succeeded, and conflicts with another
/// one where the script ended with seven; a command that could not be run says
/// neither.
pub proof fn law_searches_answer_by_their_end(output: OutputView, error: ErrorView)
    ensures
        found(Ok(output)) == Ok::<bool, ErrorView>(output.success),
        found(Err(error)) == Err::<bool, ErrorView>(error),
        conflicts(Ok(output)) == Ok::<bool, ErrorView>(
            output.code is Some && output.code->Some_0 == 7,
        ),
        conflicts(Err(error)) == Err::<bool, ErrorView>(error),
        or_no(found(Ok(output))) <==> output.success,
        !or_no(found(Err(error))),
        !or_no(conflicts(Err(error))),
{
}

/// An inspection looks into the user's store, then into the machine's, then for
/// a conflict, and reports each answer where it belongs, beside what is known
/// of the root.
pub proof fn law_inspections_report_each_answer(
    e: ExaminedView,
    user: OutputView,
    machine: OutputView,
    script: OutputView,
)
    ensures
        ({
            let (second, look) = inspection_step(
                e,
                InspectionStage::UserStore,
                EventView::Output(Ok(user)),
            );
            let (third, run) = inspection_step(e, second, EventView::Output(Ok(machine)));
            let (_, done) = inspection_step(e, third, EventView::Output(Ok(script)));
            &&& look == WindowsActionView::<RootInfoView>::Run(WindowsCommand::FindMachineRoot)
            &&& run == WindowsActionView::<RootInfoView>::Run(WindowsCommand::Script)
            &&& done is Done && done->Done_0 is Ok
            &&& ({
                let info = done->Done_0->Ok_0;
                &&& info.id == e.id
                &&& info.subject == e.subject
                &&& info.issuer == e.issuer
                &&& info.fingerprint == e.fingerprint
                &&& info.not_before == e.not_before
                &&& info.not_after == e.not_after
                &&& info.refreshable == e.refreshable
                &&& info.installed == user.success
                &&& info.machine_installed == machine.success
                &&& info.conflicting_subject <==> script.code == Some(7i32)
            })
        }),
{
}

/// A command that could not be run counts as one that found nothing, and the
/// inspection goes on.
pub proof fn law_failed_searches_find_nothing(e: ExaminedView, error: ErrorView)
    ensures
        ({
            let (second, look) = inspection_step(
                e,
                InspectionStage::UserStore,
                EventView::Output(Err(error)),
            );
            let (third, run) = inspection_step(e, second, EventView::Output(Err(error)));
            let (_, done) = inspection_step(e, third, EventView::Output(Err(error)));
            &&& look == WindowsActionView::<RootInfoView>::Run(WindowsCommand::FindMachineRoot)
            &&& run == WindowsActionView::<RootInfoView>::Run(WindowsCommand::Script)
            &&& done is Done && done->Done_0 is Ok
            &&& !done->Done_0->Ok_0.installed
            &&& !done->Done_0->Ok_0.machine_installed
            &&& !done->Done_0->Ok_0.conflicting_subject
        }),
{
}

/// The stores are searched by the thumbprint, and the script is run for the
/// subject and the fingerprint.
pub proof fn law_searches_are_by_thumbprint(e: ExaminedView)
    ensures
        command_subject(e, WindowsCommand::FindUserRoot) == e.thumbprint,
        command_subject(e, WindowsCommand::FindMachineRoot) == e.thumbprint,
        command_subject(e, WindowsCommand::AddRoot) == e.thumbprint,
        command_subject(e, WindowsCommand::DeleteRoot) == e.thumbprint,
        command_subject(e, WindowsCommand::Script) == conflict_script_text(
            e.subject,
            e.fingerprint,
        ),
{
}

/// An inspection begins with the user's store, and only of a root that could be
/// examined.
pub proof fn law_inspections_begin_with_the_users_store(root: RootView)
    ensures
        inspection_begin(root) is Ok <==> examined(root) is Ok,
        inspection_begin(root) matches Ok(begun) ==> begun.0 == examined(root)->Ok_0 && begun.1
            == InspectionStage::UserStore,
        inspection_begin(root) is Err ==> inspection_begin(root)->Err_0 == examined(root)->Err_0,
{
}

/// A root that is not there is installed unless another one has its subject;
/// a successor is installed all the same. One that is there stays as it is.
pub proof fn law_successors_may_share_a_subject(info: RootInfoView)
    ensures
        !info.installed && !info.conflicting_subject ==> install_first(info).1
            == WindowsActionView::<()>::CreateDirectory,
        !info.installed && info.conflicting_subject ==> install_first(info).1
            == WindowsActionView::<()>::Done(
            Err(
                ErrorView::Certificate(
                    "a different root with the same subject is already installed; resolve the conflict manually"@,
                ),
            ),
        ),
        !info.installed ==> install_successor(info).1
            == WindowsActionView::<()>::CreateDirectory,
        info.installed ==> install_first(info).1 == WindowsActionView::<()>::Done(Ok(()))
            && install_successor(info).1 == WindowsActionView::<()>::Done(Ok(())),
        forall|allow: bool| #[trigger]
            install_begin(info, allow) == if allow {
                install_successor(info)
            } else {
                install_first(info)
            },
{
}

/// An installation that goes well: the certificate is written as it is, added,
/// and looked for.
pub proof fn law_installations_that_go_well(
    pem: Seq<char>,
    info: RootInfoView,
    added: OutputView,
    seen: OutputView,
)
    requires
        !info.installed,
        !info.conflicting_subject,
        added.success,
        seen.success,
    ensures
        ({
            let (begun, create) = install_first(info);
            let (staging, write) = root_step(pem, begun, EventView::Directory(true));
            let (adding, add) = root_step(pem, staging, EventView::Written(true));
            let (verifying, look) = root_step(pem, adding, EventView::Output(Ok(added)));
            let (_, done) = root_step(pem, verifying, EventView::Output(Ok(seen)));
            &&& create == WindowsActionView::<()>::CreateDirectory
            &&& write == WindowsActionView::<()>::Write(WindowsFile::Root, pem)
            &&& add == WindowsActionView::<()>::Run(WindowsCommand::AddRoot)
            &&& look == WindowsActionView::<()>::Run(WindowsCommand::FindUserRoot)
            &&& done == WindowsActionView::<()>::Done(Ok(()))
        }),
{
}

/// A removal that goes well: the root is deleted, looked for, and not found.
pub proof fn law_removals_that_go_well(
    pem: Seq<char>,
    info: RootInfoView,
    deleted: OutputView,
    seen: OutputView,
)
    requires
        info.installed,
        deleted.success,
        !seen.success,
    ensures
        ({
            let (begun, delete) = remove_begin(info);
            let (checking, look) = root_step(pem, begun, EventView::Output(Ok(deleted)));
            let (_, done) = root_step(pem, checking, EventView::Output(Ok(seen)));
            &&& delete == WindowsActionView::<()>::Run(WindowsCommand::DeleteRoot)
            &&& look == WindowsActionView::<()>::Run(WindowsCommand::FindUserRoot)
            &&& done == WindowsActionView::<()>::Done(Ok(()))
        }),
{
}

/// A fault ends a change of the store with its own message.
pub proof fn law_faults_end_the_change(
    pem: Seq<char>,
    failed: OutputView,
    succeeded: OutputView,
    error: ErrorView,
    event: EventView,
)
    requires
        !failed.success,
        succeeded.success,
    ensures
        root_step(pem, RootStageView::Directory, EventView::Directory(false)).1
            == WindowsActionView::<()>::Done(
            Err(ErrorView::Certificate("could not create a protected temporary directory"@)),
        ),
        root_step(pem, RootStageView::Staging, EventView::Written(false)).1
            == WindowsActionView::<()>::Done(
            Err(ErrorView::Certificate("could not stage the root certificate"@)),
        ),
        root_step(pem, RootStageView::Adding, EventView::Output(Ok(failed))).1
            == WindowsActionView::<()>::Done(
            Err(
                ErrorView::Certificate(
                    command_message("Windows did not install the root certificate"@, failed),
                ),
            ),
        ),
        root_step(pem, RootStageView::Verifying, EventView::Output(Ok(failed))).1
            == WindowsActionView::<()>::Done(
            Err(ErrorView::Certificate("root installation could not be verified"@)),
        ),
        root_step(pem, RootStageView::Deleting, EventView::Output(Ok(failed))).1
            == WindowsActionView::<()>::Done(
            Err(
                ErrorView::Certificate(
                    command_message("Windows did not remove the root certificate"@, failed),
                ),
            ),
        ),
        root_step(
            pem,
            root_step(pem, RootStageView::Deleting, EventView::Output(Ok(succeeded))).0,
            EventView::Output(Ok(succeeded)),
        ).1 == WindowsActionView::<()>::Done(
            Err(
                ErrorView::Certificate(
                    command_message("Windows did not remove the root certificate"@, succeeded),
                ),
            ),
        ),
        root_step(pem, RootStageView::Adding, EventView::Output(Err(error))).1
            == WindowsActionView::<()>::Done(Err(error)),
        root_step(pem, RootStageView::Verifying, EventView::Output(Err(error))).1
            == WindowsActionView::<()>::Done(Err(error)),
        root_step(pem, RootStageView::Deleting, EventView::Output(Err(error))).1
            == WindowsActionView::<()>::Done(Err(error)),
        root_step(pem, RootStageView::Finished, event).1 == WindowsActionView::<()>::Done(
            Err(ErrorView::Internal),
        ),
{
}

/// A root is found by its own identifier, and the first one of that name where
/// there are more; where none has it, the root is unknown.
pub proof fn law_roots_are_found_by_their_identifier(
    config: DeploymentView,
    id: Seq<char>,
    i: int,
)
    requires
        0 <= i < config.roots.len(),
    ensures
        config.roots[i].id == id && (forall|j: int|
            0 <= j < i ==> (#[trigger] config.roots[j]).id != id) ==> root_lookup(config, id)
            == Ok::<RootView, ErrorView>(config.roots[i]),
        (forall|j: int| 0 <= j < config.roots.len() ==> (#[trigger] config.roots[j]).id != id)
            ==> root_lookup(config, id) == Err::<RootView, ErrorView>(
            ErrorView::Certificate("unknown embedded root"@),
        ),
{
    lemma_first_root(config.roots, id);
    if config.roots[i].id == id && (forall|j: int|
        0 <= j < i ==> (#[trigger] config.roots[j]).id != id) {
        assert(first_root(config.roots, id) is Some);
    }
}

proof fn lemma_first_root(roots: Seq<RootView>, id: Seq<char>)
    ensures
        first_root(roots, id) is None <==> forall|j: int|
            0 <= j < roots.len() ==> (#[trigger] roots[j]).id != id,
        forall|i: int|
            0 <= i < roots.len() && (#[trigger] roots[i]).id == id && (forall|j: int|
                0 <= j < i ==> (#[trigger] roots[j]).id != id) ==> first_root(roots, id)
                == Some(roots[i]),
    decreases roots.len(),
{
    if roots.len() > 0 && roots[0].id != id {
        let rest = roots.drop_first();
        lemma_first_root(rest, id);
        assert forall|i: int|
            0 <= i < roots.len() && (#[trigger] roots[i]).id == id && (forall|j: int|
                0 <= j < i ==> (#[trigger] roots[j]).id != id) implies first_root(roots, id)
            == Some(roots[i]) by {
            assert(rest[i - 1] == roots[i]);
            assert forall|j: int| 0 <= j < i - 1 implies (#[trigger] rest[j]).id != id by {
                assert(rest[j] == roots[j + 1]);
            }
        }
        if first_root(roots, id) is None {
            assert forall|j: int| 0 <= j < roots.len() implies (#[trigger] roots[j]).id != id by {
                if j > 0 {
                    assert(rest[j - 1] == roots[j]);
                }
            }
        }
        if forall|j: int| 0 <= j < roots.len() ==> (#[trigger] roots[j]).id != id {
            assert forall|j: int| 0 <= j < rest.len() implies (#[trigger] rest[j]).id != id by {
                assert(rest[j] == roots[j + 1]);
            }
        }
    }
}

/// Where roots are missing, the first that is missing or could not be inspected
/// decides what is said.
pub proof fn law_the_first_missing_root_is_reported(
    inspected: Seq<Result<RootInfoView, ErrorView>>,
    i: int,
)
    requires
        0 <= i < inspected.len(),
        forall|j: int|
            0 <= j < i ==> (#[trigger] inspected[j] matches Ok(info) && info.installed),
    ensures
        inspected[i] matches Err(e) ==> installed_outcome(inspected) == Err::<(), ErrorView>(e),
        inspected[i] matches Ok(info) ==> (!info.installed ==> installed_outcome(inspected) == Err::<
            (),
            ErrorView,
        >(ErrorView::Certificate("install the embedded root certificate before signing in"@))),
    decreases i,
{
    if i > 0 {
        let rest = inspected.drop_first();
        assert(inspected[0] is Ok);
        assert forall|j: int| 0 <= j < i - 1 implies (#[trigger] rest[j] matches Ok(info)
            && info.installed) by {
            assert(rest[j] == inspected[j + 1]);
        }
        law_the_first_missing_root_is_reported(rest, i - 1);
        assert(rest[i - 1] == inspected[i]);
    }
}

/// A root is refreshed from its own path; one that has none is not refreshed.
pub proof fn law_roots_are_refreshed_from_their_path(root: RootView)
    ensures
        refresh_outcome(root) is Ok <==> root.refresh_path is Some,
        root.refresh_path is Some ==> refresh_outcome(root)->Ok_0 == root.refresh_path->Some_0,
        root.refresh_path is None ==> refresh_outcome(root)->Err_0 == ErrorView::Certificate(
            "this root has no refresh endpoint"@,
        ),
{
}

/// A successor is the certificate that the server gave, with the fingerprint of
/// its bytes, under the root's own identifier; text that is no PEM is none.
pub proof fn law_successors_are_what_the_server_gave(root: RootView, pem: Seq<char>)
    ensures
        refreshed(root, pem) is Ok <==> parsed_pem(pem) is Some,
        refreshed(root, pem) matches Ok(successor) ==> {
            &&& successor.pem == pem
            &&& successor.sha256 == hex(sha256_digest(parsed_pem(pem)->Some_0.contents))
            &&& successor.id == root.id
            &&& successor.refresh_path == root.refresh_path
        },
{
}

/// A successor that was inspected waits for approval, and is approved under its
/// identifier and its fingerprint, in whatever case; any other identifier or
/// fingerprint is refused. Session and login are left alone.
pub proof fn law_inspected_successors_can_be_approved(
    runtime: RuntimeView,
    root: RootView,
    info: RootInfoView,
    id: Seq<char>,
    fingerprint: Seq<char>,
)
    ensures
        ({
            let held = after_inspection(runtime, root, Ok(info));
            &&& approved(held.pending_root, id, fingerprint) is Ok <==> root.id == id && lower(
                root.sha256,
            ) == lower(fingerprint)
            &&& approved(held.pending_root, id, fingerprint) matches Ok(given) ==> given == root
            &&& approved(held.pending_root, id, fingerprint) is Err ==> approved(
                held.pending_root,
                id,
                fingerprint,
            )->Err_0 == ErrorView::Certificate(
                "the pending root update changed; check it again"@,
            )
            &&& held.session == runtime.session
            &&& held.login_cancel == runtime.login_cancel
            &&& after_approval(held).pending_root is None
            &&& after_approval(held).session == runtime.session
            &&& after_approval(held).login_cancel == runtime.login_cancel
        }),
{
}

/// A root that cannot be examined says why: the first of these that holds.
pub proof fn law_refused_examinations_say_why(root: RootView, pem: Seq<char>)
    ensures
        ({
            let block = parsed_pem(root.pem);
            let cert = certificate(block->Some_0.contents);
            &&& block is None ==> examined(root) == Err::<ExaminedView, ErrorView>(
                ErrorView::Certificate("embedded root is invalid PEM"@),
            )
            &&& block is None ==> thumbprint_outcome(root) == Err::<Seq<char>, ErrorView>(
                ErrorView::Certificate("embedded root is invalid PEM"@),
            )
            &&& block is Some && cert is None ==> examined(root) == Err::<ExaminedView, ErrorView>(
                ErrorView::Certificate("embedded root is invalid X.509"@),
            )
            &&& block is Some && cert is Some && examined(root) is Err ==> examined(root)->Err_0
                == ErrorView::Certificate(
                "embedded certificate "@ + root.id + " is not a self-signed CA"@,
            )
        }),
        parsed_pem(pem) is None ==> refreshed(root, pem) == Err::<RootView, ErrorView>(
            ErrorView::Certificate("OpenBao returned invalid root PEM"@),
        ),
{
}

} // verus!
