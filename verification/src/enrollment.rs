//! Certificate requests whose key Windows keeps, from the request to the
//! accepted certificate.
//!
//! As with a YubiKey, the caller acts and the machines say what to do next.

use vstd::prelude::*;

use crate::certificates::{
    identity_outcome, is_identity, issued_outcome, valid_pem_at, validate_identity,
    validate_issued_certificate, view_accepted, AcceptancePolicy, IssuedCertificate, IssuedView,
};
use crate::config::{CertificateProfile, CertificatePurpose, ProfileView};
use crate::error::{certificate_error, outcome, view_outcome, AppError, AppResult, ErrorView};
use crate::process::{command_error, command_message, CommandOutput, Event, EventView, OutputView};
use crate::secret::{is_hyphenated_id, new_container_id};
use crate::text::{concat4, contains, includes, is_control, occurs_at, replace, replaced, view_all};
use crate::windows::{
    view_windows_action, WindowsAction, WindowsActionView, WindowsCommand, WindowsFile,
};

verus! {

// ---------------------------------------------------------------------------
// Instructions for a request
// ---------------------------------------------------------------------------

/// The key usage that a request asks for.
pub open spec fn requested_usage(purpose: CertificatePurpose) -> Seq<char> {
    match purpose {
        CertificatePurpose::Mtls => "0xa0"@,
        CertificatePurpose::DocumentSigning => "0xc0"@,
        CertificatePurpose::CodeSigning => "0x80"@,
    }
}

/// The name of the container that the key is made in.
pub open spec fn container_name(profile_id: Seq<char>, id: Seq<char>) -> Seq<char> {
    "OpenBao-"@ + profile_id + "-"@ + id
}

/// A name as it stands between quotes: its own quotes are doubled.
pub open spec fn quoted(name: Seq<char>) -> Seq<char> {
    replace(name, '"', "\"\""@)
}

/// The instructions from which Windows makes a key and a request: a 3072-bit
/// RSA key that cannot be exported, in a container of the current user.
pub open spec fn instructions(
    common_name: Seq<char>,
    container: Seq<char>,
    purpose: CertificatePurpose,
) -> Seq<char> {
    "[Version]\nSignature=\"$Windows NT$\"\n\n[NewRequest]\nSubject=\"CN="@ + quoted(common_name)
        + "\"\nExportable=FALSE\nKeyLength=3072\nKeyAlgorithm=RSA\nHashAlgorithm=sha256\nKeySpec=0\nProviderName=\"Microsoft Software Key Storage Provider\"\nProviderType=0\nMachineKeySet=FALSE\nRequestType=PKCS10\nKeyContainer=\""@
        + container + "\"\nKeyUsage="@ + requested_usage(purpose) + "\nSilent=TRUE\n"@
}

fn request_instructions(common_name: &str, container: &str, purpose: CertificatePurpose) -> (r:
    String)
    ensures
        r@ == instructions(common_name@, container@, purpose),
{
    let name: String = replaced(common_name, '"', "\"\"");
    let usage: &str = match purpose {
        CertificatePurpose::Mtls => "0xa0",
        CertificatePurpose::DocumentSigning => "0xc0",
        CertificatePurpose::CodeSigning => "0x80",
    };
    let start: String = concat4(
        "[Version]\nSignature=\"$Windows NT$\"\n\n[NewRequest]\nSubject=\"CN=",
        name.as_str(),
        "\"\nExportable=FALSE\nKeyLength=3072\nKeyAlgorithm=RSA\nHashAlgorithm=sha256\nKeySpec=0\nProviderName=\"Microsoft Software Key Storage Provider\"\nProviderType=0\nMachineKeySet=FALSE\nRequestType=PKCS10\nKeyContainer=\"",
        container,
    );
    concat4(start.as_str(), "\"\nKeyUsage=", usage, "\nSilent=TRUE\n")
}

/// What a reader of quoted text makes of it: a doubled quote is one quote, and
/// a single one would end the text.
pub open spec fn quoted_reading(s: Seq<char>) -> Option<Seq<char>>
    decreases s.len(),
{
    if s.len() == 0 {
        Some(Seq::empty())
    } else if s[0] != '"' {
        match quoted_reading(s.skip(1)) {
            Some(rest) => Some(seq![s[0]] + rest),
            None => None,
        }
    } else if s.len() >= 2 && s[1] == '"' {
        match quoted_reading(s.skip(2)) {
            Some(rest) => Some(seq!['"'] + rest),
            None => None,
        }
    } else {
        None
    }
}

proof fn lemma_replace_front(s: Seq<char>, c: char, with: Seq<char>)
    requires
        s.len() > 0,
    ensures
        replace(s, c, with) == (if s[0] == c {
            with
        } else {
            seq![s[0]]
        }) + replace(s.drop_first(), c, with),
    decreases s.len(),
{
    let head = if s[0] == c {
        with
    } else {
        seq![s[0]]
    };
    if s.len() == 1 {
        assert(s.drop_last() =~= Seq::empty());
        assert(s.drop_first() =~= Seq::empty());
        assert(replace(Seq::empty(), c, with) =~= Seq::empty());
        assert(replace(s, c, with) =~= head + replace(s.drop_first(), c, with));
    } else {
        let rest = s.drop_last();
        lemma_replace_front(rest, c, with);
        assert(rest.drop_first() =~= s.drop_first().drop_last());
        assert(s.drop_first().last() == s.last());
        assert(replace(s, c, with) =~= head + replace(s.drop_first(), c, with));
    }
}

/// A quoted name reads back as the name itself: no name can end the quotes
/// that it stands in.
pub proof fn law_quoted_names_read_back(name: Seq<char>)
    ensures
        quoted_reading(quoted(name)) == Some(name),
    decreases name.len(),
{
    reveal_strlit("\"\"");
    if name.len() > 0 {
        let rest = name.drop_first();
        lemma_replace_front(name, '"', "\"\""@);
        law_quoted_names_read_back(rest);
        let q = quoted(name);
        if name[0] == '"' {
            assert("\"\""@ =~= seq!['"', '"']);
            assert(q.skip(2) =~= quoted(rest));
        } else {
            assert(q.skip(1) =~= quoted(rest));
        }
        assert(seq![name[0]] + rest =~= name);
    }
}

/// An identity that was accepted brings no line break and no other control
/// character into the instructions.
pub proof fn law_identities_add_no_lines(name: Seq<char>, i: int)
    requires
        is_identity(name),
        0 <= i < quoted(name).len(),
    ensures
        !is_control(quoted(name)[i]),
{
    lemma_quoted_plain(name, i);
}

proof fn lemma_quoted_plain(name: Seq<char>, i: int)
    requires
        forall|k: int| 0 <= k < name.len() ==> !is_control(#[trigger] name[k]),
        0 <= i < quoted(name).len(),
    ensures
        !is_control(quoted(name)[i]),
    decreases name.len(),
{
    reveal_strlit("\"\"");
    if name.len() > 0 {
        let before = name.drop_last();
        assert forall|k: int| 0 <= k < before.len() implies !is_control(#[trigger] before[k]) by {
            assert(before[k] == name[k]);
        }
        assert(!is_control(name[name.len() - 1]));
        if i < quoted(before).len() {
            lemma_quoted_plain(before, i);
        }
    }
}

/// Whatever the name, the container and the purpose: the key is a 3072-bit RSA
/// key that cannot be exported.
pub proof fn law_keys_are_not_exportable(
    common_name: Seq<char>,
    container: Seq<char>,
    purpose: CertificatePurpose,
)
    ensures
        contains(
            instructions(common_name, container, purpose),
            "\nExportable=FALSE\nKeyLength=3072\nKeyAlgorithm=RSA\n"@,
        ),
{
    let head = "[Version]\nSignature=\"$Windows NT$\"\n\n[NewRequest]\nSubject=\"CN="@;
    let middle =
        "\"\nExportable=FALSE\nKeyLength=3072\nKeyAlgorithm=RSA\nHashAlgorithm=sha256\nKeySpec=0\nProviderName=\"Microsoft Software Key Storage Provider\"\nProviderType=0\nMachineKeySet=FALSE\nRequestType=PKCS10\nKeyContainer=\""@;
    let wanted = "\nExportable=FALSE\nKeyLength=3072\nKeyAlgorithm=RSA\n"@;
    let text = instructions(common_name, container, purpose);
    let at: int = (head.len() + quoted(common_name).len()) as int;
    lemma_fixed_lines();
    assert(text.subrange(at + 1, at + 1 + wanted.len()) =~= middle.subrange(
        1,
        wanted.len() + 1int,
    ));
    assert(occurs_at(text, wanted, at + 1));
}

proof fn lemma_fixed_lines()
    ensures
        ({
            let middle =
                "\"\nExportable=FALSE\nKeyLength=3072\nKeyAlgorithm=RSA\nHashAlgorithm=sha256\nKeySpec=0\nProviderName=\"Microsoft Software Key Storage Provider\"\nProviderType=0\nMachineKeySet=FALSE\nRequestType=PKCS10\nKeyContainer=\""@;
            let wanted = "\nExportable=FALSE\nKeyLength=3072\nKeyAlgorithm=RSA\n"@;
            &&& 1 + wanted.len() <= middle.len()
            &&& middle.subrange(1, wanted.len() + 1int) == wanted
        }),
{
    reveal_strlit(
        "\"\nExportable=FALSE\nKeyLength=3072\nKeyAlgorithm=RSA\nHashAlgorithm=sha256\nKeySpec=0\nProviderName=\"Microsoft Software Key Storage Provider\"\nProviderType=0\nMachineKeySet=FALSE\nRequestType=PKCS10\nKeyContainer=\"",
    );
    reveal_strlit("\nExportable=FALSE\nKeyLength=3072\nKeyAlgorithm=RSA\n");
    let middle =
        "\"\nExportable=FALSE\nKeyLength=3072\nKeyAlgorithm=RSA\nHashAlgorithm=sha256\nKeySpec=0\nProviderName=\"Microsoft Software Key Storage Provider\"\nProviderType=0\nMachineKeySet=FALSE\nRequestType=PKCS10\nKeyContainer=\""@;
    let wanted = "\nExportable=FALSE\nKeyLength=3072\nKeyAlgorithm=RSA\n"@;
    assert(middle.subrange(1, wanted.len() + 1int) =~= wanted);
}

// ---------------------------------------------------------------------------
// Making a request
// ---------------------------------------------------------------------------

/// A request whose certificate is not there yet.
pub struct PendingRequest {
    pub csr_pem: String,
    pub key_container: String,
    pub accepted: bool,
}

#[verifier::ext_equal]
pub struct PendingView {
    pub csr_pem: Seq<char>,
    pub key_container: Seq<char>,
    pub accepted: bool,
}

impl View for PendingRequest {
    type V = PendingView;

    open spec fn view(&self) -> PendingView {
        PendingView {
            csr_pem: self.csr_pem@,
            key_container: self.key_container@,
            accepted: self.accepted,
        }
    }
}

/// The key container goes with the request.
pub open spec fn deletes_container(request: PendingView) -> bool {
    !request.accepted
}

impl PendingRequest {
    /// Whether the key container is to be deleted when the request is let go
    /// of: it is, unless the certificate was accepted.
    pub fn drop_deletes_container(&self) -> (r: bool)
        ensures
            r == !self@.accepted,
            r == deletes_container(self@),
    {
        !self.accepted
    }
}

/// What the making of a request waits for.
pub enum GenerationStage {
    Directory,
    Instructions,
    NewRequest,
    RequestText,
    Cleanup(AppError),
    Finished,
}

#[verifier::ext_equal]
pub enum GenerationStageView {
    Directory,
    Instructions,
    NewRequest,
    RequestText,
    Cleanup(ErrorView),
    Finished,
}

impl View for GenerationStage {
    type V = GenerationStageView;

    open spec fn view(&self) -> GenerationStageView {
        match self {
            GenerationStage::Directory => GenerationStageView::Directory,
            GenerationStage::Instructions => GenerationStageView::Instructions,
            GenerationStage::NewRequest => GenerationStageView::NewRequest,
            GenerationStage::RequestText => GenerationStageView::RequestText,
            GenerationStage::Cleanup(e) => GenerationStageView::Cleanup(e@),
            GenerationStage::Finished => GenerationStageView::Finished,
        }
    }
}

pub type GenerationStep = (GenerationStageView, WindowsActionView<PendingView>);

pub open spec fn generation_fail(error: ErrorView) -> GenerationStep {
    (GenerationStageView::Finished, WindowsActionView::Done(Err(error)))
}

pub open spec fn generation_fail_clean(error: ErrorView) -> GenerationStep {
    (
        GenerationStageView::Cleanup(error),
        WindowsActionView::Run(WindowsCommand::DeleteContainer),
    )
}

/// The text is a certificate request in PEM, under either of the two names
/// that are in use.
pub open spec fn is_request_text(text: Seq<char>) -> bool {
    contains(text, "BEGIN NEW CERTIFICATE REQUEST"@) || contains(
        text,
        "BEGIN CERTIFICATE REQUEST"@,
    )
}

/// One step on the way to a request.
pub open spec fn generation_step(
    container: Seq<char>,
    inf: Seq<char>,
    stage: GenerationStageView,
    event: EventView,
) -> GenerationStep {
    match (stage, event) {
        (GenerationStageView::Directory, EventView::Directory(made)) => if made {
            (
                GenerationStageView::Instructions,
                WindowsActionView::Write(WindowsFile::Instructions, inf),
            )
        } else {
            generation_fail(
                ErrorView::Certificate("could not create a protected temporary directory"@),
            )
        },
        (GenerationStageView::Instructions, EventView::Written(written)) => if written {
            (
                GenerationStageView::NewRequest,
                WindowsActionView::Run(WindowsCommand::NewRequest),
            )
        } else {
            generation_fail(ErrorView::Certificate("could not write CSR instructions"@))
        },
        (GenerationStageView::NewRequest, EventView::Output(Ok(output))) => if output.success {
            (
                GenerationStageView::RequestText,
                WindowsActionView::Read(WindowsFile::Request),
            )
        } else {
            generation_fail_clean(
                ErrorView::Certificate(
                    command_message(
                        "Windows could not generate the certificate request"@,
                        output,
                    ),
                ),
            )
        },
        (GenerationStageView::NewRequest, EventView::Output(Err(e))) => generation_fail(e),
        (GenerationStageView::RequestText, EventView::Text(Some(text))) => if is_request_text(
            text,
        ) {
            (
                GenerationStageView::Finished,
                WindowsActionView::Done(
                    Ok(PendingView { csr_pem: text, key_container: container, accepted: false }),
                ),
            )
        } else {
            generation_fail_clean(
                ErrorView::Certificate("Windows produced an unexpected CSR format"@),
            )
        },
        (GenerationStageView::RequestText, EventView::Text(None)) => generation_fail(
            ErrorView::Certificate("Windows did not produce a certificate request"@),
        ),
        (GenerationStageView::Cleanup(e), _) => generation_fail(e),
        (_, _) => generation_fail(ErrorView::Internal),
    }
}

/// A request that is being made.
pub struct RequestGeneration {
    pub key_container: String,
    pub instructions: String,
    pub stage: GenerationStage,
}

#[verifier::ext_equal]
pub struct GenerationView {
    pub key_container: Seq<char>,
    pub instructions: Seq<char>,
    pub stage: GenerationStageView,
}

impl View for RequestGeneration {
    type V = GenerationView;

    open spec fn view(&self) -> GenerationView {
        GenerationView {
            key_container: self.key_container@,
            instructions: self.instructions@,
            stage: self.stage@,
        }
    }
}

/// The beginning of a request for a name, under the given part of the
/// container's name.
pub open spec fn generation_begin(
    profile: ProfileView,
    common_name: Seq<char>,
    container_id: Seq<char>,
) -> Result<GenerationView, ErrorView> {
    match identity_outcome(common_name) {
        Err(e) => Err(e),
        Ok(()) => {
            let container = container_name(profile.id, container_id);
            Ok(
                GenerationView {
                    key_container: container,
                    instructions: instructions(common_name, container, profile.purpose),
                    stage: GenerationStageView::Directory,
                },
            )
        },
    }
}

fn generation_failed(error: AppError) -> (r: (GenerationStage, WindowsAction<PendingRequest>))
    ensures
        (r.0@, view_windows_action(r.1)) == generation_fail(error@),
{
    (GenerationStage::Finished, WindowsAction::Done(Err(error)))
}

fn generation_failed_clean(error: AppError) -> (r: (GenerationStage, WindowsAction<PendingRequest>))
    ensures
        (r.0@, view_windows_action(r.1)) == generation_fail_clean(error@),
{
    (GenerationStage::Cleanup(error), WindowsAction::Run(WindowsCommand::DeleteContainer))
}

impl PendingRequest {
    /// Begins a request with the given part of the container's name; the first
    /// action is to create a directory.
    pub fn begin(profile: &CertificateProfile, common_name: &str, container_id: &str) -> (r:
        AppResult<RequestGeneration>)
        ensures
            match r {
                Ok(machine) => {
                    &&& identity_outcome(common_name@) is Ok
                    &&& machine.key_container@ == container_name(profile@.id, container_id@)
                    &&& machine.instructions@ == instructions(
                        common_name@,
                        machine.key_container@,
                        profile@.purpose,
                    )
                    &&& machine.stage@ == GenerationStageView::Directory
                },
                Err(e) => identity_outcome(common_name@) == Err::<(), ErrorView>(e@),
            },
            view_outcome(r) == generation_begin(profile@, common_name@, container_id@),
    {
        match validate_identity(common_name) {
            Ok(()) => {},
            Err(e) => return Err(e),
        }
        let key_container: String = concat4("OpenBao-", profile.id.as_str(), "-", container_id);
        let instructions: String = request_instructions(
            common_name,
            key_container.as_str(),
            profile.purpose,
        );
        Ok(
            RequestGeneration {
                key_container,
                instructions,
                stage: GenerationStage::Directory,
            },
        )
    }

    /// Begins a request in a container that has a fresh name.
    pub fn generate(profile: &CertificateProfile, common_name: &str) -> (r: AppResult<
        RequestGeneration,
    >)
        ensures
            match r {
                Ok(machine) => {
                    &&& identity_outcome(common_name@) is Ok
                    &&& exists|id: Seq<char>|
                        is_hyphenated_id(id) && machine.key_container@ == #[trigger] container_name(
                            profile@.id,
                            id,
                        )
                    &&& machine.instructions@ == instructions(
                        common_name@,
                        machine.key_container@,
                        profile@.purpose,
                    )
                    &&& machine.stage@ == GenerationStageView::Directory
                },
                Err(e) => identity_outcome(common_name@) == Err::<(), ErrorView>(e@),
            },
            exists|id: Seq<char>|
                is_hyphenated_id(id) && view_outcome(r) == #[trigger] generation_begin(
                    profile@,
                    common_name@,
                    id,
                ),
    {
        let id: String = new_container_id();
        Self::begin(profile, common_name, id.as_str())
    }
}

impl RequestGeneration {
    /// Takes what came of the last action and says what the next one is.
    pub fn step(self, event: Event) -> (r: (RequestGeneration, WindowsAction<PendingRequest>))
        ensures
            r.0.key_container == self.key_container,
            r.0.instructions == self.instructions,
            (r.0.stage@, view_windows_action(r.1)) == generation_step(
                self.key_container@,
                self.instructions@,
                self.stage@,
                event@,
            ),
    {
        let RequestGeneration { key_container, instructions, stage } = self;
        let (stage, action): (GenerationStage, WindowsAction<PendingRequest>) = match (
            stage,
            event,
        ) {
            (GenerationStage::Directory, Event::Directory(made)) => if made {
                (
                    GenerationStage::Instructions,
                    WindowsAction::Write(WindowsFile::Instructions, instructions.clone()),
                )
            } else {
                generation_failed(
                    certificate_error("could not create a protected temporary directory"),
                )
            },
            (GenerationStage::Instructions, Event::Written(written)) => if written {
                (GenerationStage::NewRequest, WindowsAction::Run(WindowsCommand::NewRequest))
            } else {
                generation_failed(certificate_error("could not write CSR instructions"))
            },
            (GenerationStage::NewRequest, Event::Output(Ok(output))) => if output.success {
                (GenerationStage::RequestText, WindowsAction::Read(WindowsFile::Request))
            } else {
                generation_failed_clean(
                    AppError::Certificate(
                        command_error(
                            "Windows could not generate the certificate request",
                            &output,
                        ),
                    ),
                )
            },
            (GenerationStage::NewRequest, Event::Output(Err(e))) => generation_failed(e),
            (GenerationStage::RequestText, Event::Text(Some(text))) => if includes(
                text.as_str(),
                "BEGIN NEW CERTIFICATE REQUEST",
            ) || includes(text.as_str(), "BEGIN CERTIFICATE REQUEST") {
                (
                    GenerationStage::Finished,
                    WindowsAction::Done(
                        Ok(
                            PendingRequest {
                                csr_pem: text,
                                key_container: key_container.clone(),
                                accepted: false,
                            },
                        ),
                    ),
                )
            } else {
                generation_failed_clean(
                    certificate_error("Windows produced an unexpected CSR format"),
                )
            },
            (GenerationStage::RequestText, Event::Text(None)) => generation_failed(
                certificate_error("Windows did not produce a certificate request"),
            ),
            (GenerationStage::Cleanup(e), _) => generation_failed(e),
            (_, _) => generation_failed(AppError::Internal),
        };
        (RequestGeneration { key_container, instructions, stage }, action)
    }
}

/// Once Windows has answered, a request either goes on or has its key container
/// deleted.
pub proof fn law_refused_requests_leave_no_container(
    container: Seq<char>,
    inf: Seq<char>,
    stage: GenerationStageView,
    event: EventView,
)
    requires
        (stage == GenerationStageView::NewRequest && event matches EventView::Output(Ok(_))) || (
        stage == GenerationStageView::RequestText && event matches EventView::Text(Some(_))),
    ensures
        match generation_step(container, inf, stage, event).1 {
            WindowsActionView::Read(_) => true,
            WindowsActionView::Done(Ok(_)) => true,
            WindowsActionView::Run(command) => command == WindowsCommand::DeleteContainer,
            _ => false,
        },
{
}

/// What the deletion of a key container came to.
pub open spec fn container_outcome(output: Result<OutputView, ErrorView>) -> Result<(), ErrorView> {
    match output {
        Err(e) => Err(e),
        Ok(output) => if output.success {
            Ok(())
        } else {
            Err(ErrorView::Certificate("could not remove an orphaned key container"@))
        },
    }
}

/// What the deletion of a key container came to.
pub fn key_container_deleted(output: AppResult<CommandOutput>) -> (r: AppResult<()>)
    ensures
        outcome(r) == container_outcome(view_outcome(output)),
{
    match output {
        Err(e) => Err(e),
        Ok(output) => if output.success {
            Ok(())
        } else {
            Err(certificate_error("could not remove an orphaned key container"))
        },
    }
}

// ---------------------------------------------------------------------------
// Accepting the certificate
// ---------------------------------------------------------------------------

/// What the acceptance of a certificate waits for.
pub enum AcceptStage {
    Intermediate(u64),
    AddIntermediate(u64),
    Certificate,
    Accept,
    Cleanup(AppError),
    Finished,
}

#[verifier::ext_equal]
pub enum AcceptStageView {
    Intermediate(u64),
    AddIntermediate(u64),
    Certificate,
    Accept,
    Cleanup(ErrorView),
    Finished,
}

impl View for AcceptStage {
    type V = AcceptStageView;

    open spec fn view(&self) -> AcceptStageView {
        match self {
            AcceptStage::Intermediate(index) => AcceptStageView::Intermediate(*index),
            AcceptStage::AddIntermediate(index) => AcceptStageView::AddIntermediate(*index),
            AcceptStage::Certificate => AcceptStageView::Certificate,
            AcceptStage::Accept => AcceptStageView::Accept,
            AcceptStage::Cleanup(e) => AcceptStageView::Cleanup(e@),
            AcceptStage::Finished => AcceptStageView::Finished,
        }
    }
}

/// What is being accepted: the certificate, the ones between it and the root,
/// and how it will be shown.
#[verifier::ext_equal]
pub struct AcceptedView {
    pub certificate_pem: Seq<char>,
    pub intermediates: Seq<Seq<char>>,
    pub issued: Option<IssuedView>,
}

pub type AcceptStep = (AcceptStageView, WindowsActionView<IssuedView>);

pub open spec fn accept_fail(error: ErrorView) -> AcceptStep {
    (AcceptStageView::Finished, WindowsActionView::Done(Err(error)))
}

pub open spec fn accept_fail_clean(error: ErrorView) -> AcceptStep {
    (
        AcceptStageView::Cleanup(error),
        WindowsActionView::Run(WindowsCommand::DeleteContainer),
    )
}

/// The next certificate to stage: the intermediates in their order, then the
/// certificate itself.
pub open spec fn stage_next(accepted: AcceptedView, index: int) -> AcceptStep {
    if 0 <= index < accepted.intermediates.len() {
        (
            AcceptStageView::Intermediate(index as u64),
            WindowsActionView::Write(
                WindowsFile::Intermediate(index as u64),
                accepted.intermediates[index],
            ),
        )
    } else {
        (
            AcceptStageView::Certificate,
            WindowsActionView::Write(WindowsFile::Certificate, accepted.certificate_pem),
        )
    }
}

/// One step of an acceptance.
pub open spec fn accept_step(
    accepted: AcceptedView,
    stage: AcceptStageView,
    event: EventView,
) -> AcceptStep {
    match (stage, event) {
        (AcceptStageView::Intermediate(index), EventView::Written(written)) => if written {
            (
                AcceptStageView::AddIntermediate(index),
                WindowsActionView::Run(WindowsCommand::AddIntermediate(index)),
            )
        } else {
            accept_fail(ErrorView::Certificate("could not stage the issuing certificate chain"@))
        },
        (
            AcceptStageView::AddIntermediate(index),
            EventView::Output(Ok(output)),
        ) => if output.success {
            stage_next(accepted, index + 1)
        } else {
            accept_fail(
                ErrorView::Certificate(
                    command_message("Windows rejected an issuing CA certificate"@, output),
                ),
            )
        },
        (AcceptStageView::Certificate, EventView::Written(written)) => if written {
            (
                AcceptStageView::Accept,
                WindowsActionView::Run(WindowsCommand::AcceptCertificate),
            )
        } else {
            accept_fail(ErrorView::Certificate("could not stage the signed certificate"@))
        },
        (AcceptStageView::Accept, EventView::Output(Ok(output))) => if output.success {
            (
                AcceptStageView::Finished,
                WindowsActionView::Done(
                    match accepted.issued {
                        Some(issued) => Ok(issued),
                        None => Err(ErrorView::Internal),
                    },
                ),
            )
        } else {
            accept_fail_clean(
                ErrorView::Certificate(
                    command_message("Windows rejected the signed certificate"@, output),
                ),
            )
        },
        (AcceptStageView::Cleanup(e), _) => accept_fail(e),
        (AcceptStageView::Finished, _) => accept_fail(ErrorView::Internal),
        (_, EventView::Output(Err(e))) => accept_fail(e),
        (_, _) => accept_fail(ErrorView::Internal),
    }
}

/// The beginning of an acceptance: a certificate that was refused is never
/// staged.
pub open spec fn accept_begin(
    validation: Result<(IssuedView, Seq<Seq<char>>), ErrorView>,
    certificate_pem: Seq<char>,
) -> AcceptStep {
    match validation {
        Err(e) => accept_fail_clean(e),
        Ok((issued, intermediates)) => stage_next(
            AcceptedView { certificate_pem, intermediates, issued: Some(issued) },
            0,
        ),
    }
}

/// An acceptance that is under way.
pub struct Acceptance {
    pub request: PendingRequest,
    pub certificate_pem: String,
    pub intermediates: Vec<String>,
    pub issued: Option<IssuedCertificate>,
    pub stage: AcceptStage,
}

impl Acceptance {
    pub open spec fn accepted(&self) -> AcceptedView {
        AcceptedView {
            certificate_pem: self.certificate_pem@,
            intermediates: view_all(self.intermediates@),
            issued: match self.issued {
                Some(issued) => Some(issued@),
                None => None,
            },
        }
    }

    /// There is a certificate to accept, and the number of an intermediate is
    /// one that there is.
    pub open spec fn is_acceptance(&self) -> bool {
        &&& !(self.stage is Finished) ==> !self.request.accepted
        &&& !(self.stage is Finished || self.stage is Cleanup) ==> self.issued is Some
        &&& match self.stage {
            AcceptStage::Intermediate(index) => index < self.intermediates@.len(),
            AcceptStage::AddIntermediate(index) => index < self.intermediates@.len(),
            _ => true,
        }
    }
}

fn accept_failed(error: AppError) -> (r: (AcceptStage, WindowsAction<IssuedCertificate>))
    ensures
        (r.0@, view_windows_action(r.1)) == accept_fail(error@),
        r.0 is Finished,
{
    (AcceptStage::Finished, WindowsAction::Done(Err(error)))
}

fn accept_failed_clean(error: AppError) -> (r: (AcceptStage, WindowsAction<IssuedCertificate>))
    ensures
        (r.0@, view_windows_action(r.1)) == accept_fail_clean(error@),
        r.0 is Cleanup,
{
    (AcceptStage::Cleanup(error), WindowsAction::Run(WindowsCommand::DeleteContainer))
}

fn stage_following(certificate_pem: &String, intermediates: &[String], index: usize) -> (r: (
    AcceptStage,
    WindowsAction<IssuedCertificate>,
))
    ensures
        forall|issued: Option<IssuedView>|
            (r.0@, view_windows_action(r.1)) == #[trigger] stage_next(
                AcceptedView {
                    certificate_pem: certificate_pem@,
                    intermediates: view_all(intermediates@),
                    issued,
                },
                index as int,
            ),
        match r.0 {
            AcceptStage::Intermediate(i) => i < intermediates@.len(),
            AcceptStage::AddIntermediate(_) => false,
            AcceptStage::Finished => false,
            _ => true,
        },
{
    if index < intermediates.len() {
        (
            AcceptStage::Intermediate(index as u64),
            WindowsAction::Write(
                WindowsFile::Intermediate(index as u64),
                intermediates[index].clone(),
            ),
        )
    } else {
        (
            AcceptStage::Certificate,
            WindowsAction::Write(WindowsFile::Certificate, certificate_pem.clone()),
        )
    }
}

/// An acceptance begins as the validation of the certificate says, and what
/// it goes on with is that certificate, the ones between it and the root, and
/// how it will be shown; of a refused one it holds nothing.
pub open spec fn begins_acceptance(
    begun: (Acceptance, WindowsAction<IssuedCertificate>),
    validation: Result<(IssuedView, Seq<Seq<char>>), ErrorView>,
    certificate_pem: Seq<char>,
) -> bool {
    &&& (begun.0.stage@, view_windows_action(begun.1)) == accept_begin(validation, certificate_pem)
    &&& begun.0.accepted() == (match validation {
        Ok((issued, intermediates)) => AcceptedView {
            certificate_pem,
            intermediates,
            issued: Some(issued),
        },
        Err(_) => AcceptedView { certificate_pem, intermediates: Seq::empty(), issued: None },
    })
}

impl PendingRequest {
    /// Begins the acceptance of a certificate with what its validation said.
    pub fn begin_acceptance(
        self,
        validation: AppResult<(IssuedCertificate, Vec<String>)>,
        certificate_pem: &str,
    ) -> (r: (Acceptance, WindowsAction<IssuedCertificate>))
        requires
            !self@.accepted,
        ensures
            r.0.is_acceptance(),
            r.0.request == self,
            begins_acceptance(r, view_accepted(validation), certificate_pem@),
    {
        let certificate_pem: String = certificate_pem.to_owned();
        match validation {
            Err(e) => {
                let (stage, action): (AcceptStage, WindowsAction<IssuedCertificate>) =
                    accept_failed_clean(e);
                let intermediates: Vec<String> = Vec::new();
                assert(view_all(intermediates@) =~= Seq::empty());
                (
                    Acceptance {
                        request: self,
                        certificate_pem,
                        intermediates,
                        issued: None,
                        stage,
                    },
                    action,
                )
            },
            Ok((issued, intermediates)) => {
                let (stage, action): (AcceptStage, WindowsAction<IssuedCertificate>) =
                    stage_following(&certificate_pem, &intermediates, 0);
                (
                    Acceptance {
                        request: self,
                        certificate_pem,
                        intermediates,
                        issued: Some(issued),
                        stage,
                    },
                    action,
                )
            },
        }
    }

    /// Validates a signed certificate and begins its acceptance.
    pub fn accept(
        self,
        certificate_pem: &str,
        chain_pems: &[String],
        policy: &AcceptancePolicy<'_>,
    ) -> (r: (Acceptance, WindowsAction<IssuedCertificate>))
        requires
            !self@.accepted,
        ensures
            r.0.is_acceptance(),
            r.0.request == self,
            exists|now: int| #[trigger]
                begins_acceptance(
                    r,
                    issued_outcome(
                        self@.csr_pem,
                        certificate_pem@,
                        view_all(chain_pems@),
                        policy@,
                        valid_pem_at(certificate_pem@, now),
                    ),
                    certificate_pem@,
                ),
    {
        let validation: AppResult<(IssuedCertificate, Vec<String>)> = validate_issued_certificate(
            self.csr_pem.as_str(),
            certificate_pem,
            chain_pems,
            policy,
        );
        let ghost seen = view_accepted(validation);
        let ghost csr_pem = self@.csr_pem;
        let ghost chain = view_all(chain_pems@);
        let ghost now = choose|now: int|
            seen == issued_outcome(
                csr_pem,
                certificate_pem@,
                chain,
                policy@,
                #[trigger] valid_pem_at(certificate_pem@, now),
            );
        let r: (Acceptance, WindowsAction<IssuedCertificate>) = self.begin_acceptance(
            validation,
            certificate_pem,
        );
        assert(begins_acceptance(
            r,
            issued_outcome(
                csr_pem,
                certificate_pem@,
                chain,
                policy@,
                valid_pem_at(certificate_pem@, now),
            ),
            certificate_pem@,
        ));
        r
    }
}

impl Acceptance {
    /// Takes what came of the last action and says what the next one is. The
    /// request counts as accepted exactly once Windows took the certificate,
    /// and whatever comes after the end does not change that.
    pub fn step(self, event: Event) -> (r: (Acceptance, WindowsAction<IssuedCertificate>))
        requires
            self.is_acceptance(),
        ensures
            r.0.is_acceptance(),
            r.0.accepted() == self.accepted() || r.0.stage is Finished,
            (r.0.stage@, view_windows_action(r.1)) == accept_step(
                self.accepted(),
                self.stage@,
                event@,
            ),
            r.0.certificate_pem == self.certificate_pem,
            r.0.intermediates == self.intermediates,
            r.0.request@ == (PendingView { accepted: r.0.request.accepted, ..self.request@ }),
            !(self.stage is Finished) ==> (r.0.request.accepted <==> view_windows_action(
                r.1,
            ) matches WindowsActionView::Done(Ok(_))),
            self.stage is Finished ==> r.0.request == self.request,
    {
        let Acceptance { mut request, certificate_pem, intermediates, issued, stage } = self;
        let total: usize = intermediates.len();
        match (stage, event) {
            (AcceptStage::Intermediate(index), Event::Written(written)) => {
                let (stage, action): (AcceptStage, WindowsAction<IssuedCertificate>) = if written {
                    (
                        AcceptStage::AddIntermediate(index),
                        WindowsAction::Run(WindowsCommand::AddIntermediate(index)),
                    )
                } else {
                    accept_failed(
                        certificate_error("could not stage the issuing certificate chain"),
                    )
                };
                (Acceptance { request, certificate_pem, intermediates, issued, stage }, action)
            },
            (AcceptStage::AddIntermediate(index), Event::Output(Ok(output))) => {
                let (stage, action): (
                    AcceptStage,
                    WindowsAction<IssuedCertificate>,
                ) = if output.success {
                    stage_following(&certificate_pem, &intermediates, index as usize + 1)
                } else {
                    accept_failed(
                        AppError::Certificate(
                            command_error("Windows rejected an issuing CA certificate", &output),
                        ),
                    )
                };
                (Acceptance { request, certificate_pem, intermediates, issued, stage }, action)
            },
            (AcceptStage::Certificate, Event::Written(written)) => {
                let (stage, action): (AcceptStage, WindowsAction<IssuedCertificate>) = if written {
                    (AcceptStage::Accept, WindowsAction::Run(WindowsCommand::AcceptCertificate))
                } else {
                    accept_failed(certificate_error("could not stage the signed certificate"))
                };
                (Acceptance { request, certificate_pem, intermediates, issued, stage }, action)
            },
            (AcceptStage::Accept, Event::Output(Ok(output))) => {
                if output.success {
                    let result: AppResult<IssuedCertificate> = match issued {
                        Some(issued) => {
                            request.accepted = true;
                            Ok(issued)
                        },
                        None => Err(AppError::Internal),
                    };
                    (
                        Acceptance {
                            request,
                            certificate_pem,
                            intermediates,
                            issued: None,
                            stage: AcceptStage::Finished,
                        },
                        WindowsAction::Done(result),
                    )
                } else {
                    let (stage, action): (AcceptStage, WindowsAction<IssuedCertificate>) =
                        accept_failed_clean(
                        AppError::Certificate(
                            command_error("Windows rejected the signed certificate", &output),
                        ),
                    );
                    (Acceptance { request, certificate_pem, intermediates, issued, stage }, action)
                }
            },
            (AcceptStage::Cleanup(e), _) => {
                let (stage, action): (AcceptStage, WindowsAction<IssuedCertificate>) =
                    accept_failed(e);
                (Acceptance { request, certificate_pem, intermediates, issued, stage }, action)
            },
            (AcceptStage::Finished, _) => {
                let (stage, action): (AcceptStage, WindowsAction<IssuedCertificate>) =
                    accept_failed(AppError::Internal);
                (Acceptance { request, certificate_pem, intermediates, issued, stage }, action)
            },
            (_, Event::Output(Err(e))) => {
                let (stage, action): (AcceptStage, WindowsAction<IssuedCertificate>) =
                    accept_failed(e);
                (Acceptance { request, certificate_pem, intermediates, issued, stage }, action)
            },
            (_, _) => {
                let (stage, action): (AcceptStage, WindowsAction<IssuedCertificate>) =
                    accept_failed(AppError::Internal);
                (Acceptance { request, certificate_pem, intermediates, issued, stage }, action)
            },
        }
    }
}

/// A certificate that was refused is never handed to Windows: its key
/// container is deleted, and the request fails.
pub proof fn law_refused_certificates_are_not_accepted(
    error: ErrorView,
    certificate_pem: Seq<char>,
    accepted: AcceptedView,
    event: EventView,
)
    ensures
        ({
            let (stage, action) = accept_begin(
                Err::<(IssuedView, Seq<Seq<char>>), ErrorView>(error),
                certificate_pem,
            );
            &&& action == WindowsActionView::<IssuedView>::Run(WindowsCommand::DeleteContainer)
            &&& accept_step(accepted, stage, event).1 == WindowsActionView::<IssuedView>::Done(
                Err(error),
            )
        }),
{
}

/// The certificate is staged only after every certificate between it and the
/// root was added.
pub proof fn law_the_chain_comes_first(
    accepted: AcceptedView,
    stage: AcceptStageView,
    event: EventView,
)
    requires
        accepted.intermediates.len() <= u64::MAX,
        accept_step(accepted, stage, event).0 == AcceptStageView::Certificate,
    ensures
        stage matches AcceptStageView::AddIntermediate(index) && index + 1
            >= accepted.intermediates.len(),
        event matches EventView::Output(Ok(output)) && output.success,
{
}

// ---------------------------------------------------------------------------
// What a request asks for, and how it goes
// ---------------------------------------------------------------------------

/// `part` begins at `at` and goes over into what follows.
proof fn lemma_part_of(text: Seq<char>, part: Seq<char>, at: int)
    requires
        0 <= at,
        at + part.len() <= text.len(),
        forall|i: int| 0 <= i < part.len() ==> text[at + i] == #[trigger] part[i],
    ensures
        contains(text, part),
{
    assert(text.subrange(at, at + part.len()) =~= part);
    assert(occurs_at(text, part, at));
}

/// The request is for the given name, for a key in the given container, and
/// for the key usage of the purpose: signatures and key encipherment for TLS,
/// signatures and non-repudiation for documents, signatures alone for code.
pub proof fn law_requests_ask_for_what_is_given(
    common_name: Seq<char>,
    container: Seq<char>,
    purpose: CertificatePurpose,
)
    ensures
        contains(
            instructions(common_name, container, purpose),
            "\nSubject=\"CN="@ + quoted(common_name) + "\"\n"@,
        ),
        contains(
            instructions(common_name, container, purpose),
            "\nKeyContainer=\""@ + container + "\"\n"@,
        ),
        purpose is Mtls ==> contains(
            instructions(common_name, container, purpose),
            "\nKeyUsage=0xa0\n"@,
        ),
        purpose is DocumentSigning ==> contains(
            instructions(common_name, container, purpose),
            "\nKeyUsage=0xc0\n"@,
        ),
        purpose is CodeSigning ==> contains(
            instructions(common_name, container, purpose),
            "\nKeyUsage=0x80\n"@,
        ),
        contains(instructions(common_name, container, purpose), "\nSilent=TRUE\n"@),
{
    let head = "[Version]\nSignature=\"$Windows NT$\"\n\n[NewRequest]\nSubject=\"CN="@;
    let middle =
        "\"\nExportable=FALSE\nKeyLength=3072\nKeyAlgorithm=RSA\nHashAlgorithm=sha256\nKeySpec=0\nProviderName=\"Microsoft Software Key Storage Provider\"\nProviderType=0\nMachineKeySet=FALSE\nRequestType=PKCS10\nKeyContainer=\""@;
    let name = quoted(common_name);
    let text = instructions(common_name, container, purpose);
    let usage = requested_usage(purpose);
    let h: int = head.len() as int;
    let n: int = h + name.len();
    let m: int = n + middle.len();
    let c: int = m + container.len();
    reveal_strlit("[Version]\nSignature=\"$Windows NT$\"\n\n[NewRequest]\nSubject=\"CN=");
    reveal_strlit(
        "\"\nExportable=FALSE\nKeyLength=3072\nKeyAlgorithm=RSA\nHashAlgorithm=sha256\nKeySpec=0\nProviderName=\"Microsoft Software Key Storage Provider\"\nProviderType=0\nMachineKeySet=FALSE\nRequestType=PKCS10\nKeyContainer=\"",
    );
    reveal_strlit("\nSubject=\"CN=");
    reveal_strlit("\"\n");
    reveal_strlit("\nKeyContainer=\"");
    reveal_strlit("\"\nKeyUsage=");
    reveal_strlit("\nSilent=TRUE\n");
    reveal_strlit("0xa0");
    reveal_strlit("0xc0");
    reveal_strlit("0x80");
    reveal_strlit("\nKeyUsage=0xa0\n");
    reveal_strlit("\nKeyUsage=0xc0\n");
    reveal_strlit("\nKeyUsage=0x80\n");
    let subject = "\nSubject=\"CN="@;
    assert(head.subrange(h - subject.len(), h) =~= subject);
    assert(text.subrange(h - subject.len(), n + 2) =~= subject + name + "\"\n"@);
    assert(occurs_at(text, subject + name + "\"\n"@, h - subject.len()));
    let key = "\nKeyContainer=\""@;
    assert(middle.subrange(middle.len() - key.len(), middle.len() as int) =~= key);
    assert(text.subrange(m - key.len(), c + 2) =~= key + container + "\"\n"@);
    assert(occurs_at(text, key + container + "\"\n"@, m - key.len()));
    if purpose is Mtls {
        lemma_part_of(text, "\nKeyUsage=0xa0\n"@, c + 1);
    } else if purpose is DocumentSigning {
        lemma_part_of(text, "\nKeyUsage=0xc0\n"@, c + 1);
    } else {
        lemma_part_of(text, "\nKeyUsage=0x80\n"@, c + 1);
    }
    lemma_part_of(text, "\nSilent=TRUE\n"@, c + 11 + usage.len());
}

/// Whatever is asked for, the request is signed with SHA-256, and the key is
/// made by the software key storage provider for the current user.
pub proof fn law_keys_are_kept_for_the_user(
    common_name: Seq<char>,
    container: Seq<char>,
    purpose: CertificatePurpose,
)
    ensures
        contains(
            instructions(common_name, container, purpose),
            "\nHashAlgorithm=sha256\nKeySpec=0\n"@,
        ),
        contains(
            instructions(common_name, container, purpose),
            "\nProviderName=\"Microsoft Software Key Storage Provider\"\nProviderType=0\n"@,
        ),
        contains(
            instructions(common_name, container, purpose),
            "\nMachineKeySet=FALSE\nRequestType=PKCS10\n"@,
        ),
{
    let head = "[Version]\nSignature=\"$Windows NT$\"\n\n[NewRequest]\nSubject=\"CN="@;
    let middle =
        "\"\nExportable=FALSE\nKeyLength=3072\nKeyAlgorithm=RSA\nHashAlgorithm=sha256\nKeySpec=0\nProviderName=\"Microsoft Software Key Storage Provider\"\nProviderType=0\nMachineKeySet=FALSE\nRequestType=PKCS10\nKeyContainer=\""@;
    let text = instructions(common_name, container, purpose);
    let at: int = (head.len() + quoted(common_name).len()) as int;
    reveal_strlit(
        "\"\nExportable=FALSE\nKeyLength=3072\nKeyAlgorithm=RSA\nHashAlgorithm=sha256\nKeySpec=0\nProviderName=\"Microsoft Software Key Storage Provider\"\nProviderType=0\nMachineKeySet=FALSE\nRequestType=PKCS10\nKeyContainer=\"",
    );
    reveal_strlit("\nHashAlgorithm=sha256\nKeySpec=0\n");
    reveal_strlit("\nProviderName=\"Microsoft Software Key Storage Provider\"\nProviderType=0\n");
    reveal_strlit("\nMachineKeySet=FALSE\nRequestType=PKCS10\n");
    lemma_part_of(text, "\nHashAlgorithm=sha256\nKeySpec=0\n"@, at + 50);
    lemma_part_of(
        text,
        "\nProviderName=\"Microsoft Software Key Storage Provider\"\nProviderType=0\n"@,
        at + 81,
    );
    lemma_part_of(text, "\nMachineKeySet=FALSE\nRequestType=PKCS10\n"@, at + 151);
}

/// The container is named after the profile and the identifier, and two
/// identifiers never share one.
pub proof fn law_containers_are_told_apart(
    profile_id: Seq<char>,
    first: Seq<char>,
    second: Seq<char>,
)
    ensures
        container_name(profile_id, first) == "OpenBao-"@ + profile_id + "-"@ + first,
        container_name(profile_id, first) == container_name(profile_id, second) ==> first
            == second,
{
    let front = "OpenBao-"@ + profile_id + "-"@;
    let n: int = front.len() as int;
    assert(container_name(profile_id, first).skip(n) =~= first);
    assert(container_name(profile_id, second).skip(n) =~= second);
}

/// A request begins with a directory; it is for a name that is fit, in a
/// container of its own, and for the purpose of its profile.
pub proof fn law_requests_begin_for_fit_names(
    profile: ProfileView,
    common_name: Seq<char>,
    container_id: Seq<char>,
)
    ensures
        ({
            let begun = generation_begin(profile, common_name, container_id);
            &&& is_identity(common_name) <==> begun is Ok
            &&& begun matches Ok(generation) ==> {
                &&& generation.stage == GenerationStageView::Directory
                &&& generation.key_container == "OpenBao-"@ + profile.id + "-"@ + container_id
                &&& generation.instructions == instructions(
                    common_name,
                    generation.key_container,
                    profile.purpose,
                )
            }
        }),
{
}

/// A request that goes well: the instructions are written, Windows makes the
/// request, the request is read, and it is kept with its container, not yet
/// accepted.
pub proof fn law_requests_that_go_well(
    container: Seq<char>,
    inf: Seq<char>,
    output: OutputView,
    text: Seq<char>,
)
    requires
        output.success,
        contains(text, "BEGIN NEW CERTIFICATE REQUEST"@) || contains(
            text,
            "BEGIN CERTIFICATE REQUEST"@,
        ),
    ensures
        ({
            let (written, write) = generation_step(
                container,
                inf,
                GenerationStageView::Directory,
                EventView::Directory(true),
            );
            let (made, make) = generation_step(container, inf, written, EventView::Written(true));
            let (told, tell) = generation_step(
                container,
                inf,
                made,
                EventView::Output(Ok(output)),
            );
            let (_, done) = generation_step(container, inf, told, EventView::Text(Some(text)));
            &&& write == WindowsActionView::<PendingView>::Write(WindowsFile::Instructions, inf)
            &&& make == WindowsActionView::<PendingView>::Run(WindowsCommand::NewRequest)
            &&& tell == WindowsActionView::<PendingView>::Read(WindowsFile::Request)
            &&& done == WindowsActionView::Done(
                Ok(PendingView { csr_pem: text, key_container: container, accepted: false }),
            )
        }),
{
}

/// A fault ends a request with its own message; what Windows had begun is
/// cleaned up first.
pub proof fn law_faults_end_the_request(
    container: Seq<char>,
    inf: Seq<char>,
    output: OutputView,
    error: ErrorView,
    text: Seq<char>,
    event: EventView,
)
    requires
        !output.success,
        !contains(text, "BEGIN NEW CERTIFICATE REQUEST"@),
        !contains(text, "BEGIN CERTIFICATE REQUEST"@),
    ensures
        generation_step(
            container,
            inf,
            GenerationStageView::Directory,
            EventView::Directory(false),
        ).1 == WindowsActionView::<PendingView>::Done(
            Err(ErrorView::Certificate("could not create a protected temporary directory"@)),
        ),
        generation_step(
            container,
            inf,
            GenerationStageView::Instructions,
            EventView::Written(false),
        ).1 == WindowsActionView::<PendingView>::Done(
            Err(ErrorView::Certificate("could not write CSR instructions"@)),
        ),
        generation_step(
            container,
            inf,
            GenerationStageView::NewRequest,
            EventView::Output(Err(error)),
        ).1 == WindowsActionView::<PendingView>::Done(Err(error)),
        generation_step(
            container,
            inf,
            GenerationStageView::RequestText,
            EventView::Text(None),
        ).1 == WindowsActionView::<PendingView>::Done(
            Err(ErrorView::Certificate("Windows did not produce a certificate request"@)),
        ),
        ({
            let (cleanup, delete) = generation_step(
                container,
                inf,
                GenerationStageView::NewRequest,
                EventView::Output(Ok(output)),
            );
            &&& delete == WindowsActionView::<PendingView>::Run(WindowsCommand::DeleteContainer)
            &&& generation_step(container, inf, cleanup, event).1 == WindowsActionView::<
                PendingView,
            >::Done(
                Err(
                    ErrorView::Certificate(
                        command_message(
                            "Windows could not generate the certificate request"@,
                            output,
                        ),
                    ),
                ),
            )
        }),
        ({
            let (cleanup, delete) = generation_step(
                container,
                inf,
                GenerationStageView::RequestText,
                EventView::Text(Some(text)),
            );
            &&& delete == WindowsActionView::<PendingView>::Run(WindowsCommand::DeleteContainer)
            &&& generation_step(container, inf, cleanup, event).1 == WindowsActionView::<
                PendingView,
            >::Done(
                Err(ErrorView::Certificate("Windows produced an unexpected CSR format"@)),
            )
        }),
{
}

/// A container whose certificate was accepted stays; any other is deleted with
/// its request.
pub proof fn law_accepted_containers_stay(request: PendingView)
    ensures
        request.accepted ==> !deletes_container(request),
        !request.accepted ==> deletes_container(request),
{
}

/// A deletion is done where the command succeeded, and nowhere else.
pub proof fn law_deletions_go_by_the_command(output: OutputView, error: ErrorView)
    ensures
        output.success ==> container_outcome(Ok(output)) is Ok,
        !output.success ==> container_outcome(Ok(output)) == Err::<(), ErrorView>(
            ErrorView::Certificate("could not remove an orphaned key container"@),
        ),
        container_outcome(Err(error)) == Err::<(), ErrorView>(error),
{
}

/// An acceptance stages the intermediate with number zero first, or the
/// certificate where there are none; every intermediate that was written is
/// added, and every one that was added is followed by the next, the last by the
/// certificate.
pub proof fn law_intermediates_are_added_in_order(
    issued: IssuedView,
    intermediates: Seq<Seq<char>>,
    certificate_pem: Seq<char>,
    index: u64,
    output: OutputView,
)
    requires
        intermediates.len() <= u64::MAX,
        output.success,
    ensures
        ({
            let (_, first) = accept_begin(Ok((issued, intermediates)), certificate_pem);
            &&& intermediates.len() > 0 ==> first == WindowsActionView::<IssuedView>::Write(
                WindowsFile::Intermediate(0),
                intermediates[0],
            )
            &&& intermediates.len() == 0 ==> first == WindowsActionView::<IssuedView>::Write(
                WindowsFile::Certificate,
                certificate_pem,
            )
        }),
        ({
            let accepted = AcceptedView { certificate_pem, intermediates, issued: Some(issued) };
            let (adding, add) = accept_step(
                accepted,
                AcceptStageView::Intermediate(index),
                EventView::Written(true),
            );
            let (_, next) = accept_step(accepted, adding, EventView::Output(Ok(output)));
            &&& add == WindowsActionView::<IssuedView>::Run(WindowsCommand::AddIntermediate(index))
            &&& index + 1 < intermediates.len() ==> next == WindowsActionView::<IssuedView>::Write(
                WindowsFile::Intermediate((index + 1) as u64),
                intermediates[index + 1],
            )
            &&& index + 1 >= intermediates.len() ==> next == WindowsActionView::<
                IssuedView,
            >::Write(WindowsFile::Certificate, certificate_pem)
        }),
{
}

/// A certificate that was written is accepted, and then handed back as it will
/// be shown.
pub proof fn law_certificates_are_accepted_last(
    accepted: AcceptedView,
    issued: IssuedView,
    output: OutputView,
)
    requires
        accepted.issued == Some(issued),
        output.success,
    ensures
        ({
            let (accepting, accept) = accept_step(
                accepted,
                AcceptStageView::Certificate,
                EventView::Written(true),
            );
            let (_, done) = accept_step(accepted, accepting, EventView::Output(Ok(output)));
            &&& accept == WindowsActionView::<IssuedView>::Run(WindowsCommand::AcceptCertificate)
            &&& done == WindowsActionView::<IssuedView>::Done(Ok(issued))
        }),
{
}

/// A fault ends an acceptance with its own message; a certificate that Windows
/// rejects has its key container deleted first.
pub proof fn law_faults_end_the_acceptance(
    accepted: AcceptedView,
    index: u64,
    output: OutputView,
    error: ErrorView,
    event: EventView,
)
    requires
        !output.success,
    ensures
        accept_step(
            accepted,
            AcceptStageView::Intermediate(index),
            EventView::Written(false),
        ).1 == WindowsActionView::<IssuedView>::Done(
            Err(ErrorView::Certificate("could not stage the issuing certificate chain"@)),
        ),
        accept_step(
            accepted,
            AcceptStageView::AddIntermediate(index),
            EventView::Output(Ok(output)),
        ).1 == WindowsActionView::<IssuedView>::Done(
            Err(
                ErrorView::Certificate(
                    command_message("Windows rejected an issuing CA certificate"@, output),
                ),
            ),
        ),
        accept_step(
            accepted,
            AcceptStageView::AddIntermediate(index),
            EventView::Output(Err(error)),
        ).1 == WindowsActionView::<IssuedView>::Done(Err(error)),
        accept_step(accepted, AcceptStageView::Certificate, EventView::Written(false)).1
            == WindowsActionView::<IssuedView>::Done(
            Err(ErrorView::Certificate("could not stage the signed certificate"@)),
        ),
        accept_step(accepted, AcceptStageView::Accept, EventView::Output(Err(error))).1
            == WindowsActionView::<IssuedView>::Done(Err(error)),
        ({
            let (cleanup, delete) = accept_step(
                accepted,
                AcceptStageView::Accept,
                EventView::Output(Ok(output)),
            );
            &&& delete == WindowsActionView::<IssuedView>::Run(WindowsCommand::DeleteContainer)
            &&& accept_step(accepted, cleanup, event).1 == WindowsActionView::<IssuedView>::Done(
                Err(
                    ErrorView::Certificate(
                        command_message("Windows rejected the signed certificate"@, output),
                    ),
                ),
            )
        }),
{
}

} // verus!
