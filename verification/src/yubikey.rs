//! Keys and certificates in the slots of a YubiKey, by way of YubiKey Manager.
//!
//! The caller runs the commands and reads the files. Each procedure is a
//! machine that is told what came of the last action and says what the next
//! one is.

use vstd::prelude::*;

use crate::certificates::{
    identity_outcome, issued_outcome, personal_certificate_from_pem, personal_outcome,
    valid_pem_at, validate_identity, validate_issued_certificate, view_accepted, AcceptancePolicy,
    IssuedCertificate, IssuedView, PersonalCertificate, PersonalView,
};
use crate::encoding::{lossy_text, utf8_lossy};
use crate::error::{certificate_error, outcome, view_outcome, AppError, AppResult, ErrorView};
use crate::process::{
    arg, command_error, command_message, failure_message, failure_text, is_secret_option,
    is_secret_value, push_secret, push_texts, resolved, secret_arg, shown_args, view_arguments,
    Argument, ArgumentView, CommandOutput, Event, EventView, OutputView,
};
use crate::text::{
    blank, chars_of, concat2, concat3, contains, includes, is_blank, lower, lowercase, parts,
    position, replace, replaced, split, split_once, text_eq, trim, trimmed, view_all, view_option,
};

verus! {

// ---------------------------------------------------------------------------
// Requests
// ---------------------------------------------------------------------------

/// Which slot to use, and how.
pub struct YubiKeyRequest {
    pub slot: String,
    pub pin: String,
    pub management_key: Option<String>,
    pub algorithm: String,
    pub pin_policy: String,
    pub touch_policy: String,
}

#[verifier::ext_equal]
pub struct KeyRequestView {
    pub slot: Seq<char>,
    pub pin: Seq<char>,
    pub management_key: Option<Seq<char>>,
    pub algorithm: Seq<char>,
    pub pin_policy: Seq<char>,
    pub touch_policy: Seq<char>,
}

impl View for YubiKeyRequest {
    type V = KeyRequestView;

    open spec fn view(&self) -> KeyRequestView {
        KeyRequestView {
            slot: self.slot@,
            pin: self.pin@,
            management_key: view_option(self.management_key),
            algorithm: self.algorithm@,
            pin_policy: self.pin_policy@,
            touch_policy: self.touch_policy@,
        }
    }
}

pub open spec fn is_slot(s: Seq<char>) -> bool {
    s == "9a"@ || s == "9c"@ || s == "9d"@ || s == "9e"@
}

pub open spec fn is_algorithm(s: Seq<char>) -> bool {
    s == "rsa2048"@ || s == "rsa3072"@ || s == "rsa4096"@ || s == "eccp256"@ || s == "eccp384"@
}

pub open spec fn is_pin_policy(s: Seq<char>) -> bool {
    s == "default"@ || s == "never"@ || s == "once"@ || s == "always"@
}

pub open spec fn is_touch_policy(s: Seq<char>) -> bool {
    s == "default"@ || s == "never"@ || s == "always"@ || s == "cached"@
}

pub open spec fn key_request_outcome(request: KeyRequestView) -> Result<(), ErrorView> {
    if !is_slot(request.slot) {
        Err(
            ErrorView::Certificate("unsupported YubiKey PIV slot; choose 9a, 9c, 9d, or 9e"@),
        )
    } else if !is_algorithm(request.algorithm) {
        Err(ErrorView::Certificate("unsupported YubiKey key algorithm"@))
    } else if !is_pin_policy(request.pin_policy) {
        Err(ErrorView::Certificate("unsupported YubiKey PIN policy"@))
    } else if !is_touch_policy(request.touch_policy) {
        Err(ErrorView::Certificate("unsupported YubiKey touch policy"@))
    } else if is_blank(request.pin) {
        Err(ErrorView::Certificate("YubiKey PIV PIN is required for this operation"@))
    } else {
        Ok(())
    }
}

pub fn validate_yubikey_request(request: &YubiKeyRequest) -> (r: AppResult<()>)
    ensures
        outcome(r) == key_request_outcome(request@),
{
    let slot: &str = request.slot.as_str();
    if !(text_eq(slot, "9a") || text_eq(slot, "9c") || text_eq(slot, "9d") || text_eq(slot, "9e")) {
        return Err(certificate_error("unsupported YubiKey PIV slot; choose 9a, 9c, 9d, or 9e"));
    }
    let algorithm: &str = request.algorithm.as_str();
    if !(text_eq(algorithm, "rsa2048") || text_eq(algorithm, "rsa3072") || text_eq(
        algorithm,
        "rsa4096",
    ) || text_eq(algorithm, "eccp256") || text_eq(algorithm, "eccp384")) {
        return Err(certificate_error("unsupported YubiKey key algorithm"));
    }
    let pin_policy: &str = request.pin_policy.as_str();
    if !(text_eq(pin_policy, "default") || text_eq(pin_policy, "never") || text_eq(
        pin_policy,
        "once",
    ) || text_eq(pin_policy, "always")) {
        return Err(certificate_error("unsupported YubiKey PIN policy"));
    }
    let touch_policy: &str = request.touch_policy.as_str();
    if !(text_eq(touch_policy, "default") || text_eq(touch_policy, "never") || text_eq(
        touch_policy,
        "always",
    ) || text_eq(touch_policy, "cached")) {
        return Err(certificate_error("unsupported YubiKey touch policy"));
    }
    if blank(request.pin.as_str()) {
        return Err(certificate_error("YubiKey PIV PIN is required for this operation"));
    }
    Ok(())
}

/// The management key in use: the one that was given, or the one that every
/// YubiKey comes with.
pub open spec fn management_key(request: KeyRequestView) -> Seq<char> {
    match request.management_key {
        Some(key) => if trim(key).len() > 0 {
            trim(key)
        } else {
            "010203040506070801020304050607080102030405060708"@
        },
        None => "010203040506070801020304050607080102030405060708"@,
    }
}

pub fn yubikey_management_key(request: &YubiKeyRequest) -> (r: String)
    ensures
        r@ == management_key(request@),
{
    if let Some(key) = &request.management_key {
        let text: String = trimmed(key.as_str());
        if chars_of(text.as_str()).len() > 0 {
            return text;
        }
    }
    "010203040506070801020304050607080102030405060708".to_owned()
}

// ---------------------------------------------------------------------------
// What a slot holds
// ---------------------------------------------------------------------------

/// What YubiKey Manager says of a key.
pub struct YubiKeyKeyInfo {
    pub algorithm: Option<String>,
    pub pin_policy: Option<String>,
    pub touch_policy: Option<String>,
}

#[verifier::ext_equal]
pub struct KeyInfoView {
    pub algorithm: Option<Seq<char>>,
    pub pin_policy: Option<Seq<char>>,
    pub touch_policy: Option<Seq<char>>,
}

impl View for YubiKeyKeyInfo {
    type V = KeyInfoView;

    open spec fn view(&self) -> KeyInfoView {
        KeyInfoView {
            algorithm: view_option(self.algorithm),
            pin_policy: view_option(self.pin_policy),
            touch_policy: view_option(self.touch_policy),
        }
    }
}

/// What a line adds to what is known of a key.
pub open spec fn with_line(info: KeyInfoView, line: Seq<char>) -> KeyInfoView {
    let at = position(line, ':');
    let key = lower(trim(line.take(at)));
    let value = trim(line.skip(at + 1));
    if at >= line.len() || value.len() == 0 {
        info
    } else if key == "algorithm"@ {
        KeyInfoView { algorithm: Some(value), ..info }
    } else if key == "pin policy"@ {
        KeyInfoView { pin_policy: Some(value), ..info }
    } else if key == "touch policy"@ {
        KeyInfoView { touch_policy: Some(value), ..info }
    } else {
        info
    }
}

/// What the lines say of a key; of two lines about the same thing the later
/// one counts.
pub open spec fn info_in_lines(lines: Seq<Seq<char>>) -> KeyInfoView
    decreases lines.len(),
{
    if lines.len() == 0 {
        KeyInfoView { algorithm: None, pin_policy: None, touch_policy: None }
    } else {
        with_line(info_in_lines(lines.drop_last()), lines.last())
    }
}

pub open spec fn key_info(text: Seq<char>) -> KeyInfoView {
    info_in_lines(split(text, '\n'))
}

pub fn parse_yubikey_key_info(text: &str) -> (r: YubiKeyKeyInfo)
    ensures
        r@ == key_info(text@),
{
    let lines: Vec<String> = parts(text, '\n');
    let ghost all = view_all(lines@);
    let mut info: YubiKeyKeyInfo = YubiKeyKeyInfo {
        algorithm: None,
        pin_policy: None,
        touch_policy: None,
    };
    let mut i: usize = 0;
    assert(info@ =~= info_in_lines(all.take(0)));
    while i < lines.len()
        invariant
            0 <= i <= lines@.len(),
            all == view_all(lines@),
            info@ == info_in_lines(all.take(i as int)),
        decreases lines@.len() - i,
    {
        proof {
            assert(all.take(i + 1).drop_last() =~= all.take(i as int));
            assert(all.take(i + 1).last() == all[i as int]);
        }
        if let Some((key, value)) = split_once(lines[i].as_str(), ':') {
            let name: String = lowercase(trimmed(key.as_str()).as_str());
            let content: String = trimmed(value.as_str());
            if chars_of(content.as_str()).len() > 0 {
                if text_eq(name.as_str(), "algorithm") {
                    info.algorithm = Some(content);
                } else if text_eq(name.as_str(), "pin policy") {
                    info.pin_policy = Some(content);
                } else if text_eq(name.as_str(), "touch policy") {
                    info.touch_policy = Some(content);
                }
            }
        }
        i += 1;
    }
    assert(all.take(i as int) =~= all);
    info
}

/// A failed inspection says that the slot holds no key.
pub open spec fn says_no_key(text: Seq<char>) -> bool {
    let lowered = lower(text);
    contains(lowered, "no key"@) || contains(lowered, "not found"@) || contains(
        lowered,
        "not present"@,
    ) || contains(lowered, "empty"@)
}

/// What an inspection that printed the texts found: a key, no key, or that it
/// went wrong.
pub open spec fn inspected_texts(success: bool, printed: Seq<char>, errors: Seq<char>) -> Result<
    Option<KeyInfoView>,
    ErrorView,
> {
    let text = printed + "\n"@ + errors;
    if success {
        Ok(Some(key_info(text)))
    } else if says_no_key(text) {
        Ok(None)
    } else {
        Err(
            ErrorView::Certificate(
                failure_text("YubiKey Manager could not inspect the PIV slot"@, errors, printed),
            ),
        )
    }
}

/// What a slot's inspection found: a key, no key, or that it went wrong.
pub open spec fn inspection(output: OutputView) -> Result<Option<KeyInfoView>, ErrorView> {
    inspected_texts(output.success, lossy_text(output.stdout), lossy_text(output.stderr))
}

pub open spec fn view_inspection(r: AppResult<Option<YubiKeyKeyInfo>>) -> Result<
    Option<KeyInfoView>,
    ErrorView,
> {
    match r {
        Ok(Some(info)) => Ok(Some(info@)),
        Ok(None) => Ok(None),
        Err(e) => Err(e@),
    }
}

/// What an inspection that printed the texts found.
pub fn key_info_from_texts(success: bool, printed: &str, errors: &str) -> (r: AppResult<
    Option<YubiKeyKeyInfo>,
>)
    ensures
        view_inspection(r) == inspected_texts(success, printed@, errors@),
{
    let text: String = concat3(printed, "\n", errors);
    if success {
        return Ok(Some(parse_yubikey_key_info(text.as_str())));
    }
    let lowered: String = lowercase(text.as_str());
    if includes(lowered.as_str(), "no key") || includes(lowered.as_str(), "not found") || includes(
        lowered.as_str(),
        "not present",
    ) || includes(lowered.as_str(), "empty") {
        return Ok(None);
    }
    Err(
        AppError::Certificate(
            failure_message("YubiKey Manager could not inspect the PIV slot", errors, printed),
        ),
    )
}

/// What a slot's inspection found.
pub fn yubikey_key_info_from_output(output: &CommandOutput) -> (r: AppResult<
    Option<YubiKeyKeyInfo>,
>)
    ensures
        view_inspection(r) == inspection(output@),
{
    let printed: String = utf8_lossy(output.stdout.as_slice());
    let errors: String = utf8_lossy(output.stderr.as_slice());
    key_info_from_texts(output.success, printed.as_str(), errors.as_str())
}

// ---------------------------------------------------------------------------
// Commands
// ---------------------------------------------------------------------------

/// A file in the directory that a procedure works in.
#[derive(Clone, Copy, Debug, PartialEq, Eq, Structural)]
pub enum DeviceFile {
    PublicKey,
    Request,
    Certificate,
    ExistingCertificate,
    SlotCertificate,
}

/// The file's name; the slot tells apart the certificates of an inventory.
pub open spec fn file_name(file: DeviceFile, slot: Seq<char>) -> Seq<char> {
    match file {
        DeviceFile::PublicKey => "yubikey-public.pem"@,
        DeviceFile::Request => "yubikey-request.pem"@,
        DeviceFile::Certificate => "yubikey-certificate.pem"@,
        DeviceFile::ExistingCertificate => "existing-yubikey-certificate.pem"@,
        DeviceFile::SlotCertificate => "yubikey-slot-"@ + slot + ".pem"@,
    }
}

pub fn device_file_name(file: DeviceFile, slot: &str) -> (r: String)
    ensures
        r@ == file_name(file, slot@),
{
    match file {
        DeviceFile::PublicKey => "yubikey-public.pem".to_owned(),
        DeviceFile::Request => "yubikey-request.pem".to_owned(),
        DeviceFile::Certificate => "yubikey-certificate.pem".to_owned(),
        DeviceFile::ExistingCertificate => "existing-yubikey-certificate.pem".to_owned(),
        DeviceFile::SlotCertificate => concat3("yubikey-slot-", slot, ".pem"),
    }
}

/// What YubiKey Manager is asked to do.
#[derive(Clone, Copy, Debug, PartialEq, Eq, Structural)]
pub enum YkmanCommand {
    KeyInfo,
    ExportCertificate(DeviceFile),
    ExportKey,
    GenerateKey,
    RequestCertificate,
    ImportCertificate,
    DeleteCertificate,
    DeleteKey,
}

/// The subject of a certificate request, with what would end the name in it
/// escaped.
pub open spec fn request_subject(common_name: Seq<char>) -> Seq<char> {
    "CN="@ + replace(replace(common_name, ',', "\\,"@), '+', "\\+"@)
}

pub open spec fn file_arg(file: DeviceFile, slot: Seq<char>) -> ArgumentView {
    ArgumentView::File(file_name(file, slot))
}

/// The arguments of a command.
pub open spec fn command_args(
    command: YkmanCommand,
    request: KeyRequestView,
    common_name: Seq<char>,
) -> Seq<ArgumentView> {
    let slot = request.slot;
    match command {
        YkmanCommand::KeyInfo => seq![arg("piv"@), arg("keys"@), arg("info"@), arg(slot)],
        YkmanCommand::ExportCertificate(file) => seq![
            arg("piv"@),
            arg("certificates"@),
            arg("export"@),
            arg(slot),
            file_arg(file, slot),
        ],
        YkmanCommand::ExportKey => seq![
            arg("piv"@),
            arg("keys"@),
            arg("export"@),
            arg("--verify"@),
            arg("--pin"@),
            secret_arg(request.pin),
            arg(slot),
            file_arg(DeviceFile::PublicKey, slot),
        ],
        YkmanCommand::GenerateKey => seq![
            arg("piv"@),
            arg("keys"@),
            arg("generate"@),
            arg("--algorithm"@),
            arg(request.algorithm),
            arg("--pin-policy"@),
            arg(request.pin_policy),
            arg("--touch-policy"@),
            arg(request.touch_policy),
            arg("--management-key"@),
            secret_arg(management_key(request)),
        ] + (if request.pin.len() > 0 {
            seq![arg("--pin"@), secret_arg(request.pin)]
        } else {
            Seq::empty()
        }) + seq![arg(slot), file_arg(DeviceFile::PublicKey, slot)],
        YkmanCommand::RequestCertificate => seq![
            arg("piv"@),
            arg("certificates"@),
            arg("request"@),
            arg("--pin"@),
            secret_arg(request.pin),
            arg("--subject"@),
            arg(request_subject(common_name)),
            arg(slot),
            file_arg(DeviceFile::PublicKey, slot),
            file_arg(DeviceFile::Request, slot),
        ],
        YkmanCommand::ImportCertificate => seq![
            arg("piv"@),
            arg("certificates"@),
            arg("import"@),
            arg("--verify"@),
            arg("--pin"@),
            secret_arg(request.pin),
            arg("--management-key"@),
            secret_arg(management_key(request)),
            arg(slot),
            file_arg(DeviceFile::Certificate, slot),
        ],
        YkmanCommand::DeleteCertificate => seq![
            arg("piv"@),
            arg("certificates"@),
            arg("delete"@),
            arg("--pin"@),
            secret_arg(request.pin),
            arg("--management-key"@),
            secret_arg(management_key(request)),
            arg(slot),
        ],
        YkmanCommand::DeleteKey => seq![
            arg("piv"@),
            arg("keys"@),
            arg("delete"@),
            arg("--pin"@),
            secret_arg(request.pin),
            arg("--management-key"@),
            secret_arg(management_key(request)),
            arg(slot),
        ],
    }
}

fn push_file(args: &mut Vec<Argument>, file: DeviceFile, slot: &str)
    ensures
        view_arguments(final(args)@) == view_arguments(old(args)@).push(file_arg(file, slot@)),
{
    let ghost before = view_arguments(args@);
    args.push(Argument::File(device_file_name(file, slot)));
    assert(view_arguments(args@) =~= before.push(file_arg(file, slot@)));
}

/// The arguments of a command.
pub fn ykman_args(command: YkmanCommand, request: &YubiKeyRequest, common_name: &str) -> (r: Vec<
    Argument,
>)
    ensures
        view_arguments(r@) == command_args(command, request@, common_name@),
{
    let slot: &str = request.slot.as_str();
    let pin: &str = request.pin.as_str();
    let key: String = yubikey_management_key(request);
    let mut args: Vec<Argument> = Vec::new();
    match command {
        YkmanCommand::KeyInfo => {
            push_texts(&mut args, &["piv", "keys", "info", slot]);
        },
        YkmanCommand::ExportCertificate(file) => {
            push_texts(&mut args, &["piv", "certificates", "export", slot]);
            push_file(&mut args, file, slot);
        },
        YkmanCommand::ExportKey => {
            push_texts(&mut args, &["piv", "keys", "export", "--verify", "--pin"]);
            push_secret(&mut args, pin);
            push_texts(&mut args, &[slot]);
            push_file(&mut args, DeviceFile::PublicKey, slot);
        },
        YkmanCommand::GenerateKey => {
            push_texts(
                &mut args,
                &[
                    "piv",
                    "keys",
                    "generate",
                    "--algorithm",
                    request.algorithm.as_str(),
                    "--pin-policy",
                    request.pin_policy.as_str(),
                    "--touch-policy",
                    request.touch_policy.as_str(),
                    "--management-key",
                ],
            );
            push_secret(&mut args, key.as_str());
            if chars_of(pin).len() > 0 {
                push_texts(&mut args, &["--pin"]);
                push_secret(&mut args, pin);
            }
            push_texts(&mut args, &[slot]);
            push_file(&mut args, DeviceFile::PublicKey, slot);
        },
        YkmanCommand::RequestCertificate => {
            let name: String = replaced(replaced(common_name, ',', "\\,").as_str(), '+', "\\+");
            let subject: String = concat2("CN=", name.as_str());
            push_texts(&mut args, &["piv", "certificates", "request", "--pin"]);
            push_secret(&mut args, pin);
            push_texts(&mut args, &["--subject", subject.as_str(), slot]);
            push_file(&mut args, DeviceFile::PublicKey, slot);
            push_file(&mut args, DeviceFile::Request, slot);
        },
        YkmanCommand::ImportCertificate => {
            push_texts(&mut args, &["piv", "certificates", "import", "--verify", "--pin"]);
            push_secret(&mut args, pin);
            push_texts(&mut args, &["--management-key"]);
            push_secret(&mut args, key.as_str());
            push_texts(&mut args, &[slot]);
            push_file(&mut args, DeviceFile::Certificate, slot);
        },
        YkmanCommand::DeleteCertificate => {
            push_texts(&mut args, &["piv", "certificates", "delete", "--pin"]);
            push_secret(&mut args, pin);
            push_texts(&mut args, &["--management-key"]);
            push_secret(&mut args, key.as_str());
            push_texts(&mut args, &[slot]);
        },
        YkmanCommand::DeleteKey => {
            push_texts(&mut args, &["piv", "keys", "delete", "--pin"]);
            push_secret(&mut args, pin);
            push_texts(&mut args, &["--management-key"]);
            push_secret(&mut args, key.as_str());
            push_texts(&mut args, &[slot]);
        },
    }
    assert(view_arguments(args@) =~= command_args(command, request@, common_name@));
    args
}

proof fn lemma_plain_options()
    ensures
        is_secret_option("--pin"@),
        is_secret_option("--management-key"@),
        !is_secret_option("--verify"@),
        !is_secret_option("request"@),
        !is_secret_option("delete"@),
        !is_secret_option("default"@),
        !is_secret_option("never"@),
        !is_secret_option("always"@),
        !is_secret_option("cached"@),
{
    reveal_strlit("--pin");
    reveal_strlit("-P");
    reveal_strlit("--management-key");
    reveal_strlit("-m");
    reveal_strlit("--password");
    reveal_strlit("-p");
    reveal_strlit("--verify");
    reveal_strlit("request");
    reveal_strlit("delete");
    reveal_strlit("default");
    reveal_strlit("never");
    reveal_strlit("always");
    reveal_strlit("cached");
    assert("--pin"@.len() == 5 && "--pin"@[0] == '-');
    assert("-P"@.len() == 2);
    assert("--management-key"@.len() == 16);
    assert("-m"@.len() == 2);
    assert("--password"@.len() == 10);
    assert("-p"@.len() == 2);
    assert("--verify"@.len() == 8);
    assert("request"@.len() == 7);
    assert("delete"@.len() == 6);
    assert("default"@.len() == 7);
    assert("never"@.len() == 5 && "never"@[0] == 'n');
    assert("always"@.len() == 6);
    assert("cached"@.len() == 6);
}

/// Whatever command of a valid request is shown, its PIN and its management
/// key are not.
pub proof fn law_commands_show_no_secrets(
    command: YkmanCommand,
    request: KeyRequestView,
    common_name: Seq<char>,
    path: spec_fn(Seq<char>) -> Seq<char>,
    i: int,
)
    requires
        key_request_outcome(request) is Ok,
        0 <= i < command_args(command, request, common_name).len(),
        command_args(command, request, common_name)[i] is Secret,
    ensures
        shown_args(resolved(command_args(command, request, common_name), path))[i]
            == "<redacted>"@,
{
    lemma_plain_options();
    let args = resolved(command_args(command, request, common_name), path);
    match command {
        YkmanCommand::KeyInfo => {},
        YkmanCommand::ExportCertificate(_) => {},
        YkmanCommand::ExportKey => {
            assert(args[3] == "--verify"@ && args[4] == "--pin"@);
            assert(!is_secret_value(args, 4));
            assert(is_secret_value(args, 5));
        },
        YkmanCommand::GenerateKey => {
            assert(args[8] == request.touch_policy && args[9] == "--management-key"@);
            assert(!is_secret_value(args, 9));
            assert(is_secret_value(args, 10));
            if request.pin.len() > 0 {
                assert(args[11] == "--pin"@);
                assert(!is_secret_value(args, 11));
                assert(is_secret_value(args, 12));
            }
        },
        YkmanCommand::RequestCertificate => {
            assert(args[2] == "request"@ && args[3] == "--pin"@);
            assert(!is_secret_value(args, 3));
            assert(is_secret_value(args, 4));
        },
        YkmanCommand::ImportCertificate => {
            assert(args[3] == "--verify"@ && args[4] == "--pin"@ && args[6]
                == "--management-key"@);
            assert(!is_secret_value(args, 4));
            assert(is_secret_value(args, 5));
            assert(!is_secret_value(args, 6));
            assert(is_secret_value(args, 7));
        },
        YkmanCommand::DeleteCertificate => {
            assert(args[2] == "delete"@ && args[3] == "--pin"@ && args[5]
                == "--management-key"@);
            assert(!is_secret_value(args, 3));
            assert(is_secret_value(args, 4));
            assert(!is_secret_value(args, 5));
            assert(is_secret_value(args, 6));
        },
        YkmanCommand::DeleteKey => {
            assert(args[2] == "delete"@ && args[3] == "--pin"@ && args[5]
                == "--management-key"@);
            assert(!is_secret_value(args, 3));
            assert(is_secret_value(args, 4));
            assert(!is_secret_value(args, 5));
            assert(is_secret_value(args, 6));
        },
    }
}

// ---------------------------------------------------------------------------
// Actions
// ---------------------------------------------------------------------------

/// What the caller is to do next; `Done` ends the procedure.
pub enum DeviceAction<T> {
    CreateDirectory,
    Run(YkmanCommand),
    CheckFile(DeviceFile),
    ReadFile(DeviceFile),
    WriteCertificate(String),
    Done(AppResult<T>),
}

/// An action whose result is seen as `V`.
#[verifier::ext_equal]
pub enum ActionView<V> {
    CreateDirectory,
    Run(YkmanCommand),
    CheckFile(DeviceFile),
    ReadFile(DeviceFile),
    WriteCertificate(Seq<char>),
    Done(Result<V, ErrorView>),
}

pub open spec fn view_action<T: View>(action: DeviceAction<T>) -> ActionView<T::V> {
    match action {
        DeviceAction::CreateDirectory => ActionView::CreateDirectory,
        DeviceAction::Run(command) => ActionView::Run(command),
        DeviceAction::CheckFile(file) => ActionView::CheckFile(file),
        DeviceAction::ReadFile(file) => ActionView::ReadFile(file),
        DeviceAction::WriteCertificate(pem) => ActionView::WriteCertificate(pem@),
        DeviceAction::Done(r) => ActionView::Done(view_outcome(r)),
    }
}

// ---------------------------------------------------------------------------
// A certificate request from a slot
// ---------------------------------------------------------------------------

/// A certificate request from a slot, and whether its key was made for it.
pub struct SlotRequest {
    pub csr_pem: String,
    pub generated_new_key: bool,
}

#[verifier::ext_equal]
pub struct SlotRequestView {
    pub csr_pem: Seq<char>,
    pub generated_new_key: bool,
}

impl View for SlotRequest {
    type V = SlotRequestView;

    open spec fn view(&self) -> SlotRequestView {
        SlotRequestView { csr_pem: self.csr_pem@, generated_new_key: self.generated_new_key }
    }
}

/// What a certificate request from a slot waits for.
pub enum CsrStage {
    Directory,
    KeyInfo,
    CertificateExport { has_key: bool },
    CertificateFile { has_key: bool },
    KeyExport,
    KeyGeneration,
    Request { new_key: bool },
    RequestFile { new_key: bool },
    Cleanup(AppError),
    Finished,
}

#[verifier::ext_equal]
pub enum CsrStageView {
    Directory,
    KeyInfo,
    CertificateExport { has_key: bool },
    CertificateFile { has_key: bool },
    KeyExport,
    KeyGeneration,
    Request { new_key: bool },
    RequestFile { new_key: bool },
    Cleanup(ErrorView),
    Finished,
}

impl View for CsrStage {
    type V = CsrStageView;

    open spec fn view(&self) -> CsrStageView {
        match self {
            CsrStage::Directory => CsrStageView::Directory,
            CsrStage::KeyInfo => CsrStageView::KeyInfo,
            CsrStage::CertificateExport { has_key } => CsrStageView::CertificateExport {
                has_key: *has_key,
            },
            CsrStage::CertificateFile { has_key } => CsrStageView::CertificateFile {
                has_key: *has_key,
            },
            CsrStage::KeyExport => CsrStageView::KeyExport,
            CsrStage::KeyGeneration => CsrStageView::KeyGeneration,
            CsrStage::Request { new_key } => CsrStageView::Request { new_key: *new_key },
            CsrStage::RequestFile { new_key } => CsrStageView::RequestFile { new_key: *new_key },
            CsrStage::Cleanup(e) => CsrStageView::Cleanup(e@),
            CsrStage::Finished => CsrStageView::Finished,
        }
    }
}

pub type CsrStep = (CsrStageView, ActionView<SlotRequestView>);

pub open spec fn csr_fail(error: ErrorView) -> CsrStep {
    (CsrStageView::Finished, ActionView::Done(Err(error)))
}

/// Failure once there may be a key that was made for the request: such a key
/// is deleted first.
pub open spec fn csr_fail_clean(new_key: bool, error: ErrorView) -> CsrStep {
    if new_key {
        (CsrStageView::Cleanup(error), ActionView::Run(YkmanCommand::DeleteKey))
    } else {
        csr_fail(error)
    }
}

pub open spec fn occupied(slot: Seq<char>, content: Seq<char>) -> ErrorView {
    ErrorView::Certificate(
        "YubiKey PIV slot "@ + slot + " already contains a "@ + content
            + "; choose another slot or clear it with YubiKey Manager before requesting a new certificate"@,
    )
}

/// Once it is known what the slot holds: an occupied slot is used only with
/// leave, and then with the key that is in it.
pub open spec fn csr_inspected(
    slot: Seq<char>,
    replace_existing: bool,
    has_key: bool,
    has_certificate: bool,
) -> CsrStep {
    if has_key && !replace_existing {
        csr_fail(occupied(slot, "private key"@))
    } else if has_certificate && !replace_existing {
        csr_fail(occupied(slot, "certificate"@))
    } else if has_key {
        (CsrStageView::KeyExport, ActionView::Run(YkmanCommand::ExportKey))
    } else {
        (CsrStageView::KeyGeneration, ActionView::Run(YkmanCommand::GenerateKey))
    }
}

/// Whether a key was made that is not yet part of a finished request.
pub open spec fn holds_new_key(stage: CsrStageView) -> bool {
    stage == (CsrStageView::Request { new_key: true }) || stage == (CsrStageView::RequestFile {
        new_key: true,
    })
}

/// One step on the way to a certificate request from a slot.
pub open spec fn csr_step(
    slot: Seq<char>,
    replace_existing: bool,
    stage: CsrStageView,
    event: EventView,
) -> CsrStep {
    match (stage, event) {
        (CsrStageView::Directory, EventView::Directory(made)) => if made {
            (CsrStageView::KeyInfo, ActionView::Run(YkmanCommand::KeyInfo))
        } else {
            csr_fail(
                ErrorView::Certificate("could not create a protected temporary directory"@),
            )
        },
        (CsrStageView::KeyInfo, EventView::Output(Ok(output))) => match inspection(output) {
            Ok(info) => (
                CsrStageView::CertificateExport { has_key: info is Some },
                ActionView::Run(YkmanCommand::ExportCertificate(DeviceFile::ExistingCertificate)),
            ),
            Err(e) => csr_fail(e),
        },
        (
            CsrStageView::CertificateExport { has_key },
            EventView::Output(Ok(output)),
        ) => if output.success {
            (
                CsrStageView::CertificateFile { has_key },
                ActionView::CheckFile(DeviceFile::ExistingCertificate),
            )
        } else {
            csr_inspected(slot, replace_existing, has_key, false)
        },
        (CsrStageView::CertificateFile { has_key }, EventView::Present(present)) => csr_inspected(
            slot,
            replace_existing,
            has_key,
            present,
        ),
        (CsrStageView::KeyExport, EventView::Output(Ok(output))) => if output.success {
            (
                CsrStageView::Request { new_key: false },
                ActionView::Run(YkmanCommand::RequestCertificate),
            )
        } else {
            csr_fail(
                ErrorView::Certificate(
                    command_message(
                        "YubiKey Manager could not export the existing PIV public key"@,
                        output,
                    ),
                ),
            )
        },
        (CsrStageView::KeyGeneration, EventView::Output(Ok(output))) => if output.success {
            (
                CsrStageView::Request { new_key: true },
                ActionView::Run(YkmanCommand::RequestCertificate),
            )
        } else {
            csr_fail(
                ErrorView::Certificate(
                    command_message("YubiKey Manager could not generate a PIV key"@, output),
                ),
            )
        },
        (CsrStageView::Request { new_key }, EventView::Output(Ok(output))) => if output.success {
            (CsrStageView::RequestFile { new_key }, ActionView::ReadFile(DeviceFile::Request))
        } else {
            csr_fail_clean(
                new_key,
                ErrorView::Certificate(
                    command_message("YubiKey Manager could not generate a CSR"@, output),
                ),
            )
        },
        (CsrStageView::RequestFile { new_key }, EventView::Text(Some(text))) => if contains(
            text,
            "BEGIN CERTIFICATE REQUEST"@,
        ) {
            (
                CsrStageView::Finished,
                ActionView::Done(
                    Ok(SlotRequestView { csr_pem: text, generated_new_key: new_key }),
                ),
            )
        } else {
            csr_fail_clean(
                new_key,
                ErrorView::Certificate("YubiKey Manager produced an unexpected CSR format"@),
            )
        },
        (CsrStageView::RequestFile { new_key }, EventView::Text(None)) => csr_fail_clean(
            new_key,
            ErrorView::Certificate("YubiKey Manager did not produce a certificate request"@),
        ),
        (CsrStageView::Cleanup(e), _) => csr_fail(e),
        (CsrStageView::Finished, _) => csr_fail(ErrorView::Internal),
        (_, EventView::Output(Err(e))) => csr_fail_clean(holds_new_key(stage), e),
        (_, _) => csr_fail_clean(holds_new_key(stage), ErrorView::Internal),
    }
}

/// A certificate request from a slot that is under way.
pub struct YubiKeyCsr {
    pub slot: String,
    pub replace_existing: bool,
    pub stage: CsrStage,
}

fn csr_failed(error: AppError) -> (r: (CsrStage, DeviceAction<SlotRequest>))
    ensures
        (r.0@, view_action(r.1)) == csr_fail(error@),
{
    (CsrStage::Finished, DeviceAction::Done(Err(error)))
}

fn csr_failed_clean(new_key: bool, error: AppError) -> (r: (CsrStage, DeviceAction<SlotRequest>))
    ensures
        (r.0@, view_action(r.1)) == csr_fail_clean(new_key, error@),
{
    if new_key {
        (CsrStage::Cleanup(error), DeviceAction::Run(YkmanCommand::DeleteKey))
    } else {
        csr_failed(error)
    }
}

fn csr_on_inspected(
    slot: &str,
    replace_existing: bool,
    has_key: bool,
    has_certificate: bool,
) -> (r: (CsrStage, DeviceAction<SlotRequest>))
    ensures
        (r.0@, view_action(r.1)) == csr_inspected(
            slot@,
            replace_existing,
            has_key,
            has_certificate,
        ),
{
    if (has_key || has_certificate) && !replace_existing {
        let content: &str = if has_key {
            "private key"
        } else {
            "certificate"
        };
        let start: String = concat3("YubiKey PIV slot ", slot, " already contains a ");
        let message: String = concat3(
            start.as_str(),
            content,
            "; choose another slot or clear it with YubiKey Manager before requesting a new certificate",
        );
        return csr_failed(AppError::Certificate(message));
    }
    if has_key {
        (CsrStage::KeyExport, DeviceAction::Run(YkmanCommand::ExportKey))
    } else {
        (CsrStage::KeyGeneration, DeviceAction::Run(YkmanCommand::GenerateKey))
    }
}

fn csr_advance(slot: &str, replace_existing: bool, stage: CsrStage, event: Event) -> (r: (
    CsrStage,
    DeviceAction<SlotRequest>,
))
    ensures
        (r.0@, view_action(r.1)) == csr_step(slot@, replace_existing, stage@, event@),
{
    let new_key: bool = match &stage {
        CsrStage::Request { new_key } => *new_key,
        CsrStage::RequestFile { new_key } => *new_key,
        _ => false,
    };
    match (stage, event) {
        (CsrStage::Directory, Event::Directory(made)) => if made {
            (CsrStage::KeyInfo, DeviceAction::Run(YkmanCommand::KeyInfo))
        } else {
            csr_failed(certificate_error("could not create a protected temporary directory"))
        },
        (CsrStage::KeyInfo, Event::Output(Ok(output))) => match yubikey_key_info_from_output(
            &output,
        ) {
            Ok(info) => (
                CsrStage::CertificateExport { has_key: info.is_some() },
                DeviceAction::Run(YkmanCommand::ExportCertificate(DeviceFile::ExistingCertificate)),
            ),
            Err(e) => csr_failed(e),
        },
        (
            CsrStage::CertificateExport { has_key },
            Event::Output(Ok(output)),
        ) => if output.success {
            (
                CsrStage::CertificateFile { has_key },
                DeviceAction::CheckFile(DeviceFile::ExistingCertificate),
            )
        } else {
            csr_on_inspected(slot, replace_existing, has_key, false)
        },
        (CsrStage::CertificateFile { has_key }, Event::Present(present)) => csr_on_inspected(
            slot,
            replace_existing,
            has_key,
            present,
        ),
        (CsrStage::KeyExport, Event::Output(Ok(output))) => if output.success {
            (
                CsrStage::Request { new_key: false },
                DeviceAction::Run(YkmanCommand::RequestCertificate),
            )
        } else {
            csr_failed(
                AppError::Certificate(
                    command_error(
                        "YubiKey Manager could not export the existing PIV public key",
                        &output,
                    ),
                ),
            )
        },
        (CsrStage::KeyGeneration, Event::Output(Ok(output))) => if output.success {
            (
                CsrStage::Request { new_key: true },
                DeviceAction::Run(YkmanCommand::RequestCertificate),
            )
        } else {
            csr_failed(
                AppError::Certificate(
                    command_error("YubiKey Manager could not generate a PIV key", &output),
                ),
            )
        },
        (CsrStage::Request { new_key }, Event::Output(Ok(output))) => if output.success {
            (CsrStage::RequestFile { new_key }, DeviceAction::ReadFile(DeviceFile::Request))
        } else {
            csr_failed_clean(
                new_key,
                AppError::Certificate(
                    command_error("YubiKey Manager could not generate a CSR", &output),
                ),
            )
        },
        (CsrStage::RequestFile { new_key }, Event::Text(Some(text))) => if includes(
            text.as_str(),
            "BEGIN CERTIFICATE REQUEST",
        ) {
            (
                CsrStage::Finished,
                DeviceAction::Done(Ok(SlotRequest { csr_pem: text, generated_new_key: new_key })),
            )
        } else {
            csr_failed_clean(
                new_key,
                certificate_error("YubiKey Manager produced an unexpected CSR format"),
            )
        },
        (CsrStage::RequestFile { new_key }, Event::Text(None)) => csr_failed_clean(
            new_key,
            certificate_error("YubiKey Manager did not produce a certificate request"),
        ),
        (CsrStage::Cleanup(e), _) => csr_failed(e),
        (CsrStage::Finished, _) => csr_failed(AppError::Internal),
        (_, Event::Output(Err(e))) => csr_failed_clean(new_key, e),
        (_, _) => csr_failed_clean(new_key, AppError::Internal),
    }
}

/// A request that may be made of a slot.
pub open spec fn slot_request_outcome(common_name: Seq<char>, request: KeyRequestView) -> Result<
    (),
    ErrorView,
> {
    match identity_outcome(common_name) {
        Err(e) => Err(e),
        Ok(()) => key_request_outcome(request),
    }
}

/// Begins a certificate request; the first action is to create a
/// directory.
pub fn generate_yubikey_csr(
    common_name: &str,
    request: &YubiKeyRequest,
    replace_existing: bool,
) -> (r: AppResult<YubiKeyCsr>)
    ensures
        match r {
            Ok(machine) => slot_request_outcome(common_name@, request@) is Ok
                && machine.slot@ == request@.slot && machine.replace_existing
                == replace_existing && machine.stage@ == CsrStageView::Directory,
            Err(e) => slot_request_outcome(common_name@, request@) == Err::<(), ErrorView>(e@),
        },
        r matches Ok(machine) ==> begins_request(
            machine.slot@,
            machine.replace_existing,
            machine.stage@,
            request@,
            replace_existing,
        ),
{
    match validate_identity(common_name) {
        Ok(()) => {},
        Err(e) => return Err(e),
    }
    match validate_yubikey_request(request) {
        Ok(()) => {},
        Err(e) => return Err(e),
    }
    Ok(
        YubiKeyCsr {
            slot: request.slot.clone(),
            replace_existing,
            stage: CsrStage::Directory,
        },
    )
}

impl YubiKeyCsr {
    /// Takes what came of the last action and says what the next one is.
    pub fn step(self, event: Event) -> (r: (YubiKeyCsr, DeviceAction<SlotRequest>))
        ensures
            r.0.slot == self.slot,
            r.0.replace_existing == self.replace_existing,
            (r.0.stage@, view_action(r.1)) == csr_step(
                self.slot@,
                self.replace_existing,
                self.stage@,
                event@,
            ),
    {
        let YubiKeyCsr { slot, replace_existing, stage } = self;
        let (stage, action): (CsrStage, DeviceAction<SlotRequest>) = csr_advance(
            slot.as_str(),
            replace_existing,
            stage,
            event,
        );
        (YubiKeyCsr { slot, replace_existing, stage }, action)
    }
}

/// Everything that a request did so far, from its beginning on.
#[verifier::ext_equal]
pub struct CsrTrace {
    pub stage: CsrStageView,
    pub actions: Seq<ActionView<SlotRequestView>>,
}

/// What a request does when it is told of the events one after the other.
pub open spec fn csr_run(slot: Seq<char>, replace_existing: bool, events: Seq<EventView>) -> CsrTrace
    decreases events.len(),
{
    if events.len() == 0 {
        CsrTrace { stage: CsrStageView::Directory, actions: seq![ActionView::CreateDirectory] }
    } else {
        let before = csr_run(slot, replace_existing, events.drop_last());
        let (stage, action) = csr_step(slot, replace_existing, before.stage, events.last());
        CsrTrace { stage, actions: before.actions.push(action) }
    }
}

/// The stage that a request is in after the first `k` events.
pub open spec fn stage_after(
    slot: Seq<char>,
    replace_existing: bool,
    events: Seq<EventView>,
    k: int,
) -> CsrStageView {
    csr_run(slot, replace_existing, events.take(k)).stage
}

/// A key was made on the way.
pub open spec fn made_key(slot: Seq<char>, replace_existing: bool, events: Seq<EventView>) -> bool {
    exists|k: int|
        0 <= k <= events.len() && holds_new_key(
            #[trigger] stage_after(slot, replace_existing, events, k),
        )
}

/// None of the actions ended the procedure.
pub open spec fn still_running(actions: Seq<ActionView<SlotRequestView>>) -> bool {
    forall|i: int| 0 <= i < actions.len() ==> !(#[trigger] actions[i] is Done)
}

proof fn lemma_made_key_step(slot: Seq<char>, replace_existing: bool, events: Seq<EventView>)
    requires
        events.len() > 0,
    ensures
        made_key(slot, replace_existing, events) <==> made_key(
            slot,
            replace_existing,
            events.drop_last(),
        ) || holds_new_key(csr_run(slot, replace_existing, events).stage),
{
    let rest = events.drop_last();
    assert(events.take(events.len() as int) =~= events);
    assert(stage_after(slot, replace_existing, events, events.len() as int) == csr_run(
        slot,
        replace_existing,
        events,
    ).stage);
    if made_key(slot, replace_existing, events) {
        let k = choose|k: int|
            0 <= k <= events.len() && holds_new_key(
                #[trigger] stage_after(slot, replace_existing, events, k),
            );
        if k < events.len() {
            assert(events.take(k) =~= rest.take(k));
            assert(holds_new_key(stage_after(slot, replace_existing, rest, k)));
        }
    }
    if made_key(slot, replace_existing, rest) {
        let k = choose|k: int|
            0 <= k <= rest.len() && holds_new_key(
                #[trigger] stage_after(slot, replace_existing, rest, k),
            );
        assert(events.take(k) =~= rest.take(k));
        assert(holds_new_key(stage_after(slot, replace_existing, events, k)));
    }
}

proof fn lemma_cleanup(slot: Seq<char>, replace_existing: bool, events: Seq<EventView>)
    ensures
        ({
            let t = csr_run(slot, replace_existing, events);
            let deletes = t.actions.contains(ActionView::Run(YkmanCommand::DeleteKey));
            &&& deletes ==> made_key(slot, replace_existing, events)
            &&& made_key(slot, replace_existing, events) && still_running(t.actions) ==> deletes
                || holds_new_key(t.stage)
            &&& holds_new_key(t.stage) ==> made_key(slot, replace_existing, events)
        }),
    decreases events.len(),
{
    let t = csr_run(slot, replace_existing, events);
    if events.len() == 0 {
        assert(events.take(0) =~= events);
        assert(t.actions[0] == ActionView::<SlotRequestView>::CreateDirectory);
        if made_key(slot, replace_existing, events) {
            let k = choose|k: int|
                0 <= k <= events.len() && holds_new_key(
                    #[trigger] stage_after(slot, replace_existing, events, k),
                );
            assert(events.take(k) =~= events);
        }
    } else {
        let rest = events.drop_last();
        let before = csr_run(slot, replace_existing, rest);
        lemma_cleanup(slot, replace_existing, rest);
        lemma_made_key_step(slot, replace_existing, events);
        let delete = ActionView::<SlotRequestView>::Run(YkmanCommand::DeleteKey);
        let n = before.actions.len() as int;
        assert(t.actions[n] == csr_step(
            slot,
            replace_existing,
            before.stage,
            events.last(),
        ).1);
        if t.actions.contains(delete) {
            let i = choose|i: int| 0 <= i < t.actions.len() && t.actions[i] == delete;
            if i < n {
                assert(before.actions[i] == delete);
            } else {
                assert(holds_new_key(before.stage));
            }
        }
        if before.actions.contains(delete) {
            let i = choose|i: int| 0 <= i < before.actions.len() && before.actions[i] == delete;
            assert(t.actions[i] == delete);
        }
        if still_running(t.actions) {
            assert forall|i: int| 0 <= i < before.actions.len() implies !(
            #[trigger] before.actions[i] is Done) by {
                assert(t.actions[i] == before.actions[i]);
            }
            assert(!(t.actions[n] is Done));
        }
    }
}

/// A key that was made for a request is deleted before the request is given
/// up.
pub proof fn law_failed_requests_leave_no_new_key(
    slot: Seq<char>,
    replace_existing: bool,
    events: Seq<EventView>,
)
    requires
        made_key(slot, replace_existing, events),
        ({
            let actions = csr_run(slot, replace_existing, events).actions;
            still_running(actions.drop_last()) && actions.last() matches ActionView::Done(Err(_))
        }),
    ensures
        csr_run(slot, replace_existing, events).actions.contains(
            ActionView::Run(YkmanCommand::DeleteKey),
        ),
{
    let t = csr_run(slot, replace_existing, events);
    if events.len() == 0 {
        assert(t.actions.last() == ActionView::<SlotRequestView>::CreateDirectory);
    } else {
        let rest = events.drop_last();
        let before = csr_run(slot, replace_existing, rest);
        let delete = ActionView::<SlotRequestView>::Run(YkmanCommand::DeleteKey);
        lemma_cleanup(slot, replace_existing, rest);
        lemma_made_key_step(slot, replace_existing, events);
        assert(t.actions.drop_last() =~= before.actions);
        assert(before.actions.contains(delete));
        let i = choose|i: int| 0 <= i < before.actions.len() && before.actions[i] == delete;
        assert(t.actions[i] == delete);
    }
}

/// A key that was in the slot before is never deleted: only a request that
/// made a key deletes one.
pub proof fn law_existing_keys_survive(
    slot: Seq<char>,
    replace_existing: bool,
    events: Seq<EventView>,
)
    requires
        csr_run(slot, replace_existing, events).actions.contains(
            ActionView::Run(YkmanCommand::DeleteKey),
        ),
    ensures
        made_key(slot, replace_existing, events),
{
    lemma_cleanup(slot, replace_existing, events);
}

/// The output of an inspection that found no key.
pub open spec fn says_empty(event: EventView) -> bool {
    event matches EventView::Output(Ok(output)) && inspection(output) == Ok::<
        Option<KeyInfoView>,
        ErrorView,
    >(None)
}

/// The slot was inspected and found without a key.
pub open spec fn found_no_key(
    slot: Seq<char>,
    replace_existing: bool,
    events: Seq<EventView>,
) -> bool {
    exists|k: int|
        0 <= k < events.len() && #[trigger] stage_after(slot, replace_existing, events, k)
            == CsrStageView::KeyInfo && says_empty(events[k])
}

proof fn lemma_found_no_key_step(slot: Seq<char>, replace_existing: bool, events: Seq<EventView>)
    requires
        events.len() > 0,
        found_no_key(slot, replace_existing, events.drop_last()),
    ensures
        found_no_key(slot, replace_existing, events),
{
    let rest = events.drop_last();
    let k = choose|k: int|
        0 <= k < rest.len() && #[trigger] stage_after(slot, replace_existing, rest, k)
            == CsrStageView::KeyInfo && says_empty(rest[k]);
    assert(events.take(k) =~= rest.take(k));
    assert(stage_after(slot, replace_existing, events, k) == CsrStageView::KeyInfo);
    assert(events[k] == rest[k]);
}

proof fn lemma_no_overwrite(slot: Seq<char>, replace_existing: bool, events: Seq<EventView>)
    ensures
        ({
            let t = csr_run(slot, replace_existing, events);
            let generates = t.actions.contains(ActionView::Run(YkmanCommand::GenerateKey));
            &&& t.stage == (CsrStageView::CertificateExport { has_key: false }) || t.stage == (
            CsrStageView::CertificateFile { has_key: false }) ==> found_no_key(
                slot,
                replace_existing,
                events,
            )
            &&& generates ==> found_no_key(slot, replace_existing, events)
        }),
    decreases events.len(),
{
    let t = csr_run(slot, replace_existing, events);
    if events.len() == 0 {
        assert(t.actions[0] == ActionView::<SlotRequestView>::CreateDirectory);
    } else {
        let rest = events.drop_last();
        let before = csr_run(slot, replace_existing, rest);
        lemma_no_overwrite(slot, replace_existing, rest);
        if found_no_key(slot, replace_existing, rest) {
            lemma_found_no_key_step(slot, replace_existing, events);
        }
        let n = before.actions.len() as int;
        let generate = ActionView::<SlotRequestView>::Run(YkmanCommand::GenerateKey);
        assert(t.actions[n] == csr_step(
            slot,
            replace_existing,
            before.stage,
            events.last(),
        ).1);
        if t.actions.contains(generate) {
            let i = choose|i: int| 0 <= i < t.actions.len() && t.actions[i] == generate;
            if i < n {
                assert(before.actions[i] == generate);
            }
        }
        if before.stage == CsrStageView::KeyInfo && t.stage == (CsrStageView::CertificateExport {
            has_key: false,
        }) {
            let k = rest.len() as int;
            assert(events.take(k) =~= rest);
            assert(stage_after(slot, replace_existing, events, k) == CsrStageView::KeyInfo);
            assert(events[k] == events.last());
        }
    }
}

/// A key is made only in a slot that was inspected and found without one, with
/// or without leave to replace what is there.
pub proof fn law_no_key_is_overwritten(
    slot: Seq<char>,
    replace_existing: bool,
    events: Seq<EventView>,
)
    requires
        csr_run(slot, replace_existing, events).actions.contains(
            ActionView::Run(YkmanCommand::GenerateKey),
        ),
    ensures
        found_no_key(slot, replace_existing, events),
{
    lemma_no_overwrite(slot, replace_existing, events);
}

/// Without leave to replace what is there, nothing is done with a slot that
/// holds a key or a certificate.
pub proof fn law_occupied_slots_need_leave(
    slot: Seq<char>,
    has_key: bool,
    has_certificate: bool,
)
    requires
        has_key || has_certificate,
    ensures
        csr_inspected(slot, false, has_key, has_certificate).0 == CsrStageView::Finished,
        csr_inspected(slot, false, has_key, has_certificate).1 matches ActionView::Done(Err(_)),
{
}

// ---------------------------------------------------------------------------
// Importing a signed certificate
// ---------------------------------------------------------------------------

/// What the import of a signed certificate waits for.
pub enum ImportStage {
    Staging(IssuedCertificate),
    Import(IssuedCertificate),
    Cleanup(AppError),
    Finished,
}

#[verifier::ext_equal]
pub enum ImportStageView {
    Staging(IssuedView),
    Import(IssuedView),
    Cleanup(ErrorView),
    Finished,
}

impl View for ImportStage {
    type V = ImportStageView;

    open spec fn view(&self) -> ImportStageView {
        match self {
            ImportStage::Staging(issued) => ImportStageView::Staging(issued@),
            ImportStage::Import(issued) => ImportStageView::Import(issued@),
            ImportStage::Cleanup(e) => ImportStageView::Cleanup(e@),
            ImportStage::Finished => ImportStageView::Finished,
        }
    }
}

pub type ImportStep = (ImportStageView, ActionView<IssuedView>);

/// Failure of an import: a key that was made for the certificate is deleted
/// first.
pub open spec fn import_fail(delete_key: bool, error: ErrorView) -> ImportStep {
    if delete_key {
        (ImportStageView::Cleanup(error), ActionView::Run(YkmanCommand::DeleteKey))
    } else {
        (ImportStageView::Finished, ActionView::Done(Err(error)))
    }
}

/// Only a certificate that was accepted is staged.
pub open spec fn import_begin(
    validation: Result<(IssuedView, Seq<Seq<char>>), ErrorView>,
    certificate_pem: Seq<char>,
    delete_key: bool,
) -> ImportStep {
    match validation {
        Ok((issued, _)) => (
            ImportStageView::Staging(issued),
            ActionView::WriteCertificate(certificate_pem),
        ),
        Err(e) => import_fail(delete_key, e),
    }
}

/// One step of an import.
pub open spec fn import_step(
    delete_key: bool,
    stage: ImportStageView,
    event: EventView,
) -> ImportStep {
    match (stage, event) {
        (ImportStageView::Staging(issued), EventView::Written(written)) => if written {
            (ImportStageView::Import(issued), ActionView::Run(YkmanCommand::ImportCertificate))
        } else {
            import_fail(
                delete_key,
                ErrorView::Certificate("could not stage the signed YubiKey certificate"@),
            )
        },
        (ImportStageView::Import(issued), EventView::Output(Ok(output))) => if output.success {
            (ImportStageView::Finished, ActionView::Done(Ok(issued)))
        } else {
            import_fail(
                delete_key,
                ErrorView::Certificate(
                    command_message(
                        "YubiKey Manager could not import the signed certificate"@,
                        output,
                    ),
                ),
            )
        },
        (ImportStageView::Import(_), EventView::Output(Err(e))) => (
            ImportStageView::Finished,
            ActionView::Done(Err(e)),
        ),
        (ImportStageView::Cleanup(e), _) => (ImportStageView::Finished, ActionView::Done(Err(e))),
        (_, _) => (ImportStageView::Finished, ActionView::Done(Err(ErrorView::Internal))),
    }
}

/// An import of a signed certificate that is under way.
pub struct YubiKeyImport {
    pub delete_key_on_failure: bool,
    pub stage: ImportStage,
}

fn import_failed(delete_key: bool, error: AppError) -> (r: (
    ImportStage,
    DeviceAction<IssuedCertificate>,
))
    ensures
        (r.0@, view_action(r.1)) == import_fail(delete_key, error@),
{
    if delete_key {
        (ImportStage::Cleanup(error), DeviceAction::Run(YkmanCommand::DeleteKey))
    } else {
        (ImportStage::Finished, DeviceAction::Done(Err(error)))
    }
}

impl YubiKeyImport {
    /// Begins an import with what the validation of the certificate said.
    pub fn begin(
        validation: AppResult<(IssuedCertificate, Vec<String>)>,
        certificate_pem: &str,
        delete_key_on_failure: bool,
    ) -> (r: (YubiKeyImport, DeviceAction<IssuedCertificate>))
        ensures
            r.0.delete_key_on_failure == delete_key_on_failure,
            (r.0.stage@, view_action(r.1)) == import_begin(
                view_accepted(validation),
                certificate_pem@,
                delete_key_on_failure,
            ),
    {
        let (stage, action): (ImportStage, DeviceAction<IssuedCertificate>) = match validation {
            Ok((issued, _)) => (
                ImportStage::Staging(issued),
                DeviceAction::WriteCertificate(certificate_pem.to_owned()),
            ),
            Err(e) => import_failed(delete_key_on_failure, e),
        };
        (YubiKeyImport { delete_key_on_failure, stage }, action)
    }

    /// Takes what came of the last action and says what the next one is.
    pub fn step(self, event: Event) -> (r: (YubiKeyImport, DeviceAction<IssuedCertificate>))
        ensures
            r.0.delete_key_on_failure == self.delete_key_on_failure,
            (r.0.stage@, view_action(r.1)) == import_step(
                self.delete_key_on_failure,
                self.stage@,
                event@,
            ),
    {
        let delete_key_on_failure: bool = self.delete_key_on_failure;
        let (stage, action): (ImportStage, DeviceAction<IssuedCertificate>) = match (
            self.stage,
            event,
        ) {
            (ImportStage::Staging(issued), Event::Written(written)) => if written {
                (ImportStage::Import(issued), DeviceAction::Run(YkmanCommand::ImportCertificate))
            } else {
                import_failed(
                    delete_key_on_failure,
                    certificate_error("could not stage the signed YubiKey certificate"),
                )
            },
            (ImportStage::Import(issued), Event::Output(Ok(output))) => if output.success {
                (ImportStage::Finished, DeviceAction::Done(Ok(issued)))
            } else {
                import_failed(
                    delete_key_on_failure,
                    AppError::Certificate(
                        command_error(
                            "YubiKey Manager could not import the signed certificate",
                            &output,
                        ),
                    ),
                )
            },
            (ImportStage::Import(_), Event::Output(Err(e))) => (
                ImportStage::Finished,
                DeviceAction::Done(Err(e)),
            ),
            (ImportStage::Cleanup(e), _) => (ImportStage::Finished, DeviceAction::Done(Err(e))),
            (_, _) => (ImportStage::Finished, DeviceAction::Done(Err(AppError::Internal))),
        };
        (YubiKeyImport { delete_key_on_failure, stage }, action)
    }
}

/// Validates a signed certificate and begins its import.
pub fn import_yubikey_certificate(
    csr_pem: &str,
    certificate_pem: &str,
    chain_pems: &[String],
    policy: &AcceptancePolicy<'_>,
    delete_key_on_failure: bool,
) -> (r: (YubiKeyImport, DeviceAction<IssuedCertificate>))
    ensures
        r.0.delete_key_on_failure == delete_key_on_failure,
        exists|now: int|
            (r.0.stage@, view_action(r.1)) == import_begin(
                issued_outcome(
                    csr_pem@,
                    certificate_pem@,
                    view_all(chain_pems@),
                    policy@,
                    #[trigger] valid_pem_at(certificate_pem@, now),
                ),
                certificate_pem@,
                delete_key_on_failure,
            ),
{
    let validation: AppResult<(IssuedCertificate, Vec<String>)> = validate_issued_certificate(
        csr_pem,
        certificate_pem,
        chain_pems,
        policy,
    );
    YubiKeyImport::begin(validation, certificate_pem, delete_key_on_failure)
}

impl SlotRequest {
    /// Validates the certificate that was signed for the request and begins its
    /// import; where that fails, the key goes if it was made for the request.
    pub fn import(
        &self,
        certificate_pem: &str,
        chain_pems: &[String],
        policy: &AcceptancePolicy<'_>,
    ) -> (r: (YubiKeyImport, DeviceAction<IssuedCertificate>))
        ensures
            r.0.delete_key_on_failure == self@.generated_new_key,
            exists|now: int|
                (r.0.stage@, view_action(r.1)) == import_begin(
                    issued_outcome(
                        self@.csr_pem,
                        certificate_pem@,
                        view_all(chain_pems@),
                        policy@,
                        #[trigger] valid_pem_at(certificate_pem@, now),
                    ),
                    certificate_pem@,
                    self@.generated_new_key,
                ),
    {
        import_yubikey_certificate(
            self.csr_pem.as_str(),
            certificate_pem,
            chain_pems,
            policy,
            self.generated_new_key,
        )
    }
}

/// The stage that an import has come to, and all actions so far.
#[verifier::ext_equal]
pub struct ImportTrace {
    pub stage: ImportStageView,
    pub actions: Seq<ActionView<IssuedView>>,
}

/// The run of an import over what came of its actions.
pub open spec fn import_run(
    validation: Result<(IssuedView, Seq<Seq<char>>), ErrorView>,
    certificate_pem: Seq<char>,
    delete_key: bool,
    events: Seq<EventView>,
) -> ImportTrace
    decreases events.len(),
{
    if events.len() == 0 {
        let (stage, action) = import_begin(validation, certificate_pem, delete_key);
        ImportTrace { stage, actions: seq![action] }
    } else {
        let before = import_run(validation, certificate_pem, delete_key, events.drop_last());
        let (stage, action) = import_step(delete_key, before.stage, events.last());
        ImportTrace { stage, actions: before.actions.push(action) }
    }
}

/// The event is what comes of the action that the stage waits for, and the
/// action could be carried out.
pub open spec fn is_answered(stage: ImportStageView, event: EventView) -> bool {
    match stage {
        ImportStageView::Staging(_) => event is Written,
        ImportStageView::Import(_) => event matches EventView::Output(Ok(_)),
        _ => true,
    }
}

/// Every action of the import could be carried out.
pub open spec fn all_answered(
    validation: Result<(IssuedView, Seq<Seq<char>>), ErrorView>,
    certificate_pem: Seq<char>,
    delete_key: bool,
    events: Seq<EventView>,
) -> bool {
    forall|k: int|
        0 <= k < events.len() ==> is_answered(
            import_run(validation, certificate_pem, delete_key, #[trigger] events.take(k)).stage,
            events[k],
        )
}

/// The last action ends the import with an error, and none before it ended it.
pub open spec fn gives_up(actions: Seq<ActionView<IssuedView>>) -> bool {
    &&& actions.last() matches ActionView::Done(Err(_))
    &&& forall|i: int| 0 <= i < actions.len() - 1 ==> !(#[trigger] actions[i] is Done)
}

proof fn lemma_new_key_stages(slot: Seq<char>, replace_existing: bool, events: Seq<EventView>)
    ensures
        ({
            let stage = csr_run(slot, replace_existing, events).stage;
            holds_new_key(stage) || stage is Cleanup || stage is Finished || !made_key(
                slot,
                replace_existing,
                events,
            )
        }),
    decreases events.len(),
{
    if events.len() == 0 {
        if made_key(slot, replace_existing, events) {
            let k = choose|k: int|
                0 <= k <= events.len() && holds_new_key(
                    #[trigger] stage_after(slot, replace_existing, events, k),
                );
            assert(events.take(k) =~= events);
        }
    } else {
        lemma_new_key_stages(slot, replace_existing, events.drop_last());
        lemma_made_key_step(slot, replace_existing, events);
    }
}

proof fn lemma_import_run(
    validation: Result<(IssuedView, Seq<Seq<char>>), ErrorView>,
    certificate_pem: Seq<char>,
    delete_key: bool,
    events: Seq<EventView>,
)
    ensures
        ({
            let t = import_run(validation, certificate_pem, delete_key, events);
            &&& t.actions.len() == events.len() + 1
            &&& t.stage is Finished <==> t.actions.last() is Done
            &&& t.stage is Cleanup ==> t.actions.last() == ActionView::<IssuedView>::Run(
                YkmanCommand::DeleteKey,
            )
            &&& !delete_key ==> forall|i: int|
                0 <= i < t.actions.len() ==> #[trigger] t.actions[i]
                    != ActionView::<IssuedView>::Run(YkmanCommand::DeleteKey)
        }),
    decreases events.len(),
{
    if events.len() > 0 {
        lemma_import_run(validation, certificate_pem, delete_key, events.drop_last());
    }
}

/// A request tells whether its key was made for it, and the import that follows
/// deletes the key only then; it does so before it fails, unless YubiKey Manager
/// could not be run.
pub proof fn law_imports_delete_only_new_keys(
    slot: Seq<char>,
    replace_existing: bool,
    events: Seq<EventView>,
    request: SlotRequestView,
    validation: Result<(IssuedView, Seq<Seq<char>>), ErrorView>,
    certificate_pem: Seq<char>,
    imported: Seq<EventView>,
)
    requires
        csr_run(slot, replace_existing, events).actions.last() == ActionView::Done(
            Ok::<SlotRequestView, ErrorView>(request),
        ),
    ensures
        request.generated_new_key <==> made_key(slot, replace_existing, events),
        ({
            let t = import_run(validation, certificate_pem, request.generated_new_key, imported);
            let deletes = t.actions.contains(ActionView::Run(YkmanCommand::DeleteKey));
            &&& deletes ==> made_key(slot, replace_existing, events)
            &&& made_key(slot, replace_existing, events) && gives_up(t.actions) && all_answered(
                validation,
                certificate_pem,
                request.generated_new_key,
                imported,
            ) ==> deletes
        }),
{
    let new_key = request.generated_new_key;
    if events.len() > 0 {
        lemma_new_key_stages(slot, replace_existing, events.drop_last());
        lemma_cleanup(slot, replace_existing, events.drop_last());
        lemma_made_key_step(slot, replace_existing, events);
    }
    let t = import_run(validation, certificate_pem, new_key, imported);
    let delete = ActionView::<IssuedView>::Run(YkmanCommand::DeleteKey);
    lemma_import_run(validation, certificate_pem, new_key, imported);
    if imported.len() > 0 {
        let n = imported.len() - 1;
        let before = import_run(validation, certificate_pem, new_key, imported.drop_last());
        lemma_import_run(validation, certificate_pem, new_key, imported.drop_last());
        assert(imported.take(n) =~= imported.drop_last());
        assert(t.actions[n] == before.actions.last());
        assert(t.actions[n + 1] == import_step(new_key, before.stage, imported.last()).1);
    }
}

/// A certificate that was refused is neither staged nor imported.
pub proof fn law_refused_certificates_stay_out(
    error: ErrorView,
    certificate_pem: Seq<char>,
    delete_key: bool,
    event: EventView,
)
    ensures
        ({
            let (stage, action) = import_begin(
                Err::<(IssuedView, Seq<Seq<char>>), ErrorView>(error),
                certificate_pem,
                delete_key,
            );
            let (_, next) = import_step(delete_key, stage, event);
            &&& !(action is WriteCertificate)
            &&& next matches ActionView::Done(Err(_))
        }),
{
}

/// An import into a slot whose key was there before never deletes the key.
pub proof fn law_import_keeps_existing_keys(
    validation: Result<(IssuedView, Seq<Seq<char>>), ErrorView>,
    certificate_pem: Seq<char>,
    stage: ImportStageView,
    event: EventView,
)
    ensures
        import_begin(validation, certificate_pem, false).1 != ActionView::<IssuedView>::Run(
            YkmanCommand::DeleteKey,
        ),
        import_step(false, stage, event).1 != ActionView::<IssuedView>::Run(
            YkmanCommand::DeleteKey,
        ),
{
}

// ---------------------------------------------------------------------------
// Removing a certificate
// ---------------------------------------------------------------------------

/// The command that removes a slot's certificate, for a request that is valid.
pub fn delete_yubikey_certificate(request: &YubiKeyRequest) -> (r: AppResult<YkmanCommand>)
    ensures
        match r {
            Ok(command) => key_request_outcome(request@) is Ok && command
                == YkmanCommand::DeleteCertificate,
            Err(e) => key_request_outcome(request@) == Err::<(), ErrorView>(e@),
        },
{
    match validate_yubikey_request(request) {
        Ok(()) => Ok(YkmanCommand::DeleteCertificate),
        Err(e) => Err(e),
    }
}

/// What the removal of a slot's certificate came to.
pub open spec fn removal_outcome(output: Result<OutputView, ErrorView>) -> Result<(), ErrorView> {
    match output {
        Err(e) => Err(e),
        Ok(output) => if output.success {
            Ok(())
        } else {
            Err(
                ErrorView::Certificate(
                    command_message("YubiKey Manager could not remove the certificate"@, output),
                ),
            )
        },
    }
}

/// What the removal of a slot's certificate came to.
pub fn yubikey_certificate_deleted(output: AppResult<CommandOutput>) -> (r: AppResult<()>)
    ensures
        outcome(r) == removal_outcome(view_outcome(output)),
{
    match output {
        Err(e) => Err(e),
        Ok(output) => if output.success {
            Ok(())
        } else {
            Err(
                AppError::Certificate(
                    command_error("YubiKey Manager could not remove the certificate", &output),
                ),
            )
        },
    }
}

// ---------------------------------------------------------------------------
// An inventory of the slots
// ---------------------------------------------------------------------------

/// What a slot holds.
pub struct YubiKeySlotCertificate {
    pub slot: String,
    pub label: String,
    pub has_private_key: bool,
    pub key_algorithm: Option<String>,
    pub pin_policy: Option<String>,
    pub touch_policy: Option<String>,
    pub certificate: Option<PersonalCertificate>,
}

#[verifier::ext_equal]
pub struct SlotView {
    pub slot: Seq<char>,
    pub label: Seq<char>,
    pub has_private_key: bool,
    pub key_algorithm: Option<Seq<char>>,
    pub pin_policy: Option<Seq<char>>,
    pub touch_policy: Option<Seq<char>>,
    pub certificate: Option<PersonalView>,
}

pub open spec fn view_certificate(cert: Option<PersonalCertificate>) -> Option<PersonalView> {
    match cert {
        Some(cert) => Some(cert@),
        None => None,
    }
}

impl View for YubiKeySlotCertificate {
    type V = SlotView;

    open spec fn view(&self) -> SlotView {
        SlotView {
            slot: self.slot@,
            label: self.label@,
            has_private_key: self.has_private_key,
            key_algorithm: view_option(self.key_algorithm),
            pin_policy: view_option(self.pin_policy),
            touch_policy: view_option(self.touch_policy),
            certificate: view_certificate(self.certificate),
        }
    }
}

/// What all slots hold.
pub struct YubiKeySlots {
    pub slots: Vec<YubiKeySlotCertificate>,
}

impl View for YubiKeySlots {
    type V = Seq<SlotView>;

    open spec fn view(&self) -> Seq<SlotView> {
        Seq::new(self.slots@.len(), |i: int| self.slots@[i]@)
    }
}

/// The name of the slot with the given number.
pub open spec fn slot_name(index: int) -> Seq<char> {
    if index == 0 {
        "9a"@
    } else if index == 1 {
        "9c"@
    } else if index == 2 {
        "9d"@
    } else {
        "9e"@
    }
}

/// What the slot with the given number is for.
pub open spec fn slot_label(index: int) -> Seq<char> {
    if index == 0 {
        "Authentication"@
    } else if index == 1 {
        "Digital signature"@
    } else if index == 2 {
        "Key management"@
    } else {
        "Card authentication"@
    }
}

fn slot_text(index: usize) -> (r: &'static str)
    ensures
        r@ == slot_name(index as int),
{
    if index == 0 {
        "9a"
    } else if index == 1 {
        "9c"
    } else if index == 2 {
        "9d"
    } else {
        "9e"
    }
}

fn label_text(index: usize) -> (r: &'static str)
    ensures
        r@ == slot_label(index as int),
{
    if index == 0 {
        "Authentication"
    } else if index == 1 {
        "Digital signature"
    } else if index == 2 {
        "Key management"
    } else {
        "Card authentication"
    }
}

/// What an inventory waits for.
#[derive(Clone, Copy, Debug, PartialEq, Eq, Structural)]
pub enum InventoryStage {
    Directory,
    KeyInfo,
    CertificateExport,
    CertificateFile,
    CertificateText,
    Finished,
}

/// An inventory that is under way: the slot that is looked at, what is known
/// of its key, and the slots that are done.
pub struct YubiKeyInventory {
    pub stage: InventoryStage,
    pub index: usize,
    pub info: Option<YubiKeyKeyInfo>,
    pub found: YubiKeySlots,
}

#[verifier::ext_equal]
pub struct InventoryView {
    pub stage: InventoryStage,
    pub index: int,
    pub info: Option<KeyInfoView>,
    pub found: Seq<SlotView>,
}

pub open spec fn view_info(info: Option<YubiKeyKeyInfo>) -> Option<KeyInfoView> {
    match info {
        Some(info) => Some(info@),
        None => None,
    }
}

impl View for YubiKeyInventory {
    type V = InventoryView;

    open spec fn view(&self) -> InventoryView {
        InventoryView {
            stage: self.stage,
            index: self.index as int,
            info: view_info(self.info),
            found: self.found@,
        }
    }
}

pub type InventoryStep = (InventoryView, ActionView<Seq<SlotView>>);

pub open spec fn inventory_at(v: InventoryView, stage: InventoryStage) -> InventoryView {
    InventoryView { stage, ..v }
}

pub open spec fn inventory_fail(v: InventoryView, error: ErrorView) -> InventoryStep {
    (inventory_at(v, InventoryStage::Finished), ActionView::Done(Err(error)))
}

/// What is recorded of a slot.
pub open spec fn slot_entry(
    index: int,
    info: Option<KeyInfoView>,
    certificate: Option<PersonalView>,
) -> SlotView {
    SlotView {
        slot: slot_name(index),
        label: slot_label(index),
        has_private_key: info is Some,
        key_algorithm: match info {
            Some(info) => info.algorithm,
            None => None,
        },
        pin_policy: match info {
            Some(info) => info.pin_policy,
            None => None,
        },
        touch_policy: match info {
            Some(info) => info.touch_policy,
            None => None,
        },
        certificate,
    }
}

/// Once a slot is done: the next one, or the end.
pub open spec fn inventory_next(v: InventoryView, certificate: Option<PersonalView>) -> InventoryStep {
    let found = v.found.push(slot_entry(v.index, v.info, certificate));
    if v.index + 1 >= 4 {
        (
            InventoryView { stage: InventoryStage::Finished, found: Seq::empty(), ..v },
            ActionView::Done(Ok(found)),
        )
    } else {
        (
            InventoryView {
                stage: InventoryStage::KeyInfo,
                index: v.index + 1,
                info: None,
                found,
            },
            ActionView::Run(YkmanCommand::KeyInfo),
        )
    }
}

/// One step of an inventory.
pub open spec fn inventory_step(v: InventoryView, event: EventView) -> InventoryStep {
    match (v.stage, event) {
        (InventoryStage::Directory, EventView::Directory(made)) => if made {
            (
                inventory_at(v, InventoryStage::KeyInfo),
                ActionView::Run(YkmanCommand::KeyInfo),
            )
        } else {
            inventory_fail(
                v,
                ErrorView::Certificate("could not create a protected temporary directory"@),
            )
        },
        (InventoryStage::KeyInfo, EventView::Output(Ok(output))) => match inspection(output) {
            Err(e) => inventory_fail(v, e),
            Ok(info) => (
                InventoryView { stage: InventoryStage::CertificateExport, info, ..v },
                ActionView::Run(YkmanCommand::ExportCertificate(DeviceFile::SlotCertificate)),
            ),
        },
        (
            InventoryStage::CertificateExport,
            EventView::Output(Ok(output)),
        ) => if output.success {
            (
                inventory_at(v, InventoryStage::CertificateFile),
                ActionView::CheckFile(DeviceFile::SlotCertificate),
            )
        } else {
            inventory_next(v, None)
        },
        (InventoryStage::CertificateFile, EventView::Present(present)) => if present {
            (
                inventory_at(v, InventoryStage::CertificateText),
                ActionView::ReadFile(DeviceFile::SlotCertificate),
            )
        } else {
            inventory_next(v, None)
        },
        (InventoryStage::CertificateText, EventView::Text(Some(text))) => match personal_outcome(
            text,
            v.info is Some,
        ) {
            Err(e) => inventory_fail(v, e),
            Ok(cert) => inventory_next(v, Some(cert)),
        },
        (InventoryStage::CertificateText, EventView::Text(None)) => inventory_fail(
            v,
            ErrorView::Certificate("YubiKey certificate could not be read"@),
        ),
        (InventoryStage::Finished, _) => inventory_fail(v, ErrorView::Internal),
        (_, EventView::Output(Err(e))) => inventory_fail(v, e),
        (_, _) => inventory_fail(v, ErrorView::Internal),
    }
}

/// The slots that are done are the first ones, in their order.
pub open spec fn is_inventory(v: InventoryView) -> bool {
    v.stage == InventoryStage::Finished || {
        &&& 0 <= v.index < 4
        &&& v.found.len() == v.index
        &&& forall|i: int| 0 <= i < v.found.len() ==> (#[trigger] v.found[i]).slot == slot_name(i)
    }
}

/// An inventory that comes to its end has an entry for each of the four slots,
/// in their order, and keeps to them on the way.
pub proof fn law_inventories_cover_every_slot(v: InventoryView, event: EventView)
    requires
        is_inventory(v),
    ensures
        is_inventory(inventory_step(v, event).0),
        inventory_step(v, event).1 matches ActionView::Done(Ok(found)) ==> found.len() == 4
            && forall|i: int| 0 <= i < 4 ==> (#[trigger] found[i]).slot == slot_name(i),
{
}

/// Begins an inventory; the first action is to create a directory.
pub fn list_yubikey_certificates() -> (r: YubiKeyInventory)
    ensures
        r@ == (InventoryView {
            stage: InventoryStage::Directory,
            index: 0,
            info: None,
            found: Seq::empty(),
        }),
        is_inventory(r@),
{
    let found: YubiKeySlots = YubiKeySlots { slots: Vec::new() };
    assert(found@ =~= Seq::empty());
    YubiKeyInventory { stage: InventoryStage::Directory, index: 0, info: None, found }
}

impl YubiKeyInventory {
    /// The slot that is being looked at.
    pub fn slot(&self) -> (r: &'static str)
        ensures
            r@ == slot_name(self@.index),
    {
        slot_text(self.index)
    }

    fn at(self, stage: InventoryStage) -> (r: YubiKeyInventory)
        ensures
            r@ == inventory_at(self@, stage),
    {
        YubiKeyInventory { stage, index: self.index, info: self.info, found: self.found }
    }

    fn failed(self, error: AppError) -> (r: (YubiKeyInventory, DeviceAction<YubiKeySlots>))
        ensures
            (r.0@, view_action(r.1)) == inventory_fail(self@, error@),
    {
        (self.at(InventoryStage::Finished), DeviceAction::Done(Err(error)))
    }

    fn next(self, certificate: Option<PersonalCertificate>) -> (r: (
        YubiKeyInventory,
        DeviceAction<YubiKeySlots>,
    ))
        requires
            self.index < 4,
        ensures
            (r.0@, view_action(r.1)) == inventory_next(self@, view_certificate(certificate)),
    {
        let ghost before = self@;
        let YubiKeyInventory { stage: _, index, info, found } = self;
        let mut slots: Vec<YubiKeySlotCertificate> = found.slots;
        let ghost entry_before = before.found;
        let has_private_key: bool = info.is_some();
        let (key_algorithm, pin_policy, touch_policy): (
            Option<String>,
            Option<String>,
            Option<String>,
        ) = match &info {
            Some(info) => (
                info.algorithm.clone(),
                info.pin_policy.clone(),
                info.touch_policy.clone(),
            ),
            None => (None, None, None),
        };
        let entry: YubiKeySlotCertificate = YubiKeySlotCertificate {
            slot: slot_text(index).to_owned(),
            label: label_text(index).to_owned(),
            has_private_key,
            key_algorithm,
            pin_policy,
            touch_policy,
            certificate,
        };
        let ghost added = entry@;
        slots.push(entry);
        let found: YubiKeySlots = YubiKeySlots { slots };
        assert(found@ =~= before.found.push(added));
        if index + 1 >= 4 {
            let empty: YubiKeySlots = YubiKeySlots { slots: Vec::new() };
            assert(empty@ =~= Seq::empty());
            (
                YubiKeyInventory { stage: InventoryStage::Finished, index, info, found: empty },
                DeviceAction::Done(Ok(found)),
            )
        } else {
            (
                YubiKeyInventory {
                    stage: InventoryStage::KeyInfo,
                    index: index + 1,
                    info: None,
                    found,
                },
                DeviceAction::Run(YkmanCommand::KeyInfo),
            )
        }
    }

    /// Takes what came of the last action and says what the next one is.
    pub fn step(self, event: Event) -> (r: (YubiKeyInventory, DeviceAction<YubiKeySlots>))
        requires
            is_inventory(self@),
        ensures
            (r.0@, view_action(r.1)) == inventory_step(self@, event@),
            is_inventory(r.0@),
    {
        proof {
            law_inventories_cover_every_slot(self@, event@);
        }
        match (self.stage, event) {
            (InventoryStage::Directory, Event::Directory(made)) => if made {
                (
                    self.at(InventoryStage::KeyInfo),
                    DeviceAction::Run(YkmanCommand::KeyInfo),
                )
            } else {
                self.failed(certificate_error("could not create a protected temporary directory"))
            },
            (
                InventoryStage::KeyInfo,
                Event::Output(Ok(output)),
            ) => match yubikey_key_info_from_output(&output) {
                Err(e) => self.failed(e),
                Ok(info) => (
                    YubiKeyInventory {
                        stage: InventoryStage::CertificateExport,
                        index: self.index,
                        info,
                        found: self.found,
                    },
                    DeviceAction::Run(YkmanCommand::ExportCertificate(DeviceFile::SlotCertificate)),
                ),
            },
            (
                InventoryStage::CertificateExport,
                Event::Output(Ok(output)),
            ) => if output.success {
                (
                    self.at(InventoryStage::CertificateFile),
                    DeviceAction::CheckFile(DeviceFile::SlotCertificate),
                )
            } else {
                self.next(None)
            },
            (InventoryStage::CertificateFile, Event::Present(present)) => if present {
                (
                    self.at(InventoryStage::CertificateText),
                    DeviceAction::ReadFile(DeviceFile::SlotCertificate),
                )
            } else {
                self.next(None)
            },
            (
                InventoryStage::CertificateText,
                Event::Text(Some(text)),
            ) => match personal_certificate_from_pem(text.as_str(), self.info.is_some()) {
                Err(e) => self.failed(e),
                Ok(cert) => self.next(Some(cert)),
            },
            (InventoryStage::CertificateText, Event::Text(None)) => self.failed(
                certificate_error("YubiKey certificate could not be read"),
            ),
            (InventoryStage::Finished, _) => self.failed(AppError::Internal),
            (_, Event::Output(Err(e))) => self.failed(e),
            (_, _) => self.failed(AppError::Internal),
        }
    }
}

// ---------------------------------------------------------------------------
// What the commands carry
// ---------------------------------------------------------------------------

/// The value stands right behind the option.
pub open spec fn follows(
    args: Seq<ArgumentView>,
    option: Seq<char>,
    value: ArgumentView,
) -> bool {
    exists|i: int| #![trigger args[i]]
        0 <= i && i + 1 < args.len() && args[i] == ArgumentView::Text(option) && args[i + 1]
            == value
}

proof fn lemma_follows(args: Seq<ArgumentView>, i: int, option: Seq<char>, value: ArgumentView)
    requires
        0 <= i,
        i + 1 < args.len(),
        args[i] == ArgumentView::Text(option),
        args[i + 1] == value,
    ensures
        follows(args, option, value),
{
}

/// A key is made as the request asks for it: with its algorithm and both of its
/// policies, by its management key and its PIN, in its slot.
pub proof fn law_new_keys_are_as_asked_for(request: KeyRequestView, common_name: Seq<char>)
    ensures
        ({
            let args = command_args(YkmanCommand::GenerateKey, request, common_name);
            let n = args.len() as int;
            &&& args.take(3) == seq![
                ArgumentView::Text("piv"@),
                ArgumentView::Text("keys"@),
                ArgumentView::Text("generate"@),
            ]
            &&& follows(args, "--algorithm"@, ArgumentView::Text(request.algorithm))
            &&& follows(args, "--pin-policy"@, ArgumentView::Text(request.pin_policy))
            &&& follows(args, "--touch-policy"@, ArgumentView::Text(request.touch_policy))
            &&& follows(
                args,
                "--management-key"@,
                ArgumentView::Secret(management_key(request)),
            )
            &&& request.pin.len() > 0 ==> n == 15 && follows(
                args,
                "--pin"@,
                ArgumentView::Secret(request.pin),
            )
            &&& request.pin.len() == 0 ==> n == 13
            &&& args[n - 2] == ArgumentView::Text(request.slot)
            &&& args[n - 1] == ArgumentView::File("yubikey-public.pem"@)
        }),
{
    let args = command_args(YkmanCommand::GenerateKey, request, common_name);
    lemma_follows(args, 3, "--algorithm"@, ArgumentView::Text(request.algorithm));
    lemma_follows(args, 5, "--pin-policy"@, ArgumentView::Text(request.pin_policy));
    lemma_follows(args, 7, "--touch-policy"@, ArgumentView::Text(request.touch_policy));
    lemma_follows(
        args,
        9,
        "--management-key"@,
        ArgumentView::Secret(management_key(request)),
    );
    if request.pin.len() > 0 {
        lemma_follows(args, 11, "--pin"@, ArgumentView::Secret(request.pin));
    }
    assert(args.take(3) =~= seq![
        ArgumentView::Text("piv"@),
        ArgumentView::Text("keys"@),
        ArgumentView::Text("generate"@),
    ]);
}

/// Requests that differ in the algorithm alone make keys by commands that
/// differ exactly in the word behind the option for it; and so for either
/// policy.
pub proof fn law_each_choice_reaches_its_option(
    request: KeyRequestView,
    common_name: Seq<char>,
    choice: Seq<char>,
)
    ensures
        command_args(
            YkmanCommand::GenerateKey,
            KeyRequestView { algorithm: choice, ..request },
            common_name,
        ) == command_args(YkmanCommand::GenerateKey, request, common_name).update(
            4,
            ArgumentView::Text(choice),
        ),
        command_args(
            YkmanCommand::GenerateKey,
            KeyRequestView { pin_policy: choice, ..request },
            common_name,
        ) == command_args(YkmanCommand::GenerateKey, request, common_name).update(
            6,
            ArgumentView::Text(choice),
        ),
        command_args(
            YkmanCommand::GenerateKey,
            KeyRequestView { touch_policy: choice, ..request },
            common_name,
        ) == command_args(YkmanCommand::GenerateKey, request, common_name).update(
            8,
            ArgumentView::Text(choice),
        ),
{
    let args = command_args(YkmanCommand::GenerateKey, request, common_name);
    assert(command_args(
        YkmanCommand::GenerateKey,
        KeyRequestView { algorithm: choice, ..request },
        common_name,
    ) =~= args.update(4, ArgumentView::Text(choice)));
    assert(command_args(
        YkmanCommand::GenerateKey,
        KeyRequestView { pin_policy: choice, ..request },
        common_name,
    ) =~= args.update(6, ArgumentView::Text(choice)));
    assert(command_args(
        YkmanCommand::GenerateKey,
        KeyRequestView { touch_policy: choice, ..request },
        common_name,
    ) =~= args.update(8, ArgumentView::Text(choice)));
}

/// Every other command is about the request's own slot, proves itself with the
/// request's own PIN and management key, and reads and writes the files of the
/// procedure.
pub proof fn law_commands_are_about_their_slot(
    request: KeyRequestView,
    common_name: Seq<char>,
    file: DeviceFile,
)
    ensures
        command_args(YkmanCommand::KeyInfo, request, common_name) == seq![
            ArgumentView::Text("piv"@),
            ArgumentView::Text("keys"@),
            ArgumentView::Text("info"@),
            ArgumentView::Text(request.slot),
        ],
        ({
            let args = command_args(YkmanCommand::ExportCertificate(file), request, common_name);
            &&& args.len() == 5
            &&& args[1] == ArgumentView::Text("certificates"@)
            &&& args[2] == ArgumentView::Text("export"@)
            &&& args[3] == ArgumentView::Text(request.slot)
            &&& args[4] == ArgumentView::File(file_name(file, request.slot))
        }),
        ({
            let args = command_args(YkmanCommand::ExportKey, request, common_name);
            &&& args.len() == 8
            &&& args[1] == ArgumentView::Text("keys"@)
            &&& args[2] == ArgumentView::Text("export"@)
            &&& args[3] == ArgumentView::Text("--verify"@)
            &&& follows(args, "--pin"@, ArgumentView::Secret(request.pin))
            &&& args[6] == ArgumentView::Text(request.slot)
            &&& args[7] == ArgumentView::File("yubikey-public.pem"@)
        }),
        ({
            let args = command_args(YkmanCommand::RequestCertificate, request, common_name);
            &&& args.len() == 10
            &&& args[1] == ArgumentView::Text("certificates"@)
            &&& args[2] == ArgumentView::Text("request"@)
            &&& follows(args, "--pin"@, ArgumentView::Secret(request.pin))
            &&& follows(args, "--subject"@, ArgumentView::Text(request_subject(common_name)))
            &&& args[7] == ArgumentView::Text(request.slot)
            &&& args[8] == ArgumentView::File("yubikey-public.pem"@)
            &&& args[9] == ArgumentView::File("yubikey-request.pem"@)
        }),
        ({
            let args = command_args(YkmanCommand::ImportCertificate, request, common_name);
            &&& args.len() == 10
            &&& args[1] == ArgumentView::Text("certificates"@)
            &&& args[2] == ArgumentView::Text("import"@)
            &&& args[3] == ArgumentView::Text("--verify"@)
            &&& follows(args, "--pin"@, ArgumentView::Secret(request.pin))
            &&& follows(args, "--management-key"@, ArgumentView::Secret(management_key(request)))
            &&& args[8] == ArgumentView::Text(request.slot)
            &&& args[9] == ArgumentView::File("yubikey-certificate.pem"@)
        }),
        ({
            let args = command_args(YkmanCommand::DeleteCertificate, request, common_name);
            &&& args.len() == 8
            &&& args[1] == ArgumentView::Text("certificates"@)
            &&& args[2] == ArgumentView::Text("delete"@)
            &&& follows(args, "--pin"@, ArgumentView::Secret(request.pin))
            &&& follows(args, "--management-key"@, ArgumentView::Secret(management_key(request)))
            &&& args[7] == ArgumentView::Text(request.slot)
        }),
        ({
            let args = command_args(YkmanCommand::DeleteKey, request, common_name);
            &&& args.len() == 8
            &&& args[1] == ArgumentView::Text("keys"@)
            &&& args[2] == ArgumentView::Text("delete"@)
            &&& follows(args, "--pin"@, ArgumentView::Secret(request.pin))
            &&& follows(args, "--management-key"@, ArgumentView::Secret(management_key(request)))
            &&& args[7] == ArgumentView::Text(request.slot)
        }),
{
    let pin = ArgumentView::Secret(request.pin);
    let key = ArgumentView::Secret(management_key(request));
    lemma_follows(command_args(YkmanCommand::ExportKey, request, common_name), 4, "--pin"@, pin);
    let args = command_args(YkmanCommand::RequestCertificate, request, common_name);
    lemma_follows(args, 3, "--pin"@, pin);
    lemma_follows(args, 5, "--subject"@, ArgumentView::Text(request_subject(common_name)));
    let args = command_args(YkmanCommand::ImportCertificate, request, common_name);
    lemma_follows(args, 4, "--pin"@, pin);
    lemma_follows(args, 6, "--management-key"@, key);
    let args = command_args(YkmanCommand::DeleteCertificate, request, common_name);
    lemma_follows(args, 3, "--pin"@, pin);
    lemma_follows(args, 5, "--management-key"@, key);
    let args = command_args(YkmanCommand::DeleteKey, request, common_name);
    lemma_follows(args, 3, "--pin"@, pin);
    lemma_follows(args, 5, "--management-key"@, key);
}

/// The subject of a request is the name behind `CN=`, character by character,
/// with a backslash before each comma and each plus sign.
pub proof fn law_subjects_are_the_escaped_name(name: Seq<char>, c: char)
    ensures
        request_subject(Seq::empty()) == "CN="@,
        c == ',' ==> request_subject(name.push(c)) == request_subject(name) + seq!['\\', ','],
        c == '+' ==> request_subject(name.push(c)) == request_subject(name) + seq!['\\', '+'],
        c != ',' && c != '+' ==> request_subject(name.push(c)) == request_subject(name).push(c),
{
    reveal_strlit("\\,");
    reveal_strlit("\\+");
    let once = replace(name, ',', "\\,"@);
    let twice = replace(once, '+', "\\+"@);
    assert(replace(Seq::empty(), ',', "\\,"@) =~= Seq::empty());
    assert("CN="@ + Seq::<char>::empty() =~= "CN="@);
    crate::text::law_replacing_goes_by_the_character(name, c, ',', "\\,"@);
    if c == ',' {
        assert(once + "\\,"@ =~= once.push('\\').push(','));
        crate::text::law_replacing_goes_by_the_character(once, '\\', '+', "\\+"@);
        crate::text::law_replacing_goes_by_the_character(once.push('\\'), ',', '+', "\\+"@);
        assert("CN="@ + twice.push('\\').push(',') =~= "CN="@ + twice + seq!['\\', ',']);
    } else {
        crate::text::law_replacing_goes_by_the_character(once, c, '+', "\\+"@);
        if c == '+' {
            assert("CN="@ + (twice + "\\+"@) =~= "CN="@ + twice + seq!['\\', '+']);
        } else {
            assert("CN="@ + twice.push(c) =~= ("CN="@ + twice).push(c));
        }
    }
}

/// The management key is the one that was given, without white space around
/// it; where none was given, or a blank one, the one that a YubiKey comes with.
pub proof fn law_given_management_keys_are_used(request: KeyRequestView)
    ensures
        request.management_key is Some && !is_blank(request.management_key->Some_0)
            ==> management_key(request) == trim(request.management_key->Some_0),
        request.management_key is None || is_blank(request.management_key->Some_0)
            ==> management_key(request) == "010203040506070801020304050607080102030405060708"@,
{
    if let Some(key) = request.management_key {
        let cut = crate::text::law_trimming_takes_the_ends(key);
    }
}

/// A request is served exactly where its slot, its algorithm and both policies
/// are known, and its PIN is not blank.
pub proof fn law_served_requests_are_known(request: KeyRequestView)
    ensures
        key_request_outcome(request) is Ok <==> {
            &&& seq!["9a"@, "9c"@, "9d"@, "9e"@].contains(request.slot)
            &&& seq!["rsa2048"@, "rsa3072"@, "rsa4096"@, "eccp256"@, "eccp384"@].contains(
                request.algorithm,
            )
            &&& seq!["default"@, "never"@, "once"@, "always"@].contains(request.pin_policy)
            &&& seq!["default"@, "never"@, "always"@, "cached"@].contains(request.touch_policy)
            &&& exists|i: int|
                0 <= i < request.pin.len() && !crate::text::is_whitespace(#[trigger] request.pin[i])
        },
        key_request_outcome(request) is Err ==> key_request_outcome(request)->Err_0 is Certificate,
{
    let slots = seq!["9a"@, "9c"@, "9d"@, "9e"@];
    assert(slots[0] == "9a"@ && slots[1] == "9c"@ && slots[2] == "9d"@ && slots[3] == "9e"@);
    let algorithms = seq!["rsa2048"@, "rsa3072"@, "rsa4096"@, "eccp256"@, "eccp384"@];
    assert(algorithms[0] == "rsa2048"@ && algorithms[1] == "rsa3072"@ && algorithms[2]
        == "rsa4096"@ && algorithms[3] == "eccp256"@ && algorithms[4] == "eccp384"@);
    let pins = seq!["default"@, "never"@, "once"@, "always"@];
    assert(pins[0] == "default"@ && pins[1] == "never"@ && pins[2] == "once"@ && pins[3]
        == "always"@);
    let touches = seq!["default"@, "never"@, "always"@, "cached"@];
    assert(touches[0] == "default"@ && touches[1] == "never"@ && touches[2] == "always"@
        && touches[3] == "cached"@);
}

/// A line of the form `key: value` at the end of what was printed of a key sets
/// what it is about, whatever its case and the white space around both; any
/// other line sets nothing.
pub proof fn law_lines_tell_of_the_key(text: Seq<char>, key: Seq<char>, value: Seq<char>)
    requires
        !key.contains('\n'),
        !key.contains(':'),
        !value.contains('\n'),
    ensures
        ({
            let before = key_info(text);
            let after = key_info(text.push('\n') + (key.push(':') + value));
            let name = lower(trim(key));
            let said = trim(value);
            &&& after.algorithm == if name == "algorithm"@ && said.len() > 0 {
                Some(said)
            } else {
                before.algorithm
            }
            &&& after.pin_policy == if name == "pin policy"@ && said.len() > 0 {
                Some(said)
            } else {
                before.pin_policy
            }
            &&& after.touch_policy == if name == "touch policy"@ && said.len() > 0 {
                Some(said)
            } else {
                before.touch_policy
            }
            &&& key_info(text.push('\n') + key) == before
        }),
        key_info(Seq::empty()) == (KeyInfoView {
            algorithm: None,
            pin_policy: None,
            touch_policy: None,
        }),
{
    reveal_strlit("algorithm");
    reveal_strlit("pin policy");
    reveal_strlit("touch policy");
    assert("algorithm"@.len() == 9 && "pin policy"@.len() == 10 && "touch policy"@.len() == 12);
    let line = key.push(':') + value;
    assert(!line.contains('\n')) by {
        if line.contains('\n') {
            let i = choose|i: int| 0 <= i < line.len() && line[i] == '\n';
            if i < key.len() {
                assert(key[i] == '\n');
            } else if i > key.len() {
                assert(value[i - key.len() - 1] == '\n');
            }
        }
    }
    crate::text::law_splitting_parts_at_the_character(text, '\n', line);
    crate::text::law_splitting_parts_at_the_character(text, '\n', key);
    crate::text::law_splitting_parts_at_the_character(Seq::empty(), '\n', Seq::empty());
    let lines = split(text, '\n');
    assert(lines.push(line).drop_last() =~= lines);
    assert(lines.push(key).drop_last() =~= lines);
    assert(!Seq::<char>::empty().contains('\n'));
    let none = seq![Seq::<char>::empty()];
    assert(none.drop_last() =~= Seq::empty());
    assert(info_in_lines(none.drop_last()) == (KeyInfoView {
        algorithm: None,
        pin_policy: None,
        touch_policy: None,
    }));
    assert(split(Seq::empty(), '\n') =~= none);
    assert(none.last() == Seq::<char>::empty());
    assert(info_in_lines(none) == with_line(info_in_lines(none.drop_last()), none.last()));
    lemma_colon(key, value);
    assert(line.take(key.len() as int) =~= key);
    assert(line.skip(key.len() as int + 1) =~= value);
    lemma_no_colon(key);
    lemma_no_colon(Seq::empty());
}

proof fn lemma_colon(key: Seq<char>, value: Seq<char>)
    requires
        !key.contains(':'),
    ensures
        position(key.push(':') + value, ':') == key.len(),
    decreases key.len(),
{
    let line = key.push(':') + value;
    if key.len() > 0 {
        let rest = key.drop_first();
        assert(key[0] != ':') by {
            if key[0] == ':' {
                assert(key.contains(':'));
            }
        }
        assert(!rest.contains(':')) by {
            if rest.contains(':') {
                let i = choose|i: int| 0 <= i < rest.len() && rest[i] == ':';
                assert(key[i + 1] == ':');
            }
        }
        lemma_colon(rest, value);
        assert(line.drop_first() =~= rest.push(':') + value);
    }
}

proof fn lemma_no_colon(key: Seq<char>)
    requires
        !key.contains(':'),
    ensures
        position(key, ':') == key.len(),
    decreases key.len(),
{
    if key.len() > 0 {
        let rest = key.drop_first();
        assert(key[0] != ':') by {
            if key[0] == ':' {
                assert(key.contains(':'));
            }
        }
        assert(!rest.contains(':')) by {
            if rest.contains(':') {
                let i = choose|i: int| 0 <= i < rest.len() && rest[i] == ':';
                assert(key[i + 1] == ':');
            }
        }
        lemma_no_colon(rest);
    }
}

/// A slot holds a key where its inspection succeeded, and none where it failed
/// and said so in one of four ways; every other failure is one.
pub proof fn law_inspections_tell_keys_from_failures(
    success: bool,
    printed: Seq<char>,
    errors: Seq<char>,
)
    ensures
        ({
            let text = printed.push('\n') + errors;
            let said = lower(text);
            let none = contains(said, "no key"@) || contains(said, "not found"@) || contains(
                said,
                "not present"@,
            ) || contains(said, "empty"@);
            let found = inspected_texts(success, printed, errors);
            &&& success ==> found == Ok::<Option<KeyInfoView>, ErrorView>(Some(key_info(text)))
            &&& !success && none ==> found == Ok::<Option<KeyInfoView>, ErrorView>(None)
            &&& !success && !none ==> found is Err && found->Err_0 is Certificate
        }),
{
    reveal_strlit("\n");
    assert(printed + "\n"@ + errors =~= printed.push('\n') + errors);
}

// ---------------------------------------------------------------------------
// What comes of a procedure in which all goes well
// ---------------------------------------------------------------------------

pub open spec fn succeeded(event: EventView) -> bool {
    event matches EventView::Output(Ok(output)) && output.success
}

proof fn lemma_csr_push(
    slot: Seq<char>,
    replace_existing: bool,
    events: Seq<EventView>,
    event: EventView,
)
    ensures
        ({
            let before = csr_run(slot, replace_existing, events);
            let step = csr_step(slot, replace_existing, before.stage, event);
            &&& csr_run(slot, replace_existing, events.push(event)).stage == step.0
            &&& csr_run(slot, replace_existing, events.push(event)).actions == before.actions.push(
                step.1,
            )
        }),
        csr_run(slot, replace_existing, Seq::empty()).stage == CsrStageView::Directory,
        csr_run(slot, replace_existing, Seq::empty()).actions == seq![
            ActionView::<SlotRequestView>::CreateDirectory,
        ],
{
    assert(events.push(event).drop_last() =~= events);
}

/// An empty slot gets a new key, and the request is what YubiKey Manager wrote
/// with it.
pub proof fn law_empty_slots_get_a_new_key(
    slot: Seq<char>,
    replace_existing: bool,
    info: OutputView,
    export: OutputView,
    generated: EventView,
    requested: EventView,
    csr: Seq<char>,
)
    requires
        inspection(info) == Ok::<Option<KeyInfoView>, ErrorView>(None),
        !export.success,
        succeeded(generated),
        succeeded(requested),
        contains(csr, "BEGIN CERTIFICATE REQUEST"@),
    ensures
        csr_run(
            slot,
            replace_existing,
            seq![
                EventView::Directory(true),
                EventView::Output(Ok(info)),
                EventView::Output(Ok(export)),
                generated,
                requested,
                EventView::Text(Some(csr)),
            ],
        ).actions == seq![
            ActionView::CreateDirectory,
            ActionView::Run(YkmanCommand::KeyInfo),
            ActionView::Run(YkmanCommand::ExportCertificate(DeviceFile::ExistingCertificate)),
            ActionView::Run(YkmanCommand::GenerateKey),
            ActionView::Run(YkmanCommand::RequestCertificate),
            ActionView::ReadFile(DeviceFile::Request),
            ActionView::Done(Ok(SlotRequestView { csr_pem: csr, generated_new_key: true })),
        ],
{
    let e0 = Seq::<EventView>::empty();
    let e1 = e0.push(EventView::Directory(true));
    let e2 = e1.push(EventView::Output(Ok(info)));
    let e3 = e2.push(EventView::Output(Ok(export)));
    let e4 = e3.push(generated);
    let e5 = e4.push(requested);
    let e6 = e5.push(EventView::Text(Some(csr)));
    assert(e6 =~= seq![
        EventView::Directory(true),
        EventView::Output(Ok(info)),
        EventView::Output(Ok(export)),
        generated,
        requested,
        EventView::Text(Some(csr)),
    ]);
    lemma_csr_push(slot, replace_existing, e0, EventView::Directory(true));
    lemma_csr_push(slot, replace_existing, e1, EventView::Output(Ok(info)));
    lemma_csr_push(slot, replace_existing, e2, EventView::Output(Ok(export)));
    lemma_csr_push(slot, replace_existing, e3, generated);
    lemma_csr_push(slot, replace_existing, e4, requested);
    lemma_csr_push(slot, replace_existing, e5, EventView::Text(Some(csr)));
    assert(csr_run(slot, replace_existing, e6).actions =~= seq![
        ActionView::CreateDirectory,
        ActionView::Run(YkmanCommand::KeyInfo),
        ActionView::Run(YkmanCommand::ExportCertificate(DeviceFile::ExistingCertificate)),
        ActionView::Run(YkmanCommand::GenerateKey),
        ActionView::Run(YkmanCommand::RequestCertificate),
        ActionView::ReadFile(DeviceFile::Request),
        ActionView::Done(Ok(SlotRequestView { csr_pem: csr, generated_new_key: true })),
    ]);
}

/// With leave to replace what is there, a slot keeps its key: the key is
/// exported, and the request is made with it.
pub proof fn law_occupied_slots_keep_their_key(
    slot: Seq<char>,
    info: OutputView,
    export: OutputView,
    present: bool,
    exported: EventView,
    requested: EventView,
    csr: Seq<char>,
)
    requires
        inspection(info) matches Ok(Some(_)),
        export.success,
        succeeded(exported),
        succeeded(requested),
        contains(csr, "BEGIN CERTIFICATE REQUEST"@),
    ensures
        csr_run(
            slot,
            true,
            seq![
                EventView::Directory(true),
                EventView::Output(Ok(info)),
                EventView::Output(Ok(export)),
                EventView::Present(present),
                exported,
                requested,
                EventView::Text(Some(csr)),
            ],
        ).actions == seq![
            ActionView::CreateDirectory,
            ActionView::Run(YkmanCommand::KeyInfo),
            ActionView::Run(YkmanCommand::ExportCertificate(DeviceFile::ExistingCertificate)),
            ActionView::CheckFile(DeviceFile::ExistingCertificate),
            ActionView::Run(YkmanCommand::ExportKey),
            ActionView::Run(YkmanCommand::RequestCertificate),
            ActionView::ReadFile(DeviceFile::Request),
            ActionView::Done(Ok(SlotRequestView { csr_pem: csr, generated_new_key: false })),
        ],
{
    let e0 = Seq::<EventView>::empty();
    let e1 = e0.push(EventView::Directory(true));
    let e2 = e1.push(EventView::Output(Ok(info)));
    let e3 = e2.push(EventView::Output(Ok(export)));
    let e4 = e3.push(EventView::Present(present));
    let e5 = e4.push(exported);
    let e6 = e5.push(requested);
    let e7 = e6.push(EventView::Text(Some(csr)));
    assert(e7 =~= seq![
        EventView::Directory(true),
        EventView::Output(Ok(info)),
        EventView::Output(Ok(export)),
        EventView::Present(present),
        exported,
        requested,
        EventView::Text(Some(csr)),
    ]);
    lemma_csr_push(slot, true, e0, EventView::Directory(true));
    lemma_csr_push(slot, true, e1, EventView::Output(Ok(info)));
    lemma_csr_push(slot, true, e2, EventView::Output(Ok(export)));
    lemma_csr_push(slot, true, e3, EventView::Present(present));
    lemma_csr_push(slot, true, e4, exported);
    lemma_csr_push(slot, true, e5, requested);
    lemma_csr_push(slot, true, e6, EventView::Text(Some(csr)));
    assert(csr_run(slot, true, e7).actions =~= seq![
        ActionView::CreateDirectory,
        ActionView::Run(YkmanCommand::KeyInfo),
        ActionView::Run(YkmanCommand::ExportCertificate(DeviceFile::ExistingCertificate)),
        ActionView::CheckFile(DeviceFile::ExistingCertificate),
        ActionView::Run(YkmanCommand::ExportKey),
        ActionView::Run(YkmanCommand::RequestCertificate),
        ActionView::ReadFile(DeviceFile::Request),
        ActionView::Done(Ok(SlotRequestView { csr_pem: csr, generated_new_key: false })),
    ]);
}

/// A request ends well only with the text that YubiKey Manager wrote for it,
/// and only where that text is a certificate request.
pub proof fn law_requests_are_what_was_written(
    slot: Seq<char>,
    replace_existing: bool,
    stage: CsrStageView,
    event: EventView,
    request: SlotRequestView,
)
    requires
        csr_step(slot, replace_existing, stage, event).1 == ActionView::Done(
            Ok::<SlotRequestView, ErrorView>(request),
        ),
    ensures
        event == EventView::Text(Some(request.csr_pem)),
        contains(request.csr_pem, "BEGIN CERTIFICATE REQUEST"@),
        stage == (CsrStageView::RequestFile { new_key: request.generated_new_key }),
{
}

/// A step that YubiKey Manager reports as failed ends the request, with the key
/// deleted first where it was made for it.
pub proof fn law_failed_steps_end_the_request(
    slot: Seq<char>,
    replace_existing: bool,
    stage: CsrStageView,
    output: OutputView,
)
    requires
        !output.success,
        stage is KeyExport || stage is KeyGeneration || stage is Request,
    ensures
        ({
            let next = csr_step(
                slot,
                replace_existing,
                stage,
                EventView::Output(Ok::<OutputView, ErrorView>(output)),
            );
            if stage == (CsrStageView::Request { new_key: true }) {
                next.1 == ActionView::<SlotRequestView>::Run(YkmanCommand::DeleteKey)
                    && next.0 is Cleanup
            } else {
                next.1 matches ActionView::Done(Err(ErrorView::Certificate(_)))
            }
        }),
{
}

/// A certificate that was accepted is staged, imported into the slot, and then
/// handed back as it is shown.
pub proof fn law_accepted_certificates_are_imported(
    issued: IssuedView,
    between: Seq<Seq<char>>,
    certificate_pem: Seq<char>,
    delete_key: bool,
    imported: EventView,
)
    requires
        succeeded(imported),
    ensures
        import_run(
            Ok((issued, between)),
            certificate_pem,
            delete_key,
            seq![EventView::Written(true), imported],
        ).actions == seq![
            ActionView::WriteCertificate(certificate_pem),
            ActionView::Run(YkmanCommand::ImportCertificate),
            ActionView::Done(Ok(issued)),
        ],
{
    let e1 = seq![EventView::Written(true)];
    let e2 = e1.push(imported);
    assert(e2 =~= seq![EventView::Written(true), imported]);
    assert(e1.drop_last() =~= Seq::empty());
    assert(e2.drop_last() =~= e1);
    let validation = Ok::<(IssuedView, Seq<Seq<char>>), ErrorView>((issued, between));
    let t0 = import_run(validation, certificate_pem, delete_key, Seq::empty());
    assert(t0.stage == ImportStageView::Staging(issued));
    let t1 = import_run(validation, certificate_pem, delete_key, e1);
    assert(t1.stage == ImportStageView::Import(issued));
    let t2 = import_run(validation, certificate_pem, delete_key, e2);
    assert(t2.actions =~= seq![
        ActionView::WriteCertificate(certificate_pem),
        ActionView::Run(YkmanCommand::ImportCertificate),
        ActionView::Done(Ok(issued)),
    ]);
}

/// What an inventory records of a slot is what was found there: its own name
/// and label, whether it holds a key and what is known of it, and the
/// certificate that was exported, which counts as having a key exactly where
/// the slot has one.
pub proof fn law_inventories_record_what_they_find(v: InventoryView, text: Seq<char>)
    requires
        v.stage == InventoryStage::CertificateText,
        v.index < 3,
    ensures
        ({
            let next = inventory_step(v, EventView::Text(Some(text))).0;
            let shown = personal_outcome(text, v.info is Some);
            &&& shown is Err ==> next.stage == InventoryStage::Finished
            &&& shown is Ok ==> {
                let entry = next.found.last();
                &&& next.found.drop_last() == v.found
                &&& next.index == v.index + 1
                &&& next.info is None
                &&& next.stage == InventoryStage::KeyInfo
                &&& entry.slot == slot_name(v.index)
                &&& entry.label == slot_label(v.index)
                &&& entry.certificate == Some(shown->Ok_0)
                &&& entry.certificate->Some_0.has_private_key == v.info is Some
                &&& entry.has_private_key == v.info is Some
                &&& v.info matches Some(info) ==> entry.key_algorithm == info.algorithm
                    && entry.pin_policy == info.pin_policy && entry.touch_policy
                    == info.touch_policy
                &&& v.info is None ==> entry.key_algorithm is None && entry.pin_policy is None
                    && entry.touch_policy is None
            }
        }),
{
    let next = inventory_step(v, EventView::Text(Some(text))).0;
    if personal_outcome(text, v.info is Some) is Ok {
        assert(next.found.drop_last() =~= v.found);
    }
}

/// A slot without a certificate is recorded without one, with all that is known
/// of its key.
pub proof fn law_slots_without_certificate_are_recorded(v: InventoryView, event: EventView)
    requires
        v.index < 3,
        (v.stage == InventoryStage::CertificateExport && event is Output && event->Output_0 is Ok
            && !event->Output_0->Ok_0.success) || (v.stage == InventoryStage::CertificateFile
            && event == EventView::Present(false)),
    ensures
        ({
            let next = inventory_step(v, event).0;
            let entry = next.found.last();
            &&& next.found.drop_last() == v.found
            &&& next.index == v.index + 1
            &&& entry.slot == slot_name(v.index)
            &&& entry.label == slot_label(v.index)
            &&& entry.certificate is None
            &&& entry.has_private_key == v.info is Some
            &&& v.info matches Some(info) ==> entry.key_algorithm == info.algorithm
                && entry.pin_policy == info.pin_policy && entry.touch_policy == info.touch_policy
        }),
{
    assert(inventory_step(v, event).0.found.drop_last() =~= v.found);
}

/// What is known of a slot's key is what its own inspection found.
pub proof fn law_inventories_know_the_key_by_its_inspection(v: InventoryView, output: OutputView)
    requires
        v.stage == InventoryStage::KeyInfo,
    ensures
        ({
            let next = inventory_step(v, EventView::Output(Ok::<OutputView, ErrorView>(output)));
            &&& inspection(output) matches Ok(info) ==> next.0.info == info && next.0.index
                == v.index && next.0.found == v.found && next.0.stage
                == InventoryStage::CertificateExport
            &&& inspection(output) matches Err(e) ==> next.1 == ActionView::Done(
                Err::<Seq<SlotView>, ErrorView>(e),
            )
        }),
{
}

/// The four slots have the names and the labels that YubiKeys give them.
pub proof fn law_slots_are_named_as_on_the_key()
    ensures
        slot_name(0) == "9a"@ && slot_label(0) == "Authentication"@,
        slot_name(1) == "9c"@ && slot_label(1) == "Digital signature"@,
        slot_name(2) == "9d"@ && slot_label(2) == "Key management"@,
        slot_name(3) == "9e"@ && slot_label(3) == "Card authentication"@,
{
}

/// The request ends in the error, once a key that was made for it is deleted.
pub open spec fn csr_ends_in(
    slot: Seq<char>,
    replace_existing: bool,
    stage: CsrStageView,
    event: EventView,
    error: ErrorView,
) -> bool {
    let (next, action) = csr_step(slot, replace_existing, stage, event);
    let made = stage == (CsrStageView::Request { new_key: true }) || stage == (
    CsrStageView::RequestFile { new_key: true });
    if made {
        &&& action == ActionView::<SlotRequestView>::Run(YkmanCommand::DeleteKey)
        &&& forall|later: EventView|
            (#[trigger] csr_step(slot, replace_existing, next, later)).1 == ActionView::<
                SlotRequestView,
            >::Done(Err(error))
    } else {
        action == ActionView::<SlotRequestView>::Done(Err(error))
    }
}

/// Each fault on the way to a request has its own message.
pub proof fn law_failed_requests_say_why(
    slot: Seq<char>,
    replace_existing: bool,
    output: OutputView,
    text: Seq<char>,
    new_key: bool,
    error: ErrorView,
)
    requires
        !output.success,
        !contains(text, "BEGIN CERTIFICATE REQUEST"@),
    ensures
        csr_ends_in(
            slot,
            replace_existing,
            CsrStageView::Directory,
            EventView::Directory(false),
            ErrorView::Certificate("could not create a protected temporary directory"@),
        ),
        csr_ends_in(
            slot,
            replace_existing,
            CsrStageView::KeyExport,
            EventView::Output(Ok(output)),
            ErrorView::Certificate(
                command_message(
                    "YubiKey Manager could not export the existing PIV public key"@,
                    output,
                ),
            ),
        ),
        csr_ends_in(
            slot,
            replace_existing,
            CsrStageView::KeyGeneration,
            EventView::Output(Ok(output)),
            ErrorView::Certificate(
                command_message("YubiKey Manager could not generate a PIV key"@, output),
            ),
        ),
        csr_ends_in(
            slot,
            replace_existing,
            CsrStageView::Request { new_key },
            EventView::Output(Ok(output)),
            ErrorView::Certificate(
                command_message("YubiKey Manager could not generate a CSR"@, output),
            ),
        ),
        csr_ends_in(
            slot,
            replace_existing,
            CsrStageView::Request { new_key },
            EventView::Output(Err(error)),
            error,
        ),
        csr_ends_in(
            slot,
            replace_existing,
            CsrStageView::RequestFile { new_key },
            EventView::Text(Some(text)),
            ErrorView::Certificate("YubiKey Manager produced an unexpected CSR format"@),
        ),
        csr_ends_in(
            slot,
            replace_existing,
            CsrStageView::RequestFile { new_key },
            EventView::Text(None),
            ErrorView::Certificate("YubiKey Manager did not produce a certificate request"@),
        ),
{
}

/// A slot that is not to be cleared is reported with what it holds, a key
/// before a certificate.
pub proof fn law_occupied_slots_are_reported(slot: Seq<char>, has_certificate: bool)
    ensures
        csr_inspected(slot, false, true, has_certificate).1 == ActionView::<SlotRequestView>::Done(
            Err(
                ErrorView::Certificate(
                    "YubiKey PIV slot "@ + slot + " already contains a "@ + "private key"@
                        + "; choose another slot or clear it with YubiKey Manager before requesting a new certificate"@,
                ),
            ),
        ),
        csr_inspected(slot, false, false, true).1 == ActionView::<SlotRequestView>::Done(
            Err(
                ErrorView::Certificate(
                    "YubiKey PIV slot "@ + slot + " already contains a "@ + "certificate"@
                        + "; choose another slot or clear it with YubiKey Manager before requesting a new certificate"@,
                ),
            ),
        ),
{
}

/// A request for a key is checked after the name: both must be fit, and the
/// first that is not says so.
pub proof fn law_refused_key_requests_say_why(common_name: Seq<char>, request: KeyRequestView)
    ensures
        ({
            let outcome = slot_request_outcome(common_name, request);
            let slot = request.slot == "9a"@ || request.slot == "9c"@ || request.slot == "9d"@
                || request.slot == "9e"@;
            let algorithm = is_algorithm(request.algorithm);
            let pin_policy = is_pin_policy(request.pin_policy);
            let touch_policy = is_touch_policy(request.touch_policy);
            let named = crate::certificates::is_identity(common_name);
            &&& outcome is Ok <==> named && key_request_outcome(request) is Ok
            &&& !named ==> outcome == identity_outcome(common_name)
            &&& named && !slot ==> outcome == Err::<(), ErrorView>(
                ErrorView::Certificate("unsupported YubiKey PIV slot; choose 9a, 9c, 9d, or 9e"@),
            )
            &&& named && slot && !algorithm ==> outcome == Err::<(), ErrorView>(
                ErrorView::Certificate("unsupported YubiKey key algorithm"@),
            )
            &&& named && slot && algorithm && !pin_policy ==> outcome == Err::<(), ErrorView>(
                ErrorView::Certificate("unsupported YubiKey PIN policy"@),
            )
            &&& named && slot && algorithm && pin_policy && !touch_policy ==> outcome == Err::<
                (),
                ErrorView,
            >(ErrorView::Certificate("unsupported YubiKey touch policy"@))
            &&& named && slot && algorithm && pin_policy && touch_policy && outcome is Err
                ==> outcome == Err::<(), ErrorView>(
                ErrorView::Certificate("YubiKey PIV PIN is required for this operation"@),
            )
        }),
{
}

/// Each fault of an import has its own message, and a key that was made for the
/// certificate is deleted first.
pub proof fn law_failed_imports_say_why(
    issued: IssuedView,
    output: OutputView,
    error: ErrorView,
    later: EventView,
)
    requires
        !output.success,
    ensures
        ({
            let staged = ErrorView::Certificate("could not stage the signed YubiKey certificate"@);
            let refused = ErrorView::Certificate(
                command_message("YubiKey Manager could not import the signed certificate"@, output),
            );
            let staging = ImportStageView::Staging(issued);
            let import = ImportStageView::Import(issued);
            let written = EventView::Written(false);
            let ended = EventView::Output(Ok::<OutputView, ErrorView>(output));
            &&& import_step(false, staging, written).1 == ActionView::<IssuedView>::Done(
                Err(staged),
            )
            &&& import_step(true, staging, written).1 == ActionView::<IssuedView>::Run(
                YkmanCommand::DeleteKey,
            )
            &&& import_step(true, import_step(true, staging, written).0, later).1 == ActionView::<
                IssuedView,
            >::Done(Err(staged))
            &&& import_step(false, import, ended).1 == ActionView::<IssuedView>::Done(Err(refused))
            &&& import_step(true, import, ended).1 == ActionView::<IssuedView>::Run(
                YkmanCommand::DeleteKey,
            )
            &&& import_step(true, import_step(true, import, ended).0, later).1 == ActionView::<
                IssuedView,
            >::Done(Err(refused))
            &&& import_step(true, import, EventView::Output(Err(error))).1 == ActionView::<
                IssuedView,
            >::Done(Err(error))
        }),
{
}

/// A removal is done where the command succeeded, and nowhere else; a slot that
/// could not be inspected and a certificate that could not be read say so.
pub proof fn law_failed_device_steps_say_why(
    output: OutputView,
    error: ErrorView,
    printed: Seq<char>,
    errors: Seq<char>,
    v: InventoryView,
)
    ensures
        removal_outcome(Ok(output)) is Ok <==> output.success,
        !output.success ==> removal_outcome(Ok(output))->Err_0 == ErrorView::Certificate(
            command_message("YubiKey Manager could not remove the certificate"@, output),
        ),
        removal_outcome(Err(error)) == Err::<(), ErrorView>(error),
        inspected_texts(false, printed, errors) is Err ==> inspected_texts(
            false,
            printed,
            errors,
        )->Err_0 == ErrorView::Certificate(
            failure_text("YubiKey Manager could not inspect the PIV slot"@, errors, printed),
        ),
        v.stage is CertificateText ==> inventory_step(v, EventView::Text(None)).1
            == ActionView::<Seq<SlotView>>::Done(
            Err(ErrorView::Certificate("YubiKey certificate could not be read"@)),
        ),
        v.stage is Directory ==> inventory_step(v, EventView::Directory(false)).1
            == ActionView::<Seq<SlotView>>::Done(
            Err(ErrorView::Certificate("could not create a protected temporary directory"@)),
        ),
        v.stage is KeyInfo || v.stage is CertificateExport ==> inventory_step(
            v,
            EventView::Output(Err(error)),
        ).1 == ActionView::<Seq<SlotView>>::Done(Err(error)),
{
}

/// The files of a procedure have names of their own, the one of a slot's
/// certificate after the slot.
pub proof fn law_device_files_have_their_names(slot: Seq<char>)
    ensures
        file_name(DeviceFile::PublicKey, slot) == "yubikey-public.pem"@,
        file_name(DeviceFile::Request, slot) == "yubikey-request.pem"@,
        file_name(DeviceFile::Certificate, slot) == "yubikey-certificate.pem"@,
        file_name(DeviceFile::ExistingCertificate, slot) == "existing-yubikey-certificate.pem"@,
        file_name(DeviceFile::SlotCertificate, slot) == "yubikey-slot-"@ + slot + ".pem"@,
{
}

/// A request begins in the slot that was asked for, with a directory, and
/// clears the slot where that was asked for.
pub open spec fn begins_request(
    slot: Seq<char>,
    clears: bool,
    stage: CsrStageView,
    request: KeyRequestView,
    replace_existing: bool,
) -> bool {
    &&& slot == request.slot
    &&& clears == replace_existing
    &&& stage == CsrStageView::Directory
}

/// What a request that has begun does is about the slot that was asked for: it
/// first looks into the slot, and reports that slot where it is occupied.
pub proof fn law_requests_are_about_the_slot_asked_for(
    slot: Seq<char>,
    clears: bool,
    stage: CsrStageView,
    request: KeyRequestView,
    replace_existing: bool,
)
    requires
        begins_request(slot, clears, stage, request, replace_existing),
    ensures
        slot == request.slot,
        clears == replace_existing,
        csr_step(slot, clears, stage, EventView::Directory(true)).1 == ActionView::<
            SlotRequestView,
        >::Run(YkmanCommand::KeyInfo),
{
}

} // verus!
