//! The programs that the client runs: which ones, how long, and what is made
//! of their output.

use vstd::prelude::*;

use crate::encoding::{lossy_text, utf8_lossy};
use crate::error::{certificate_error, view_outcome, AppError, AppResult, ErrorView};
use crate::redaction::{is_terminator, markers, mask, redact, redacted};
use crate::text::{
    chars_of, concat3, contains, join, joined, law_joining_separates, lower, lowercase, occurs_at,
    slice_text, starts_with, text_eq, trim, trimmed, view_all, view_option,
};

verus! {

// ---------------------------------------------------------------------------
// Output
// ---------------------------------------------------------------------------

/// What a program left behind when it ended.
#[derive(Debug)]
pub struct CommandOutput {
    pub success: bool,
    pub code: Option<i32>,
    pub stdout: Vec<u8>,
    pub stderr: Vec<u8>,
}

#[verifier::ext_equal]
pub struct OutputView {
    pub success: bool,
    pub code: Option<i32>,
    pub stdout: Seq<u8>,
    pub stderr: Seq<u8>,
}

impl View for CommandOutput {
    type V = OutputView;

    open spec fn view(&self) -> OutputView {
        OutputView {
            success: self.success,
            code: self.code,
            stdout: self.stdout@,
            stderr: self.stderr@,
        }
    }
}

/// The first `n` characters of a text, or all of it.
pub open spec fn cut(s: Seq<char>, n: int) -> Seq<char> {
    if s.len() <= n {
        s
    } else {
        s.take(n)
    }
}

/// What a program printed as a user may see it: errors first, secrets masked,
/// at most 240 characters.
pub open spec fn shown_texts(errors: Seq<char>, printed: Seq<char>) -> Seq<char> {
    cut(redacted(trim(errors + "\n"@ + printed)), 240)
}

/// The message about a program that failed and printed the texts.
pub open spec fn failure_text(prefix: Seq<char>, errors: Seq<char>, printed: Seq<char>) -> Seq<
    char,
> {
    if shown_texts(errors, printed).len() == 0 {
        prefix
    } else {
        prefix + ": "@ + shown_texts(errors, printed)
    }
}

/// What a program printed as a user may see it.
pub open spec fn shown_output(output: OutputView) -> Seq<char> {
    shown_texts(lossy_text(output.stderr), lossy_text(output.stdout))
}

/// The message about a program that failed.
pub open spec fn command_message(prefix: Seq<char>, output: OutputView) -> Seq<char> {
    failure_text(prefix, lossy_text(output.stderr), lossy_text(output.stdout))
}

/// The message about a program that failed and printed the texts.
pub fn failure_message(prefix: &str, errors: &str, printed: &str) -> (r: String)
    ensures
        r@ == failure_text(prefix@, errors@, printed@),
{
    let detail: String = concat3(errors, "\n", printed);
    let safe: String = redact(trimmed(detail.as_str()).as_str());
    let chars: Vec<char> = chars_of(safe.as_str());
    if chars.len() == 0 {
        return prefix.to_owned();
    }
    let end: usize = if chars.len() <= 240 {
        chars.len()
    } else {
        240
    };
    let shown: String = slice_text(&chars, 0, end);
    assert(shown@ =~= shown_texts(errors@, printed@));
    concat3(prefix, ": ", shown.as_str())
}

/// The message about a program that failed.
pub fn command_error(prefix: &str, output: &CommandOutput) -> (r: String)
    ensures
        r@ == command_message(prefix@, output@),
{
    let errors: String = utf8_lossy(output.stderr.as_slice());
    let printed: String = utf8_lossy(output.stdout.as_slice());
    failure_message(prefix, errors.as_str(), printed.as_str())
}

/// In what a user sees of a program's output, the mask follows every marker as
/// far as the text goes, and nothing of the secret follows the mask.
pub proof fn law_shown_output_hides_secrets(output: OutputView, k: int, p: int)
    requires
        0 <= k < markers().len(),
        occurs_at(lower(shown_output(output)), markers()[k], p),
    ensures
        ({
            let shown = shown_output(output);
            let start = p + markers()[k].len();
            &&& forall|j: int|
                0 <= j < mask().len() && start + j < shown.len() ==> #[trigger] mask()[j]
                    == shown[start + j]
            &&& start + mask().len() < shown.len() ==> is_terminator(
                shown[start + mask().len()],
            )
        }),
{
    let shown = shown_output(output);
    let whole = redacted(
        trim(lossy_text(output.stderr) + "\n"@ + lossy_text(output.stdout)),
    );
    let m = markers()[k];
    let start: int = p + m.len();
    assert(lower(whole).subrange(p, start) =~= lower(shown).subrange(p, start));
    assert(occurs_at(lower(whole), m, p));
    crate::redaction::law_no_secret_survives(
        trim(lossy_text(output.stderr) + "\n"@ + lossy_text(output.stdout)),
        k,
        p,
    );
    assert(whole.subrange(start, start + mask().len()) == mask());
    assert forall|j: int| 0 <= j < mask().len() && start + j < shown.len() implies
        #[trigger] mask()[j] == shown[start + j] by {
        assert(whole.subrange(start, start + mask().len())[j] == whole[start + j]);
    }
}

/// A user never sees more than 240 characters of a program's output.
pub proof fn law_shown_output_is_short(output: OutputView)
    ensures
        shown_output(output).len() <= 240,
{
}

// ---------------------------------------------------------------------------
// Events
// ---------------------------------------------------------------------------

/// What came of the last action.
pub enum Event {
    Directory(bool),
    Output(AppResult<CommandOutput>),
    Present(bool),
    Text(Option<String>),
    Written(bool),
}

#[verifier::ext_equal]
pub enum EventView {
    Directory(bool),
    Output(Result<OutputView, ErrorView>),
    Present(bool),
    Text(Option<Seq<char>>),
    Written(bool),
}

impl View for Event {
    type V = EventView;

    open spec fn view(&self) -> EventView {
        match self {
            Event::Directory(made) => EventView::Directory(*made),
            Event::Output(output) => EventView::Output(view_outcome(*output)),
            Event::Present(present) => EventView::Present(*present),
            Event::Text(text) => EventView::Text(view_option(*text)),
            Event::Written(written) => EventView::Written(*written),
        }
    }
}

// ---------------------------------------------------------------------------
// Arguments
// ---------------------------------------------------------------------------

/// An argument of a command: a text, a secret, or a file of the directory that
/// the procedure works in.
pub enum Argument {
    Text(String),
    Secret(String),
    File(String),
}

#[verifier::ext_equal]
pub enum ArgumentView {
    Text(Seq<char>),
    Secret(Seq<char>),
    File(Seq<char>),
}

impl View for Argument {
    type V = ArgumentView;

    open spec fn view(&self) -> ArgumentView {
        match self {
            Argument::Text(text) => ArgumentView::Text(text@),
            Argument::Secret(text) => ArgumentView::Secret(text@),
            Argument::File(name) => ArgumentView::File(name@),
        }
    }
}

pub open spec fn view_arguments(args: Seq<Argument>) -> Seq<ArgumentView> {
    Seq::new(args.len(), |i: int| args[i]@)
}

pub open spec fn arg(text: Seq<char>) -> ArgumentView {
    ArgumentView::Text(text)
}

pub open spec fn secret_arg(text: Seq<char>) -> ArgumentView {
    ArgumentView::Secret(text)
}

/// The arguments as texts, with each file's name replaced by its path.
pub open spec fn resolved(args: Seq<ArgumentView>, path: spec_fn(Seq<char>) -> Seq<char>) -> Seq<
    Seq<char>,
> {
    Seq::new(
        args.len(),
        |i: int|
            match args[i] {
                ArgumentView::Text(text) => text,
                ArgumentView::Secret(text) => text,
                ArgumentView::File(name) => path(name),
            },
    )
}

pub(crate) fn push_texts(args: &mut Vec<Argument>, texts: &[&str])
    ensures
        view_arguments(final(args)@) == view_arguments(old(args)@) + Seq::new(
            texts@.len(),
            |i: int| arg(texts@[i]@),
        ),
{
    let ghost before = view_arguments(args@);
    let ghost added = Seq::new(texts@.len(), |i: int| arg(texts@[i]@));
    let mut i: usize = 0;
    assert(view_arguments(args@) =~= before + added.take(0));
    while i < texts.len()
        invariant
            0 <= i <= texts@.len(),
            added == Seq::new(texts@.len(), |k: int| arg(texts@[k]@)),
            view_arguments(args@) == before + added.take(i as int),
        decreases texts@.len() - i,
    {
        let ghost so_far = view_arguments(args@);
        args.push(Argument::Text(texts[i].to_owned()));
        i += 1;
        assert(view_arguments(args@) =~= so_far.push(added[i - 1]));
        assert(view_arguments(args@) =~= before + added.take(i as int));
    }
    assert(added.take(i as int) =~= added);
}

pub(crate) fn push_secret(args: &mut Vec<Argument>, text: &str)
    ensures
        view_arguments(final(args)@) == view_arguments(old(args)@).push(secret_arg(text@)),
{
    let ghost before = view_arguments(args@);
    args.push(Argument::Secret(text.to_owned()));
    assert(view_arguments(args@) =~= before.push(secret_arg(text@)));
}

/// An option whose value is a secret.
pub open spec fn is_secret_option(arg: Seq<char>) -> bool {
    arg == "--pin"@ || arg == "-P"@ || arg == "--management-key"@ || arg == "-m"@ || arg
        == "--password"@ || arg == "-p"@
}

/// The argument is the value of a secret option.
pub open spec fn is_secret_value(args: Seq<Seq<char>>, i: int) -> bool
    decreases i,
{
    0 < i && is_secret_option(args[i - 1]) && !is_secret_value(args, i - 1)
}

/// The arguments as they may be shown.
pub open spec fn shown_args(args: Seq<Seq<char>>) -> Seq<Seq<char>> {
    Seq::new(
        args.len(),
        |i: int|
            if is_secret_value(args, i) {
                "<redacted>"@
            } else {
                args[i]
            },
    )
}

fn secret_option(arg: &str) -> (r: bool)
    ensures
        r == is_secret_option(arg@),
{
    text_eq(arg, "--pin") || text_eq(arg, "-P") || text_eq(arg, "--management-key") || text_eq(
        arg,
        "-m",
    ) || text_eq(arg, "--password") || text_eq(arg, "-p")
}

/// The arguments as they may be shown, in one line.
pub open spec fn shown_command(args: Seq<Seq<char>>) -> Seq<char> {
    join(shown_args(args), " "@)
}

/// The arguments as they may be shown, in one line.
pub fn redact_ykman_args(args: &[String]) -> (r: String)
    ensures
        r@ == join(shown_args(view_all(args@)), " "@),
        r@ == shown_command(view_all(args@)),
{
    let ghost all = view_all(args@);
    let mut shown: Vec<String> = Vec::new();
    let mut hidden: bool = false;
    let mut i: usize = 0;
    assert(view_all(shown@) =~= shown_args(all).take(0));
    while i < args.len()
        invariant
            0 <= i <= args@.len(),
            all == view_all(args@),
            i < args@.len() ==> hidden == is_secret_value(all, i as int),
            view_all(shown@) == shown_args(all).take(i as int),
        decreases args@.len() - i,
    {
        let ghost before = view_all(shown@);
        if hidden {
            shown.push("<redacted>".to_owned());
            hidden = false;
            assert(view_all(shown@) =~= before.push("<redacted>"@));
        } else {
            hidden = secret_option(args[i].as_str());
            shown.push(args[i].clone());
            assert(view_all(shown@) =~= before.push(all[i as int]));
        }
        i += 1;
        assert(view_all(shown@) =~= shown_args(all).take(i as int));
    }
    assert(shown_args(all).take(i as int) =~= shown_args(all));
    joined(&shown, " ")
}

/// The value of a secret option is never shown.
pub proof fn law_secret_values_are_hidden(args: Seq<Seq<char>>, i: int)
    requires
        0 <= i,
        i + 1 < args.len(),
        is_secret_option(args[i]),
        !is_secret_value(args, i),
    ensures
        shown_args(args)[i + 1] == "<redacted>"@,
{
}

// ---------------------------------------------------------------------------
// Windows components
// ---------------------------------------------------------------------------

pub open spec fn windows_only() -> ErrorView {
    ErrorView::Certificate("this operation is only supported on Windows"@)
}

/// What a Windows component is reported as on another system.
pub fn windows_only_error() -> (r: AppError)
    ensures
        r@ == windows_only(),
{
    certificate_error("this operation is only supported on Windows")
}

/// The path of a component below the system's root, if it is one that the
/// client may start.
pub open spec fn component_path(program: Seq<char>) -> Option<Seq<Seq<char>>> {
    let name = lower(program);
    if name == "powershell.exe"@ {
        Some(seq!["System32"@, "WindowsPowerShell"@, "v1.0"@, "powershell.exe"@])
    } else if name == "certreq.exe"@ || name == "certutil.exe"@ {
        Some(seq!["System32"@, program])
    } else {
        None
    }
}

pub open spec fn component_outcome(system_root_known: bool, program: Seq<char>) -> Result<
    Seq<Seq<char>>,
    ErrorView,
> {
    if !system_root_known {
        Err(ErrorView::Certificate("Windows SystemRoot is unavailable"@))
    } else {
        match component_path(program) {
            Some(path) => Ok(path),
            None => Err(
                ErrorView::Certificate("refusing to start an unapproved Windows component"@),
            ),
        }
    }
}

pub open spec fn view_path(r: AppResult<Vec<String>>) -> Result<Seq<Seq<char>>, ErrorView> {
    match r {
        Ok(path) => Ok(view_all(path@)),
        Err(e) => Err(e@),
    }
}

/// The path of a component below the system's root.
pub fn windows_component(system_root_known: bool, program: &str) -> (r: AppResult<Vec<String>>)
    ensures
        view_path(r) == component_outcome(system_root_known, program@),
{
    if !system_root_known {
        return Err(certificate_error("Windows SystemRoot is unavailable"));
    }
    let name: String = lowercase(program);
    let mut path: Vec<String> = Vec::new();
    path.push("System32".to_owned());
    if text_eq(name.as_str(), "powershell.exe") {
        path.push("WindowsPowerShell".to_owned());
        path.push("v1.0".to_owned());
        path.push("powershell.exe".to_owned());
        assert(view_all(path@) =~= component_path(program@)->Some_0);
        return Ok(path);
    }
    if text_eq(name.as_str(), "certreq.exe") || text_eq(name.as_str(), "certutil.exe") {
        path.push(program.to_owned());
        assert(view_all(path@) =~= component_path(program@)->Some_0);
        return Ok(path);
    }
    Err(certificate_error("refusing to start an unapproved Windows component"))
}

/// What a component that does not start is reported as.
pub open spec fn start_view(program: Seq<char>) -> ErrorView {
    ErrorView::Certificate("required Windows component "@ + program + " could not be started"@)
}

/// What a component that does not start is reported as.
pub fn component_start_error(program: &str) -> (r: AppError)
    ensures
        r@ == start_view(program@),
        r@ == ErrorView::Certificate(
            "required Windows component "@ + program@ + " could not be started"@,
        ),
{
    AppError::Certificate(
        concat3("required Windows component ", program, " could not be started"),
    )
}

// ---------------------------------------------------------------------------
// YubiKey Manager
// ---------------------------------------------------------------------------

/// What can go wrong with YubiKey Manager before there is any output.
#[derive(Clone, Copy, Debug, PartialEq, Eq, Structural)]
pub enum YkmanFault {
    NotWindows,
    NoWorkDirectory,
    NotStarted,
    Failed,
    OutputUnreadable,
}

impl YkmanFault {
    pub open spec fn error_view(self) -> ErrorView {
        ErrorView::Certificate(
            match self {
                YkmanFault::NotWindows => "YubiKey issuance is only supported on Windows in this build"@,
                YkmanFault::NoWorkDirectory => "could not create a private YubiKey Manager work directory"@,
                YkmanFault::NotStarted => "YubiKey Manager CLI (ykman) could not be started; install ykman and try again"@,
                YkmanFault::Failed => "YubiKey Manager failed unexpectedly"@,
                YkmanFault::OutputUnreadable => "YubiKey Manager output could not be read"@,
            },
        )
    }

    pub fn error(self) -> (r: AppError)
        ensures
            r@ == self.error_view(),
    {
        match self {
            YkmanFault::NotWindows => certificate_error(
                "YubiKey issuance is only supported on Windows in this build",
            ),
            YkmanFault::NoWorkDirectory => certificate_error(
                "could not create a private YubiKey Manager work directory",
            ),
            YkmanFault::NotStarted => certificate_error(
                "YubiKey Manager CLI (ykman) could not be started; install ykman and try again",
            ),
            YkmanFault::Failed => certificate_error("YubiKey Manager failed unexpectedly"),
            YkmanFault::OutputUnreadable => certificate_error(
                "YubiKey Manager output could not be read",
            ),
        }
    }
}

/// What to do with YubiKey Manager while it runs.
#[derive(Clone, Copy, Debug, PartialEq, Eq, Structural)]
pub enum WaitStep {
    Collect,
    GiveUp,
    Sleep(u64),
}

/// The nanoseconds after which YubiKey Manager is given up on.
pub const YKMAN_LIMIT_NANOSECONDS: u64 = 45_000_000_000;

/// What is done about a program that has or has not ended.
pub open spec fn wait_step(ended: bool, elapsed_nanoseconds: u64) -> WaitStep {
    if ended {
        WaitStep::Collect
    } else if elapsed_nanoseconds > YKMAN_LIMIT_NANOSECONDS {
        WaitStep::GiveUp
    } else {
        WaitStep::Sleep(100)
    }
}

/// A program that has ended is collected; one that has run for more than 45
/// seconds is given up on; for any other one the client waits a tenth of a
/// second.
pub fn ykman_wait(ended: bool, elapsed_nanoseconds: u64) -> (r: WaitStep)
    ensures
        r == wait_step(ended, elapsed_nanoseconds),
        r == (if ended {
            WaitStep::Collect
        } else if elapsed_nanoseconds > YKMAN_LIMIT_NANOSECONDS {
            WaitStep::GiveUp
        } else {
            WaitStep::Sleep(100)
        }),
{
    if ended {
        WaitStep::Collect
    } else if elapsed_nanoseconds > YKMAN_LIMIT_NANOSECONDS {
        WaitStep::GiveUp
    } else {
        WaitStep::Sleep(100)
    }
}

/// What giving up on YubiKey Manager is reported as.
pub open spec fn timeout_view(args: Seq<Seq<char>>) -> ErrorView {
    ErrorView::Certificate(
        "YubiKey Manager timed out while running 'ykman "@ + shown_command(args)
            + "'; if the YubiKey was waiting for touch, PIN, or overwrite confirmation, try again after clearing the target slot or choosing another slot"@,
    )
}

/// What giving up on YubiKey Manager is reported as: the secrets among its
/// arguments are not shown.
pub fn ykman_timeout_error(args: &[String]) -> (r: AppError)
    ensures
        r@ == timeout_view(view_all(args@)),
        r@ == ErrorView::Certificate(
            "YubiKey Manager timed out while running 'ykman "@ + join(
                shown_args(view_all(args@)),
                " "@,
            )
                + "'; if the YubiKey was waiting for touch, PIN, or overwrite confirmation, try again after clearing the target slot or choosing another slot"@,
        ),
{
    let command: String = redact_ykman_args(args);
    AppError::Certificate(
        concat3(
            "YubiKey Manager timed out while running 'ykman ",
            command.as_str(),
            "'; if the YubiKey was waiting for touch, PIN, or overwrite confirmation, try again after clearing the target slot or choosing another slot",
        ),
    )
}

// ---------------------------------------------------------------------------
// What is shown, what is run, and for how long
// ---------------------------------------------------------------------------

/// A failed program is reported by what it wrote to its error stream and then
/// to its output, trimmed and without secrets: all of it up to 240 characters,
/// the first 240 of more, and the prefix alone where there is nothing.
pub proof fn law_failures_show_errors_first(
    prefix: Seq<char>,
    errors: Seq<char>,
    printed: Seq<char>,
    output: OutputView,
)
    ensures
        ({
            let said = redacted(trim(errors + seq!['\n'] + printed));
            &&& said.len() == 0 ==> failure_text(prefix, errors, printed) == prefix
            &&& 0 < said.len() <= 240 ==> failure_text(prefix, errors, printed) == prefix + ": "@
                + said
            &&& said.len() > 240 ==> failure_text(prefix, errors, printed) == prefix + ": "@
                + said.take(240)
        }),
        command_message(prefix, output) == failure_text(
            prefix,
            lossy_text(output.stderr),
            lossy_text(output.stdout),
        ),
{
    reveal_strlit("\n");
    assert("\n"@ =~= seq!['\n']);
}

/// The option takes a PIN, a management key or a password as its value.
pub open spec fn takes_secret(option: Seq<char>) -> bool {
    ||| option == "--pin"@
    ||| option == "-P"@
    ||| option == "--management-key"@
    ||| option == "-m"@
    ||| option == "--password"@
    ||| option == "-p"@
}

/// An argument is hidden where it is the value of an option that takes a
/// secret, and shown as it is where it follows no such option; none is added or
/// left out.
pub proof fn law_only_secret_values_are_hidden(args: Seq<Seq<char>>, i: int)
    requires
        0 <= i < args.len(),
    ensures
        shown_args(args).len() == args.len(),
        i == 0 || !takes_secret(args[i - 1]) ==> shown_args(args)[i] == args[i],
        i + 1 < args.len() && takes_secret(args[i]) && (i == 0 || !takes_secret(args[i - 1]))
            ==> shown_args(args)[i + 1] == "<redacted>"@,
{
    reveal_with_fuel(is_secret_value, 3);
}

/// The arguments stand in one line with a space between each two of them.
pub proof fn law_commands_are_shown_in_one_line(args: Seq<Seq<char>>, last: Seq<char>)
    ensures
        args.len() == 0 ==> shown_command(args.push(last)) == last,
        args.len() > 0 && !takes_secret(args.last()) ==> shown_command(args.push(last))
            == shown_command(args) + " "@ + last,
        args.len() == 1 && takes_secret(args[0]) ==> shown_command(args.push(last)) == args[0]
            + " "@ + "<redacted>"@,
{
    let all = args.push(last);
    let n = args.len() as int;
    assert forall|i: int| 0 <= i < n implies shown_args(args)[i] == #[trigger] shown_args(all)[i] by {
        lemma_secret_value_of_prefix(args, last, i);
    }
    assert(shown_args(all) =~= shown_args(args).push(shown_args(all)[n]));
    law_joining_separates(shown_args(args), shown_args(all)[n], " "@);
    if n == 1 {
        let one = shown_args(args);
        assert(one =~= Seq::<Seq<char>>::empty().push(args[0]));
        law_joining_separates(Seq::empty(), args[0], " "@);
        law_only_secret_values_are_hidden(all, 0);
    }
}

proof fn lemma_secret_value_of_prefix(args: Seq<Seq<char>>, last: Seq<char>, i: int)
    requires
        i < args.len(),
    ensures
        is_secret_value(args, i) == is_secret_value(args.push(last), i),
    decreases i,
{
    if 0 < i {
        lemma_secret_value_of_prefix(args, last, i - 1);
        assert(args.push(last)[i - 1] == args[i - 1]);
    }
}

/// An argument goes to the program as it is, secret or not; a file goes as its
/// path.
pub proof fn law_arguments_reach_the_program(
    args: Seq<ArgumentView>,
    path: spec_fn(Seq<char>) -> Seq<char>,
    i: int,
)
    requires
        0 <= i < args.len(),
    ensures
        resolved(args, path).len() == args.len(),
        args[i] matches ArgumentView::Text(text) ==> resolved(args, path)[i] == text,
        args[i] matches ArgumentView::Secret(text) ==> resolved(args, path)[i] == text,
        args[i] matches ArgumentView::File(name) ==> resolved(args, path)[i] == path(name),
{
}

/// Only PowerShell and the two certificate tools are started, under whatever
/// case they are named, and only from the system's own directory.
pub proof fn law_only_system_components_are_started(program: Seq<char>)
    ensures
        component_outcome(true, program) is Ok <==> {
            ||| lower(program) == "powershell.exe"@
            ||| lower(program) == "certreq.exe"@
            ||| lower(program) == "certutil.exe"@
        },
        lower(program) == "powershell.exe"@ ==> component_outcome(true, program) == Ok::<
            Seq<Seq<char>>,
            ErrorView,
        >(seq!["System32"@, "WindowsPowerShell"@, "v1.0"@, "powershell.exe"@]),
        component_outcome(true, program) is Ok && lower(program) != "powershell.exe"@
            ==> component_outcome(true, program)->Ok_0 == seq!["System32"@, program],
        component_outcome(true, program) is Err ==> component_outcome(true, program)->Err_0
            == ErrorView::Certificate("refusing to start an unapproved Windows component"@),
        component_outcome(false, program) == Err::<Seq<Seq<char>>, ErrorView>(
            ErrorView::Certificate("Windows SystemRoot is unavailable"@),
        ),
{
}

/// A program that has ended is collected, however long it took; one that runs
/// on is waited for, a tenth of a second at a time, for 45 seconds and no
/// longer.
pub proof fn law_programs_are_waited_for(elapsed_nanoseconds: u64)
    ensures
        wait_step(true, elapsed_nanoseconds) is Collect,
        elapsed_nanoseconds <= 45 * 1_000_000_000 ==> wait_step(false, elapsed_nanoseconds)
            == WaitStep::Sleep(100),
        elapsed_nanoseconds > 45 * 1_000_000_000 ==> wait_step(
            false,
            elapsed_nanoseconds,
        ) is GiveUp,
{
}

/// A program that was given up on is reported with its arguments as they may be
/// shown.
pub proof fn law_timeouts_name_the_command(args: Seq<Seq<char>>)
    ensures
        timeout_view(args) is Certificate,
        contains(timeout_view(args)->Certificate_0, "'ykman "@ + shown_command(args) + "'"@),
        starts_with(timeout_view(args)->Certificate_0, "YubiKey Manager timed out "@),
{
    let head = "YubiKey Manager timed out while running 'ykman "@;
    let tail =
        "'; if the YubiKey was waiting for touch, PIN, or overwrite confirmation, try again after clearing the target slot or choosing another slot"@;
    reveal_strlit("YubiKey Manager timed out while running 'ykman ");
    reveal_strlit("YubiKey Manager timed out ");
    reveal_strlit("'ykman ");
    reveal_strlit("'");
    reveal_strlit(
        "'; if the YubiKey was waiting for touch, PIN, or overwrite confirmation, try again after clearing the target slot or choosing another slot",
    );
    let text = timeout_view(args)->Certificate_0;
    let part = "'ykman "@ + shown_command(args) + "'"@;
    let at = head.len() - 7;
    assert(text.subrange(at, at + part.len()) =~= part);
    assert(occurs_at(text, part, at));
    let front = "YubiKey Manager timed out "@;
    assert(text.subrange(0, front.len() as int) =~= front);
}

/// A component that does not start is named in the report.
pub proof fn law_components_that_do_not_start_are_named(program: Seq<char>)
    ensures
        start_view(program) is Certificate,
        contains(start_view(program)->Certificate_0, "component "@ + program + " could not"@),
{
    reveal_strlit("required Windows component ");
    reveal_strlit(" could not be started");
    reveal_strlit("component ");
    reveal_strlit(" could not");
    let text = start_view(program)->Certificate_0;
    let part = "component "@ + program + " could not"@;
    assert(text.subrange(17, 17 + part.len() as int) =~= part);
    assert(occurs_at(text, part, 17));
}

/// Every fault of YubiKey Manager is a failed certificate operation, and each
/// says what it is.
pub proof fn law_faults_say_what_they_are()
    ensures
        YkmanFault::NotWindows.error_view() == ErrorView::Certificate(
            "YubiKey issuance is only supported on Windows in this build"@,
        ),
        YkmanFault::NoWorkDirectory.error_view() == ErrorView::Certificate(
            "could not create a private YubiKey Manager work directory"@,
        ),
        YkmanFault::NotStarted.error_view() == ErrorView::Certificate(
            "YubiKey Manager CLI (ykman) could not be started; install ykman and try again"@,
        ),
        YkmanFault::Failed.error_view() == ErrorView::Certificate(
            "YubiKey Manager failed unexpectedly"@,
        ),
        YkmanFault::OutputUnreadable.error_view() == ErrorView::Certificate(
            "YubiKey Manager output could not be read"@,
        ),
        windows_only() == ErrorView::Certificate("this operation is only supported on Windows"@),
{
}

} // verus!
