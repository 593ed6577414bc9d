//! The Windows components that the client runs, and the files that it hands
//! them.

use vstd::prelude::*;

use crate::error::{view_outcome, AppResult, ErrorView};
use crate::process::{arg, push_texts, view_arguments, Argument, ArgumentView};
use crate::text::{concat3, decimal, decimal_text};

verus! {

/// A file in the directory that a procedure works in.
#[derive(Clone, Copy, Debug, PartialEq, Eq, Structural)]
pub enum WindowsFile {
    Instructions,
    Request,
    Intermediate(u64),
    Certificate,
    Root,
}

pub open spec fn windows_file(file: WindowsFile) -> Seq<char> {
    match file {
        WindowsFile::Instructions => "request.inf"@,
        WindowsFile::Request => "request.req"@,
        WindowsFile::Intermediate(index) => "intermediate-"@ + decimal(index as nat) + ".cer"@,
        WindowsFile::Certificate => "certificate.cer"@,
        WindowsFile::Root => "root.cer"@,
    }
}

pub fn windows_file_name(file: WindowsFile) -> (r: String)
    ensures
        r@ == windows_file(file),
{
    match file {
        WindowsFile::Instructions => "request.inf".to_owned(),
        WindowsFile::Request => "request.req".to_owned(),
        WindowsFile::Intermediate(index) => concat3(
            "intermediate-",
            decimal_text(index).as_str(),
            ".cer",
        ),
        WindowsFile::Certificate => "certificate.cer".to_owned(),
        WindowsFile::Root => "root.cer".to_owned(),
    }
}

/// What a Windows component is asked to do.
#[derive(Clone, Copy, Debug, PartialEq, Eq, Structural)]
pub enum WindowsCommand {
    NewRequest,
    AcceptCertificate,
    AddIntermediate(u64),
    AddRoot,
    DeleteContainer,
    FindUserRoot,
    FindMachineRoot,
    DeleteRoot,
    DeletePersonal,
    Script,
}

/// The component that a command is for.
pub open spec fn command_program(command: WindowsCommand) -> Seq<char> {
    match command {
        WindowsCommand::NewRequest => "certreq.exe"@,
        WindowsCommand::AcceptCertificate => "certreq.exe"@,
        WindowsCommand::Script => "powershell.exe"@,
        _ => "certutil.exe"@,
    }
}

pub fn windows_program(command: WindowsCommand) -> (r: &'static str)
    ensures
        r@ == command_program(command),
{
    match command {
        WindowsCommand::NewRequest => "certreq.exe",
        WindowsCommand::AcceptCertificate => "certreq.exe",
        WindowsCommand::Script => "powershell.exe",
        _ => "certutil.exe",
    }
}

/// Every command is for a component that the client may start.
pub proof fn law_commands_use_approved_components(command: WindowsCommand)
    ensures
        crate::process::component_path(command_program(command)) is Some,
{
    reveal_strlit("certreq.exe");
    reveal_strlit("certutil.exe");
    reveal_strlit("powershell.exe");
    assert(crate::text::lower("certreq.exe"@) =~= "certreq.exe"@);
    assert(crate::text::lower("certutil.exe"@) =~= "certutil.exe"@);
    assert(crate::text::lower("powershell.exe"@) =~= "powershell.exe"@);
}

pub open spec fn windows_file_arg(file: WindowsFile) -> ArgumentView {
    ArgumentView::File(windows_file(file))
}

/// The arguments of a command on `subject`: a key container, a certificate's
/// thumbprint or a script, where the command needs one.
pub open spec fn windows_command_args(command: WindowsCommand, subject: Seq<char>) -> Seq<
    ArgumentView,
> {
    match command {
        WindowsCommand::NewRequest => seq![
            arg("-new"@),
            arg("-q"@),
            arg("-user"@),
            windows_file_arg(WindowsFile::Instructions),
            windows_file_arg(WindowsFile::Request),
        ],
        WindowsCommand::AcceptCertificate => seq![
            arg("-accept"@),
            arg("-q"@),
            arg("-user"@),
            windows_file_arg(WindowsFile::Certificate),
        ],
        WindowsCommand::AddIntermediate(index) => seq![
            arg("-user"@),
            arg("-addstore"@),
            arg("-f"@),
            arg("CA"@),
            windows_file_arg(WindowsFile::Intermediate(index)),
        ],
        WindowsCommand::AddRoot => seq![
            arg("-user"@),
            arg("-addstore"@),
            arg("-f"@),
            arg("Root"@),
            windows_file_arg(WindowsFile::Root),
        ],
        WindowsCommand::DeleteContainer => seq![
            arg("-user"@),
            arg("-csp"@),
            arg("Microsoft Software Key Storage Provider"@),
            arg("-delkey"@),
            arg(subject),
        ],
        WindowsCommand::FindUserRoot => seq![
            arg("-user"@),
            arg("-store"@),
            arg("Root"@),
            arg(subject),
        ],
        WindowsCommand::FindMachineRoot => seq![arg("-store"@), arg("Root"@), arg(subject)],
        WindowsCommand::DeleteRoot => seq![
            arg("-user"@),
            arg("-delstore"@),
            arg("Root"@),
            arg(subject),
        ],
        WindowsCommand::DeletePersonal => seq![
            arg("-user"@),
            arg("-delstore"@),
            arg("My"@),
            arg(subject),
        ],
        WindowsCommand::Script => seq![
            arg("-NoLogo"@),
            arg("-NoProfile"@),
            arg("-NonInteractive"@),
            arg("-Command"@),
            arg(subject),
        ],
    }
}

fn push_windows_file(args: &mut Vec<Argument>, file: WindowsFile)
    ensures
        view_arguments(final(args)@) == view_arguments(old(args)@).push(windows_file_arg(file)),
{
    let ghost before = view_arguments(args@);
    args.push(Argument::File(windows_file_name(file)));
    assert(view_arguments(args@) =~= before.push(windows_file_arg(file)));
}

/// The arguments of a command on `subject`.
pub fn windows_args(command: WindowsCommand, subject: &str) -> (r: Vec<Argument>)
    ensures
        view_arguments(r@) == windows_command_args(command, subject@),
{
    let mut args: Vec<Argument> = Vec::new();
    match command {
        WindowsCommand::NewRequest => {
            push_texts(&mut args, &["-new", "-q", "-user"]);
            push_windows_file(&mut args, WindowsFile::Instructions);
            push_windows_file(&mut args, WindowsFile::Request);
        },
        WindowsCommand::AcceptCertificate => {
            push_texts(&mut args, &["-accept", "-q", "-user"]);
            push_windows_file(&mut args, WindowsFile::Certificate);
        },
        WindowsCommand::AddIntermediate(index) => {
            push_texts(&mut args, &["-user", "-addstore", "-f", "CA"]);
            push_windows_file(&mut args, WindowsFile::Intermediate(index));
        },
        WindowsCommand::AddRoot => {
            push_texts(&mut args, &["-user", "-addstore", "-f", "Root"]);
            push_windows_file(&mut args, WindowsFile::Root);
        },
        WindowsCommand::DeleteContainer => {
            push_texts(
                &mut args,
                &["-user", "-csp", "Microsoft Software Key Storage Provider", "-delkey", subject],
            );
        },
        WindowsCommand::FindUserRoot => {
            push_texts(&mut args, &["-user", "-store", "Root", subject]);
        },
        WindowsCommand::FindMachineRoot => {
            push_texts(&mut args, &["-store", "Root", subject]);
        },
        WindowsCommand::DeleteRoot => {
            push_texts(&mut args, &["-user", "-delstore", "Root", subject]);
        },
        WindowsCommand::DeletePersonal => {
            push_texts(&mut args, &["-user", "-delstore", "My", subject]);
        },
        WindowsCommand::Script => {
            push_texts(
                &mut args,
                &["-NoLogo", "-NoProfile", "-NonInteractive", "-Command", subject],
            );
        },
    }
    assert(view_arguments(args@) =~= windows_command_args(command, subject@));
    args
}

/// What the caller is to do next; `Done` ends the procedure.
pub enum WindowsAction<T> {
    CreateDirectory,
    Write(WindowsFile, String),
    Run(WindowsCommand),
    Read(WindowsFile),
    Done(AppResult<T>),
}

/// An action whose result is seen as `V`.
#[verifier::ext_equal]
pub enum WindowsActionView<V> {
    CreateDirectory,
    Write(WindowsFile, Seq<char>),
    Run(WindowsCommand),
    Read(WindowsFile),
    Done(Result<V, ErrorView>),
}

pub open spec fn view_windows_action<T: View>(action: WindowsAction<T>) -> WindowsActionView<T::V> {
    match action {
        WindowsAction::CreateDirectory => WindowsActionView::CreateDirectory,
        WindowsAction::Write(file, text) => WindowsActionView::Write(file, text@),
        WindowsAction::Run(command) => WindowsActionView::Run(command),
        WindowsAction::Read(file) => WindowsActionView::Read(file),
        WindowsAction::Done(r) => WindowsActionView::Done(view_outcome(r)),
    }
}

/// No two files of a procedure share a name.
pub proof fn law_files_are_told_apart(index: u64)
    ensures
        windows_file(WindowsFile::Instructions) == "request.inf"@,
        windows_file(WindowsFile::Request) == "request.req"@,
        windows_file(WindowsFile::Certificate) == "certificate.cer"@,
        windows_file(WindowsFile::Root) == "root.cer"@,
        windows_file(WindowsFile::Intermediate(index)) == "intermediate-"@ + decimal(index as nat)
            + ".cer"@,
{
}

/// Requests are made and certificates accepted by the request tool for the
/// current user, without questions, over the procedure's own files.
pub proof fn law_requests_are_the_users(subject: Seq<char>)
    ensures
        ({
            let made = windows_command_args(WindowsCommand::NewRequest, subject);
            let accepted = windows_command_args(WindowsCommand::AcceptCertificate, subject);
            &&& command_program(WindowsCommand::NewRequest) == "certreq.exe"@
            &&& command_program(WindowsCommand::AcceptCertificate) == "certreq.exe"@
            &&& made.first() == ArgumentView::Text("-new"@)
            &&& accepted.first() == ArgumentView::Text("-accept"@)
            &&& made[1] == ArgumentView::Text("-q"@) && accepted[1] == ArgumentView::Text("-q"@)
            &&& made[2] == ArgumentView::Text("-user"@) && accepted[2] == ArgumentView::Text(
                "-user"@,
            )
            &&& made[3] == ArgumentView::File("request.inf"@)
            &&& made.last() == ArgumentView::File("request.req"@)
            &&& accepted.last() == ArgumentView::File("certificate.cer"@)
            &&& made.len() == 5 && accepted.len() == 4
        }),
{
}

/// The certificate tool works on the store that the command is about: the
/// user's, with the machine's as the one exception, and on the given subject or
/// the procedure's own file.
pub proof fn law_store_commands_name_their_store(
    command: WindowsCommand,
    subject: Seq<char>,
    index: u64,
)
    ensures
        ({
            let args = windows_command_args(command, subject);
            let n = args.len() as int;
            &&& command is AddIntermediate || command is AddRoot || command is DeleteContainer
                || command is FindUserRoot || command is FindMachineRoot || command is DeleteRoot
                || command is DeletePersonal ==> command_program(command) == "certutil.exe"@
            &&& command is AddIntermediate || command is AddRoot || command is DeleteContainer
                || command is FindUserRoot || command is DeleteRoot || command is DeletePersonal
                ==> args[0] == ArgumentView::Text("-user"@)
            &&& command is FindMachineRoot ==> args[0] == ArgumentView::Text("-store"@) && n == 3
            &&& command is FindUserRoot ==> args[1] == ArgumentView::Text("-store"@) && n == 4
            &&& command is DeleteRoot || command is DeletePersonal ==> args[1]
                == ArgumentView::Text("-delstore"@) && n == 4
            &&& command is FindUserRoot || command is FindMachineRoot || command is DeleteRoot
                ==> args[n - 2] == ArgumentView::Text("Root"@)
            &&& command is DeletePersonal ==> args[n - 2] == ArgumentView::Text("My"@)
            &&& command is DeleteContainer ==> {
                &&& n == 5
                &&& args[1] == ArgumentView::Text("-csp"@)
                &&& args[2] == ArgumentView::Text("Microsoft Software Key Storage Provider"@)
                &&& args[3] == ArgumentView::Text("-delkey"@)
            }
            &&& command is FindUserRoot || command is FindMachineRoot || command is DeleteRoot
                || command is DeletePersonal || command is DeleteContainer ==> args.last()
                == ArgumentView::Text(subject)
            &&& command is AddIntermediate || command is AddRoot ==> {
                &&& n == 5
                &&& args[1] == ArgumentView::Text("-addstore"@)
                &&& args[2] == ArgumentView::Text("-f"@)
            }
            &&& command is AddRoot ==> args[3] == ArgumentView::Text("Root"@) && args.last()
                == ArgumentView::File("root.cer"@)
            &&& command == WindowsCommand::AddIntermediate(index) ==> args[3]
                == ArgumentView::Text("CA"@) && args.last() == ArgumentView::File(
                "intermediate-"@ + decimal(index as nat) + ".cer"@,
            )
        }),
{
}

/// Scripts run in a PowerShell without profile, logo and questions.
pub proof fn law_scripts_run_without_profile(subject: Seq<char>)
    ensures
        ({
            let args = windows_command_args(WindowsCommand::Script, subject);
            &&& command_program(WindowsCommand::Script) == "powershell.exe"@
            &&& args.len() == 5
            &&& args.contains(ArgumentView::Text("-NoLogo"@))
            &&& args.contains(ArgumentView::Text("-NoProfile"@))
            &&& args.contains(ArgumentView::Text("-NonInteractive"@))
            &&& args[3] == ArgumentView::Text("-Command"@)
            &&& args.last() == ArgumentView::Text(subject)
        }),
{
    let args = windows_command_args(WindowsCommand::Script, subject);
    assert(args[0] == ArgumentView::Text("-NoLogo"@));
    assert(args[1] == ArgumentView::Text("-NoProfile"@));
    assert(args[2] == ArgumentView::Text("-NonInteractive"@));
}

} // verus!
