//! Launching the agent: the command line for it, and what to do where the
//! program cannot be started directly.
//!
//! The decisions stand here; starting processes is the driver's work. The
//! driver starts what `direct_command` names, reports how that went, and is
//! told whether the run is over, whether to try again through the user's
//! shell, or whether to hand the error on as it is.

use crate::scroll::line_views;
use vstd::prelude::*;

verus! {

/// The exit code with which a shell reports that it found no such command.
pub const COMMAND_NOT_FOUND: i32 = 127;

/// A program and its arguments.
pub struct Invocation {
    pub program: String,
    pub args: Vec<String>,
}

/// The arguments for one conversation: `exec`, the flag that grants full
/// access, `-C` and the working directory where one is given, then the
/// prompt.
pub open spec fn agent_args(prompt: Seq<char>, work_dir: Option<Seq<char>>) -> Seq<Seq<char>> {
    let head = seq!["exec"@, "--dangerously-bypass-approvals-and-sandbox"@];
    let dir = match work_dir {
        Some(d) => seq!["-C"@, d],
        None => Seq::empty(),
    };
    head + dir + seq![prompt]
}

/// Builds the arguments for one conversation.
pub fn codex_args(prompt: &str, work_dir: Option<&str>) -> (args: Vec<String>)
    ensures
        line_views(args@) == agent_args(
            prompt@,
            match work_dir {
                Some(d) => Some(d@),
                None => None,
            },
        ),
{
    let mut args: Vec<String> = Vec::new();
    args.push(String::from_str("exec"));
    args.push(String::from_str("--dangerously-bypass-approvals-and-sandbox"));
    match work_dir {
        Some(dir) => {
            args.push(String::from_str("-C"));
            args.push(String::from_str(dir));
        },
        None => {},
    }
    args.push(String::from_str(prompt));
    proof {
        assert(line_views(args@) =~= agent_args(
            prompt@,
            match work_dir {
                Some(d) => Some(d@),
                None => None,
            },
        ));
    }
    args
}

/// Appends copies of `more` to `args`.
fn extend_args(args: &mut Vec<String>, more: &[String])
    ensures
        line_views(final(args)@) == line_views(old(args)@) + line_views(more@),
{
    let mut i: usize = 0;
    while i < more.len()
        invariant
            i <= more.len(),
            line_views(args@) == line_views(old(args)@) + line_views(more@.take(i as int)),
        decreases more.len() - i,
    {
        let ghost before = args@;
        let arg = more[i].clone();
        args.push(arg);
        proof {
            assert(line_views(before.push(arg)) =~= line_views(before).push(arg@));
            assert(line_views(more@.take(i + 1)) =~= line_views(more@.take(i as int)).push(
                more@[i as int]@,
            ));
            assert(line_views(args@) =~= line_views(old(args)@) + line_views(
                more@.take(i + 1),
            ));
        }
        i += 1;
    }
    proof {
        assert(more@.take(i as int) =~= more@);
    }
}

/// The program and arguments of the direct launch: the agent itself, or on
/// Windows `cmd /C` in front of it.
pub open spec fn direct_invocation(
    codex_bin: Seq<char>,
    args: Seq<Seq<char>>,
    windows: bool,
) -> (Seq<char>, Seq<Seq<char>>) {
    if windows {
        ("cmd"@, seq!["/C"@, codex_bin] + args)
    } else {
        (codex_bin, args)
    }
}

/// Builds the direct launch.
pub fn direct_command(codex_bin: &str, args: &[String], windows: bool) -> (invocation: Invocation)
    ensures
        (invocation.program@, line_views(invocation.args@)) == direct_invocation(
            codex_bin@,
            line_views(args@),
            windows,
        ),
{
    let mut full: Vec<String> = Vec::new();
    if windows {
        full.push(String::from_str("/C"));
        full.push(String::from_str(codex_bin));
        proof {
            assert(line_views(full@) =~= seq!["/C"@, codex_bin@]);
        }
        extend_args(&mut full, args);
        Invocation { program: String::from_str("cmd"), args: full }
    } else {
        proof {
            assert(line_views(full@) =~= Seq::<Seq<char>>::empty());
        }
        extend_args(&mut full, args);
        proof {
            assert(Seq::<Seq<char>>::empty() + line_views(args@) =~= line_views(args@));
        }
        Invocation { program: String::from_str(codex_bin), args: full }
    }
}

/// Shells that are started interactively, so that aliases and functions of
/// the user's startup files are known to them.
pub open spec fn wants_interactive(shell_name: Seq<char>) -> bool {
    shell_name == "zsh"@ || shell_name == "bash"@
}

/// The arguments of the launch through a shell: `-i` for zsh and bash,
/// `-lc`, the script that runs its own arguments, the agent, and the
/// agent's arguments.
pub open spec fn shell_args(
    shell_name: Seq<char>,
    codex_bin: Seq<char>,
    args: Seq<Seq<char>>,
) -> Seq<Seq<char>> {
    let interactive = if wants_interactive(shell_name) {
        seq!["-i"@]
    } else {
        Seq::empty()
    };
    interactive + seq!["-lc"@, "\"$0\" \"$@\""@, codex_bin] + args
}

/// Whether two strings hold the same text.
fn same_text(a: &str, b: &str) -> (same: bool)
    ensures
        same == (a@ == b@),
{
    let n = a.unicode_len();
    if n != b.unicode_len() {
        return false;
    }
    let mut i: usize = 0;
    while i < n
        invariant
            i <= n,
            n == a@.len(),
            n == b@.len(),
            a@.take(i as int) == b@.take(i as int),
        decreases n - i,
    {
        if a.get_char(i) != b.get_char(i) {
            return false;
        }
        proof {
            assert(a@.take(i + 1) =~= a@.take(i as int).push(a@[i as int]));
            assert(b@.take(i + 1) =~= b@.take(i as int).push(b@[i as int]));
        }
        i += 1;
    }
    proof {
        assert(a@.take(n as int) =~= a@);
        assert(b@.take(n as int) =~= b@);
    }
    true
}

/// Builds the launch through the shell `shell`, whose file name is
/// `shell_name`.
pub fn shell_command(shell: &str, shell_name: &str, codex_bin: &str, args: &[String]) -> (invocation:
    Invocation)
    ensures
        invocation.program@ == shell@,
        line_views(invocation.args@) == shell_args(shell_name@, codex_bin@, line_views(args@)),
{
    let mut full: Vec<String> = Vec::new();
    if same_text(shell_name, "zsh") || same_text(shell_name, "bash") {
        full.push(String::from_str("-i"));
    }
    full.push(String::from_str("-lc"));
    full.push(String::from_str("\"$0\" \"$@\""));
    full.push(String::from_str(codex_bin));
    let ghost head = line_views(full@);
    proof {
        let interactive = if wants_interactive(shell_name@) {
            seq!["-i"@]
        } else {
            Seq::<Seq<char>>::empty()
        };
        assert(head =~= interactive + seq!["-lc"@, "\"$0\" \"$@\""@, codex_bin@]);
    }
    extend_args(&mut full, args);
    Invocation { program: String::from_str(shell), args: full }
}

/// The shell to go through: what `SHELL` names, or `/bin/sh`.
pub fn shell_or_default(shell: Option<String>) -> (chosen: String)
    ensures
        chosen@ == match shell {
            Some(s) => s@,
            None => "/bin/sh"@,
        },
{
    match shell {
        Some(s) => s,
        None => String::from_str("/bin/sh"),
    }
}

/// How the direct launch went.
#[derive(Clone, Copy, Debug, PartialEq, Eq, Structural)]
pub enum DirectOutcome {
    /// The process ran to its end, with or without success.
    Exited(bool),
    /// The program was not found.
    NotFound,
    /// Any other error.
    OtherError,
}

/// What to do after the direct launch.
#[derive(Clone, Copy, Debug, PartialEq, Eq, Structural)]
pub enum AfterDirect {
    /// The run is over, with this verdict.
    Done(bool),
    /// Launch again through the user's shell.
    TryShell,
    /// Hand the error on as it is.
    Propagate,
}

/// A program that was not found is looked for once more through the shell,
/// except on Windows; every other error is handed on.
pub open spec fn direct_decision(outcome: DirectOutcome, windows: bool) -> AfterDirect {
    match outcome {
        DirectOutcome::Exited(success) => AfterDirect::Done(success),
        DirectOutcome::NotFound => if windows {
            AfterDirect::Propagate
        } else {
            AfterDirect::TryShell
        },
        DirectOutcome::OtherError => AfterDirect::Propagate,
    }
}

/// Decides what follows the direct launch.
pub fn after_direct(outcome: DirectOutcome, windows: bool) -> (next: AfterDirect)
    ensures
        next == direct_decision(outcome, windows),
{
    match outcome {
        DirectOutcome::Exited(success) => AfterDirect::Done(success),
        DirectOutcome::NotFound => if windows {
            AfterDirect::Propagate
        } else {
            AfterDirect::TryShell
        },
        DirectOutcome::OtherError => AfterDirect::Propagate,
    }
}

/// How the launch through the shell went.
pub enum ShellOutcome {
    /// The shell ran to its end: whether with success, and its exit code.
    Exited { success: bool, code: Option<i32> },
    /// The shell could not be started; the text of the error.
    Failed(String),
}

/// The message for an agent that the shell did not find either.
pub open spec fn not_found_message(codex_bin: Seq<char>) -> Seq<char> {
    "could not execute `"@ + codex_bin
        + "`; it was not found in PATH or shell startup configuration"@
}

/// The message for a shell that could not be started.
pub open spec fn both_failed_message(
    codex_bin: Seq<char>,
    direct_error: Seq<char>,
    shell_error: Seq<char>,
) -> Seq<char> {
    "could not execute `"@ + codex_bin + "`; direct launch failed ("@ + direct_error
        + "); shell fallback failed ("@ + shell_error + ")"@
}

/// The verdict after the launch through the shell, or the message of the
/// not-found error that ends the run: exit code 127 means the shell found
/// no agent, any other exit is the run's verdict, and a shell that did not
/// start is reported with both errors.
pub open spec fn shell_decision(
    codex_bin: Seq<char>,
    direct_error: Seq<char>,
    outcome: ShellOutcome,
) -> Result<bool, Seq<char>> {
    match outcome {
        ShellOutcome::Exited { success, code } => if code == Some(COMMAND_NOT_FOUND) {
            Err(not_found_message(codex_bin))
        } else {
            Ok(success)
        },
        ShellOutcome::Failed(shell_error) => Err(
            both_failed_message(codex_bin, direct_error, shell_error@),
        ),
    }
}

/// A verdict with its message as text.
pub open spec fn verdict_view(verdict: Result<bool, String>) -> Result<bool, Seq<char>> {
    match verdict {
        Ok(success) => Ok(success),
        Err(message) => Err(message@),
    }
}

/// Decides what follows the launch through the shell.
pub fn after_shell(codex_bin: &str, direct_error: &str, outcome: ShellOutcome) -> (verdict: Result<
    bool,
    String,
>)
    ensures
        verdict_view(verdict) == shell_decision(codex_bin@, direct_error@, outcome),
{
    match outcome {
        ShellOutcome::Exited { success, code } => {
            let not_found = match code {
                Some(c) => c == COMMAND_NOT_FOUND,
                None => false,
            };
            if not_found {
                let mut message = String::from_str("could not execute `");
                message.append(codex_bin);
                message.append("`; it was not found in PATH or shell startup configuration");
                Err(message)
            } else {
                Ok(success)
            }
        },
        ShellOutcome::Failed(shell_error) => {
            let mut message = String::from_str("could not execute `");
            message.append(codex_bin);
            message.append("`; direct launch failed (");
            message.append(direct_error);
            message.append("); shell fallback failed (");
            message.append(shell_error.as_str());
            message.append(")");
            proof {
                assert(message@ =~= both_failed_message(
                    codex_bin@,
                    direct_error@,
                    shell_error@,
                ));
            }
            Err(message)
        },
    }
}

} // verus!
