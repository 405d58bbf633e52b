//! The commands that the shell carries out itself, but for `type`.
//!
//! Each command is a function from its parameter text to a [`Step`]. Where
//! a command needs something of the host first, the step leaves the shell
//! waiting, and a second function takes the host's answer.

use crate::number::{decimal, decimal_string, parse_i32, parse_i32_spec};
use crate::protocol::{
    answer, complaint, option_str_text, result_str_text, silent, Next, NextView, Outcome,
    Pending, PendingView, Step, StepView,
};
use crate::text::{concat3, is_space, same_text, starts_with};
use crate::tokenizer::{head, lemma_one_word, split_input, tail};
use vstd::prelude::*;
use vstd::string::StringExecFns;

verus! {

/// Whether `name` is a command that the shell carries out itself.
pub open spec fn is_builtin(name: Seq<char>) -> bool {
    name == "exit"@ || name == "echo"@ || name == "type"@ || name == "pwd"@ || name == "cd"@
}

/// Decides [`is_builtin`].
pub fn is_builtin_name(name: &str) -> (builtin: bool)
    ensures
        builtin == is_builtin(name@),
{
    same_text(name, "exit") || same_text(name, "echo") || same_text(name, "type") || same_text(
        name,
        "pwd",
    ) || same_text(name, "cd")
}

/// What is written for `path`: the path, and a line end where one is asked
/// for.
pub open spec fn written_path(path: Seq<char>, add_newline: bool) -> Seq<char> {
    if add_newline {
        path + "\n"@
    } else {
        path
    }
}

/// The text to write for `path`.
pub fn write_path(path: &str, add_newline: bool) -> (text: String)
    ensures
        text@ == written_path(path@, add_newline),
{
    let mut text = String::from_str(path);
    if add_newline {
        text.append("\n");
    }
    text
}

/// `exit`: with no parameter the shell ends with code 0, with one decimal
/// `i32` it ends with that code. Anything else is an error with status 2,
/// and the shell goes on.
pub open spec fn exit_step(params: Seq<char>) -> StepView {
    let code = head(params);
    if tail(params).len() > 0 {
        complaint("exit: too many arguments\n"@, 2)
    } else if code.len() == 0 {
        silent(NextView::Done(Outcome::Terminate(0)))
    } else {
        match parse_i32_spec(code) {
            Some(n) => silent(NextView::Done(Outcome::Terminate(n))),
            None => complaint("exit: "@ + code + ": invalid integer\n"@, 2),
        }
    }
}

/// The `exit` command.
pub fn command_exit(params: &str) -> (step: Step)
    ensures
        step@ == exit_step(params@),
{
    let (code, rest) = split_input(params);
    if !rest.is_empty() {
        return Step::complaint(String::from_str("exit: too many arguments\n"), 2);
    }
    if code.is_empty() {
        return Step::silent(Next::Done(Outcome::Terminate(0)));
    }
    match parse_i32(code) {
        Some(n) => Step::silent(Next::Done(Outcome::Terminate(n))),
        None => Step::complaint(concat3("exit: ", code, ": invalid integer\n"), 2),
    }
}

/// `echo`: writes the parameter text and a line end; for the parameter
/// `$?` it writes the last status in its place. The status is 0.
pub open spec fn echo_step(params: Seq<char>, last_status: i32) -> StepView {
    if params == "$?"@ {
        answer(decimal(last_status as int) + "\n"@, 0)
    } else {
        answer(params + "\n"@, 0)
    }
}

/// The `echo` command.
pub fn command_echo(params: &str, last_status: i32) -> (step: Step)
    ensures
        step@ == echo_step(params@, last_status),
{
    let mut out = if same_text(params, "$?") {
        decimal_string(last_status)
    } else {
        String::from_str(params)
    };
    out.append("\n");
    Step::answer(out, 0)
}

/// `pwd`: with a parameter it is an error with status 2; with none the
/// shell asks for the working directory.
pub open spec fn pwd_step(params: Seq<char>) -> StepView {
    if params.len() > 0 {
        complaint("pwd: expected 0 arguments\n"@, 2)
    } else {
        silent(NextView::Wait(PendingView::CurrentDir))
    }
}

/// `pwd`, once the host has answered: the directory on a line of its own
/// and status 0, or the reason why there is none and status 2.
pub open spec fn pwd_report_step(dir: Result<Seq<char>, Seq<char>>) -> StepView {
    match dir {
        Ok(path) => answer(written_path(path, true), 0),
        Err(reason) => complaint("failed to get pwd "@ + reason + "\n"@, 2),
    }
}

/// The `pwd` command.
pub fn command_pwd(params: &str) -> (step: Step)
    ensures
        step@ == pwd_step(params@),
{
    if !params.is_empty() {
        Step::complaint(String::from_str("pwd: expected 0 arguments\n"), 2)
    } else {
        Step::silent(Next::Wait(Pending::CurrentDir))
    }
}

/// Ends the `pwd` command with the host's answer.
pub fn pwd_report(dir: Result<&str, &str>) -> (step: Step)
    ensures
        step@ == pwd_report_step(result_str_text(dir)),
{
    match dir {
        Ok(path) => Step::answer(write_path(path, true), 0),
        Err(reason) => Step::complaint(concat3("failed to get pwd ", reason, "\n"), 2),
    }
}

/// Whether `dir` is written from the home directory: `~` itself, or a path
/// that starts with `~/`.
pub open spec fn is_home_relative(dir: Seq<char>) -> bool {
    dir == "~"@ || "~/"@.is_prefix_of(dir)
}

/// `cd`: the directory is the one word of the parameter text, or `~` where
/// there is none. A second word is an error with status 1. For a
/// directory written from home the shell asks for the home directory;
/// for any other it asks for the change to it.
pub open spec fn cd_step(params: Seq<char>) -> StepView {
    if params.len() > 0 && tail(params).len() > 0 {
        complaint("Too many args for cd command\n"@, 1)
    } else {
        let shown = if params.len() == 0 {
            "~"@
        } else {
            head(params)
        };
        if is_home_relative(shown) {
            silent(NextView::Wait(PendingView::HomeDir { shown }))
        } else {
            silent(NextView::Wait(PendingView::DirChange { shown, target: shown }))
        }
    }
}

/// `shown` with `home` in place of its first character, the `~`.
pub open spec fn home_expanded(shown: Seq<char>, home: Seq<char>) -> Seq<char> {
    if shown.len() > 0 {
        home + shown.skip(1)
    } else {
        home
    }
}

/// `cd`, once the home directory is known: the shell asks for the change to
/// the directory with the home directory in place of the `~`. With no home
/// directory it is an error with status 1.
pub open spec fn cd_home_step(shown: Seq<char>, home: Option<Seq<char>>) -> StepView {
    match home {
        Some(home) => silent(
            NextView::Wait(
                PendingView::DirChange { shown, target: home_expanded(shown, home) },
            ),
        ),
        None => complaint("Failed to get home dir\n"@, 1),
    }
}

/// `cd`, once the change was tried: status 0 where it was made, else an
/// error that names the directory as the user wrote it, and status 1.
pub open spec fn cd_report_step(shown: Seq<char>, changed: bool) -> StepView {
    if changed {
        silent(NextView::Done(Outcome::Continue(0)))
    } else {
        complaint("cd: "@ + shown + ": No such file or directory\n"@, 1)
    }
}

/// The `cd` command.
pub fn command_cd(params: &str) -> (step: Step)
    ensures
        step@ == cd_step(params@),
{
    let shown = if params.is_empty() {
        "~"
    } else {
        let (dir, rest) = split_input(params);
        if !rest.is_empty() {
            return Step::complaint(String::from_str("Too many args for cd command\n"), 1);
        }
        dir
    };
    if same_text(shown, "~") || starts_with(shown, "~/") {
        Step::silent(Next::Wait(Pending::HomeDir { shown: String::from_str(shown) }))
    } else {
        Step::silent(
            Next::Wait(
                Pending::DirChange {
                    shown: String::from_str(shown),
                    target: String::from_str(shown),
                },
            ),
        )
    }
}

/// Goes on with `cd` once the host has told the home directory.
pub fn cd_home(shown: String, home: Option<&str>) -> (step: Step)
    ensures
        step@ == cd_home_step(shown@, option_str_text(home)),
{
    match home {
        Some(home) => {
            let chars = shown.as_str().unicode_len();
            let mut target = String::from_str(home);
            if chars > 0 {
                target.append(shown.as_str().substring_char(1, chars));
            }
            Step::silent(Next::Wait(Pending::DirChange { shown, target }))
        },
        None => Step::complaint(String::from_str("Failed to get home dir\n"), 1),
    }
}

/// Ends the `cd` command once the host has tried the change.
pub fn cd_report(shown: &str, changed: bool) -> (step: Step)
    ensures
        step@ == cd_report_step(shown@, changed),
{
    if changed {
        Step::silent(Next::Done(Outcome::Continue(0)))
    } else {
        Step::complaint(concat3("cd: ", shown, ": No such file or directory\n"), 1)
    }
}

/// `cd` alone goes home: the shell asks for the home directory, and then
/// for the change to just that directory.
pub proof fn lemma_cd_alone_goes_home(home: Seq<char>)
    ensures
        cd_step(Seq::empty()) == silent(NextView::Wait(PendingView::HomeDir { shown: "~"@ })),
        cd_home_step("~"@, Some(home)) == silent(
            NextView::Wait(PendingView::DirChange { shown: "~"@, target: home }),
        ),
{
    reveal_strlit("~");
    assert(home + "~"@.skip(1) =~= home);
}

/// A directory that is not written from home is the target as it stands.
pub proof fn lemma_cd_plain_directory(dir: Seq<char>)
    requires
        dir.len() > 0,
        forall|i: int| 0 <= i < dir.len() ==> !is_space(#[trigger] dir[i]),
        !is_home_relative(dir),
    ensures
        cd_step(dir) == silent(NextView::Wait(PendingView::DirChange { shown: dir, target: dir })),
{
    lemma_one_word(dir);
}

} // verus!
