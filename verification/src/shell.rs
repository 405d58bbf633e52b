//! The shell: what it remembers, and how it takes each answer of the host.
//!
//! A [`Shell`] holds the last status and what it waits for. The host does
//! what [`Shell::pending`] says, and hands the answer to
//! [`Shell::handle`], which returns what to write and leaves the shell
//! waiting for the next thing. A shell that waits for [`Pending::Exit`] is
//! at its end.

use crate::builtins::{
    cd_home, cd_home_step, cd_report, cd_report_step, cd_step, command_cd, command_echo,
    command_exit, command_pwd, echo_step, exit_step, pwd_report, pwd_report_step, pwd_step,
};
use crate::lookup::{
    candidates, command_type, find_executable, find_step, lemma_resolved_goes_on,
    lemma_search_goes_on, lemma_type_goes_on, probed, probed_step, type_step,
};
use crate::number::decimal;
use crate::protocol::{
    answer, ends_shell, silent, ChildExitView, Event, EventView, Next, NextView, Outcome,
    Pending, PendingView, Purpose, PurposeView, Step, StepView,
};
use crate::runner::{child_step, execute, status_fits};
use crate::text::{is_blank, lemma_trim_blank, lemma_trim_is_trimmed, same_text, trim, trimmed};
use crate::tokenizer::{head, lemma_head_nonempty, lemma_word_len_bound, split_input, tail};
use vstd::prelude::*;
use vstd::string::StringExecFns;

verus! {

/// What a line of input starts. A blank line starts nothing. In any other
/// the first word is the command and the rest its parameter text: one of
/// the five builtins, or else a name to search for and run.
pub open spec fn dispatch_step(line: Seq<char>, last_status: i32) -> StepView {
    let input = trim(line);
    let command = head(input);
    let params = tail(input);
    if input.len() == 0 {
        silent(NextView::Wait(PendingView::Line))
    } else if command == "exit"@ {
        exit_step(params)
    } else if command == "echo"@ {
        echo_step(params, last_status)
    } else if command == "type"@ {
        type_step(params, false)
    } else if command == "pwd"@ {
        pwd_step(params)
    } else if command == "cd"@ {
        cd_step(params)
    } else {
        silent(
            NextView::Wait(
                PendingView::SearchPath { name: command, purpose: PurposeView::Run { params } },
            ),
        )
    }
}

/// Whether `event` is the kind of answer that `pending` asks for.
pub open spec fn answers(pending: PendingView, event: EventView) -> bool {
    match pending {
        PendingView::Line => event is Line || event is EndOfInput,
        PendingView::SearchPath { .. } => event is SearchPath,
        PendingView::Probe { .. } => event is Probed,
        PendingView::Child { .. } => event is Child,
        PendingView::CurrentDir => event is CurrentDir,
        PendingView::HomeDir { .. } => event is HomeDir,
        PendingView::DirChange { .. } => event is DirChanged,
        PendingView::Exit { .. } => false,
    }
}

/// The step that `event` brings about while the shell waits for `pending`.
/// An event that does not answer `pending` brings about nothing: the shell
/// writes nothing and waits on.
pub open spec fn react_step(pending: PendingView, last_status: i32, event: EventView) -> StepView {
    match (pending, event) {
        (PendingView::Line, EventView::Line(line)) => dispatch_step(line, last_status),
        (PendingView::Line, EventView::EndOfInput) => silent(
            NextView::Done(Outcome::Terminate(0)),
        ),
        (PendingView::SearchPath { name, purpose }, EventView::SearchPath(path)) => find_step(
            path,
            name,
            purpose,
        ),
        (
            PendingView::Probe { name, candidate, later, purpose },
            EventView::Probed(present),
        ) => probed_step(name, candidate, later, purpose, present),
        (PendingView::Child { .. }, EventView::Child(exit)) => child_step(exit),
        (PendingView::CurrentDir, EventView::CurrentDir(dir)) => pwd_report_step(dir),
        (PendingView::HomeDir { shown }, EventView::HomeDir(home)) => cd_home_step(shown, home),
        (PendingView::DirChange { shown, .. }, EventView::DirChanged(changed)) => cd_report_step(
            shown,
            changed,
        ),
        _ => silent(NextView::Wait(pending)),
    }
}

/// Whether the shell can take `event` while it waits for `pending`: where
/// it is the end of the program that the shell waits for, its status must
/// fit an `i32`.
pub open spec fn acceptable(pending: PendingView, event: EventView) -> bool {
    pending is Child ==> (event matches EventView::Child(exit) ==> status_fits(exit))
}

/// Starts the command on `line`.
pub fn dispatch(line: &str, last_status: i32) -> (step: Step)
    ensures
        step@ == dispatch_step(line@, last_status),
{
    let input = trimmed(line);
    if input.is_empty() {
        return Step::silent(Next::Wait(Pending::Line));
    }
    let (command, params) = split_input(input);
    if same_text(command, "exit") {
        command_exit(params)
    } else if same_text(command, "echo") {
        command_echo(params, last_status)
    } else if same_text(command, "type") {
        command_type(params)
    } else if same_text(command, "pwd") {
        command_pwd(params)
    } else if same_text(command, "cd") {
        command_cd(params)
    } else {
        Step::silent(
            Next::Wait(
                Pending::SearchPath {
                    name: String::from_str(command),
                    purpose: Purpose::Run { params: String::from_str(params) },
                },
            ),
        )
    }
}

/// Takes `event` as the answer to `pending`.
pub fn react(pending: Pending, last_status: i32, event: Event) -> (step: Step)
    requires
        acceptable(pending@, event@),
    ensures
        step@ == react_step(pending@, last_status, event@),
{
    match pending {
        Pending::Line => match event {
            Event::Line(line) => dispatch(line.as_str(), last_status),
            Event::EndOfInput => Step::silent(Next::Done(Outcome::Terminate(0))),
            _ => Step::silent(Next::Wait(Pending::Line)),
        },
        Pending::SearchPath { name, purpose } => match event {
            Event::SearchPath(path) => match &path {
                Some(path) => find_executable(Some(path.as_str()), name, purpose),
                None => find_executable(None, name, purpose),
            },
            _ => Step::silent(Next::Wait(Pending::SearchPath { name, purpose })),
        },
        Pending::Probe { name, candidate, later, purpose } => match event {
            Event::Probed(present) => probed(name, candidate, later, purpose, present),
            _ => Step::silent(Next::Wait(Pending::Probe { name, candidate, later, purpose })),
        },
        Pending::Child { path, arg } => match event {
            Event::Child(exit) => execute(&exit),
            _ => Step::silent(Next::Wait(Pending::Child { path, arg })),
        },
        Pending::CurrentDir => match event {
            Event::CurrentDir(dir) => match &dir {
                Ok(path) => pwd_report(Ok(path.as_str())),
                Err(reason) => pwd_report(Err(reason.as_str())),
            },
            _ => Step::silent(Next::Wait(Pending::CurrentDir)),
        },
        Pending::HomeDir { shown } => match event {
            Event::HomeDir(home) => match &home {
                Some(home) => cd_home(shown, Some(home.as_str())),
                None => cd_home(shown, None),
            },
            _ => Step::silent(Next::Wait(Pending::HomeDir { shown })),
        },
        Pending::DirChange { shown, target } => match event {
            Event::DirChanged(changed) => cd_report(shown.as_str(), changed),
            _ => Step::silent(Next::Wait(Pending::DirChange { shown, target })),
        },
        Pending::Exit { code } => Step::silent(Next::Wait(Pending::Exit { code })),
    }
}

/// The shell between two steps.
#[derive(Debug, PartialEq, Eq)]
pub struct Shell {
    /// The status of the last command that ended; 0 before the first.
    pub last_status: i32,
    /// What the shell waits for.
    pub pending: Pending,
}

/// The view of a [`Shell`].
pub struct ShellView {
    pub last_status: i32,
    pub pending: PendingView,
}

impl View for Shell {
    type V = ShellView;

    open spec fn view(&self) -> ShellView {
        ShellView { last_status: self.last_status, pending: self.pending@ }
    }
}

/// What the shell writes in one step.
#[derive(Debug, PartialEq, Eq)]
pub struct Output {
    /// Text for the standard output.
    pub out: String,
    /// Text for the standard error stream.
    pub err: String,
}

/// The shell at its start: no status yet but 0, and waiting for a line.
pub open spec fn initial() -> ShellView {
    ShellView { last_status: 0, pending: PendingView::Line }
}

/// The shell after `step`. A command that ends leaves its status and has
/// the shell wait for a line; one that ends the shell has it wait for the
/// exit and keeps the status; a step that waits keeps the status too.
pub open spec fn after_step(shell: ShellView, step: StepView) -> ShellView {
    match step.next {
        NextView::Done(Outcome::Continue(status)) => ShellView {
            last_status: status,
            pending: PendingView::Line,
        },
        NextView::Done(Outcome::Terminate(code)) => ShellView {
            last_status: shell.last_status,
            pending: PendingView::Exit { code },
        },
        NextView::Wait(pending) => ShellView { last_status: shell.last_status, pending },
    }
}

/// The shell after it has taken `event`.
pub open spec fn after_event(shell: ShellView, event: EventView) -> ShellView {
    after_step(shell, react_step(shell.pending, shell.last_status, event))
}

impl Shell {
    /// A shell at its start.
    pub fn new() -> (shell: Shell)
        ensures
            shell@ == initial(),
    {
        Shell { last_status: 0, pending: Pending::Line }
    }

    /// The status of the last command that ended.
    pub fn last_status(&self) -> (status: i32)
        ensures
            status == self@.last_status,
    {
        self.last_status
    }

    /// What the shell waits for: the host's next task.
    pub fn pending(&self) -> (pending: &Pending)
        ensures
            pending@ == self@.pending,
    {
        &self.pending
    }

    /// Takes the host's answer: returns what to write, and leaves the
    /// shell waiting for what comes next.
    pub fn handle(&mut self, event: Event) -> (output: Output)
        requires
            acceptable(old(self)@.pending, event@),
        ensures
            final(self)@ == after_event(old(self)@, event@),
            output.out@ == react_step(old(self)@.pending, old(self)@.last_status, event@).out,
            output.err@ == react_step(old(self)@.pending, old(self)@.last_status, event@).err,
    {
        let mut pending = Pending::Line;
        core::mem::swap(&mut self.pending, &mut pending);
        let step = react(pending, self.last_status, event);
        match step.next {
            Next::Done(Outcome::Continue(status)) => {
                self.last_status = status;
            },
            Next::Done(Outcome::Terminate(code)) => {
                self.pending = Pending::Exit { code };
            },
            Next::Wait(next) => {
                self.pending = next;
            },
        }
        Output { out: step.out, err: step.err }
    }
}

/// A blank line starts nothing: the shell writes nothing, keeps its
/// status, and waits for the next line.
pub proof fn lemma_blank_line_is_skipped(shell: ShellView, line: Seq<char>)
    requires
        shell.pending == PendingView::Line,
        is_blank(line),
    ensures
        react_step(shell.pending, shell.last_status, EventView::Line(line)) == silent(
            NextView::Wait(PendingView::Line),
        ),
        after_event(shell, EventView::Line(line)) == shell,
{
    lemma_trim_blank(line);
}

/// A line that is not blank starts a command: its first word is not
/// empty.
pub proof fn lemma_command_is_a_word(line: Seq<char>)
    requires
        !is_blank(line),
    ensures
        head(trim(line)).len() > 0,
{
    lemma_trim_blank(line);
    lemma_trim_is_trimmed(line);
    lemma_head_nonempty(trim(line));
}

/// After a command has ended with status `status`, `echo $?` writes that
/// status on a line of its own.
pub proof fn lemma_echo_shows_last_status(
    shell: ShellView,
    step: StepView,
    status: i32,
    line: Seq<char>,
)
    requires
        step.next == NextView::Done(Outcome::Continue(status)),
        head(trim(line)) == "echo"@,
        tail(trim(line)) == "$?"@,
    ensures
        after_step(shell, step).pending == PendingView::Line,
        react_step(
            after_step(shell, step).pending,
            after_step(shell, step).last_status,
            EventView::Line(line),
        ) == answer(decimal(status as int) + "\n"@, 0),
{
    reveal_strlit("echo");
    reveal_strlit("exit");
    assert("echo"@[1] != "exit"@[1]);
    lemma_word_len_bound(trim(line));
}

/// The code with which a program leaves is the shell's next status, and
/// the shell waits for a line again without a word of its own.
pub proof fn lemma_child_code_is_status(shell: ShellView, code: i32)
    requires
        shell.pending is Child,
    ensures
        react_step(shell.pending, shell.last_status, EventView::Child(ChildExitView::Code(code)))
            == silent(NextView::Done(Outcome::Continue(code))),
        after_event(shell, EventView::Child(ChildExitView::Code(code))) == (ShellView {
            last_status: code,
            pending: PendingView::Line,
        }),
{
}

/// `pwd` twice in a row, with the working directory the same, writes the
/// same both times; and between the two the shell asks for no change of
/// directory.
pub proof fn lemma_pwd_twice(shell: ShellView, line: Seq<char>, dir: Result<Seq<char>, Seq<char>>)
    requires
        shell.pending == PendingView::Line,
        head(trim(line)) == "pwd"@,
        tail(trim(line)).len() == 0,
    ensures
        ({
            let asked = after_event(shell, EventView::Line(line));
            let told = after_event(asked, EventView::CurrentDir(dir));
            let asked_again = after_event(told, EventView::Line(line));
            &&& asked.pending == PendingView::CurrentDir
            &&& told.pending == PendingView::Line
            &&& asked_again.pending == PendingView::CurrentDir
            &&& react_step(asked_again.pending, asked_again.last_status, EventView::CurrentDir(dir))
                == react_step(asked.pending, asked.last_status, EventView::CurrentDir(dir))
        }),
{
    reveal_strlit("pwd");
    reveal_strlit("exit");
    reveal_strlit("echo");
    reveal_strlit("type");
    assert("pwd"@.len() != "exit"@.len());
    assert("pwd"@.len() != "echo"@.len());
    assert("pwd"@.len() != "type"@.len());
    lemma_word_len_bound(trim(line));
}

/// An event that does not answer what the shell waits for changes nothing
/// and has nothing written.
pub proof fn lemma_stray_event_changes_nothing(shell: ShellView, event: EventView)
    requires
        !answers(shell.pending, event),
    ensures
        react_step(shell.pending, shell.last_status, event) == silent(
            NextView::Wait(shell.pending),
        ),
        after_event(shell, event) == shell,
{
}

/// A shell that waits for its exit stays there.
pub proof fn lemma_exit_is_final(shell: ShellView, event: EventView)
    requires
        shell.pending is Exit,
    ensures
        after_event(shell, event) == shell,
{
}

/// The shell ends by the end of its input, then with code 0, or by an
/// `exit` command, and in no other way: no failure of a command ends it.
pub proof fn lemma_only_exit_ends_the_shell(shell: ShellView, event: EventView)
    requires
        ends_shell(react_step(shell.pending, shell.last_status, event)),
    ensures
        shell.pending == PendingView::Line,
        event matches EventView::Line(line) ==> head(trim(line)) == "exit"@,
        event is EndOfInput ==> after_event(shell, event).pending == (PendingView::Exit {
            code: 0,
        }),
        event is Line || event is EndOfInput,
{
    match (shell.pending, event) {
        (PendingView::Line, EventView::Line(line)) => {
            lemma_type_goes_on(tail(trim(line)), false);
        },
        (PendingView::SearchPath { name, purpose }, EventView::SearchPath(path)) => {
            lemma_search_goes_on(name, purpose, candidates(path, name));
        },
        (
            PendingView::Probe { name, candidate, later, purpose },
            EventView::Probed(present),
        ) => {
            lemma_search_goes_on(name, purpose, later);
            lemma_resolved_goes_on(name, purpose, Some(candidate));
        },
        _ => {},
    }
}

} // verus!
