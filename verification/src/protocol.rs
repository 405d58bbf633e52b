//! What passes between the shell and its host.
//!
//! The shell decides; the host acts. After each step the shell waits for one
//! thing, a [`Pending`], which tells the host what to do: read a line, test
//! a path, start a program. The host does it and reports back with an
//! [`Event`]. What the shell says meanwhile comes out as the text of a
//! [`Step`].
//!
//! Each type here has a view in which text is a `Seq<char>`.

use vstd::prelude::*;

verus! {

/// The prompt: the host writes it, with no line end, before it reads a
/// line.
pub const PROMPT: &'static str = "$ ";

/// The status of a command that no search path entry provides.
pub const NOT_FOUND_CODE: i32 = 127;

/// The status of a program that a signal ended, before the signal's number
/// is added.
pub const TERMINATED_CODE_BASE: i32 = 128;

/// The status of a program that could not be started.
pub const EXEC_FAILED_CODE: i32 = 777;

/// How a command ended.
#[derive(Clone, Copy, Debug, PartialEq, Eq)]
pub enum Outcome {
    /// The shell goes on, and remembers this status.
    Continue(i32),
    /// The shell ends, and the process leaves with this code.
    Terminate(i32),
}

/// How a program that the host started came to its end.
#[derive(Debug, PartialEq, Eq)]
pub enum ChildExit {
    /// It left with this code.
    Code(i32),
    /// The signal with this number ended it.
    Signal(i32),
    /// It ended, and the host knows neither a code nor a signal.
    Unknown,
    /// It never started; the text is the system's reason.
    LaunchFailed(String),
}

/// The view of a [`ChildExit`].
pub enum ChildExitView {
    Code(i32),
    Signal(i32),
    Unknown,
    LaunchFailed(Seq<char>),
}

impl View for ChildExit {
    type V = ChildExitView;

    open spec fn view(&self) -> ChildExitView {
        match *self {
            ChildExit::Code(code) => ChildExitView::Code(code),
            ChildExit::Signal(signal) => ChildExitView::Signal(signal),
            ChildExit::Unknown => ChildExitView::Unknown,
            ChildExit::LaunchFailed(reason) => ChildExitView::LaunchFailed(reason@),
        }
    }
}

/// What the host reports.
#[derive(Debug, PartialEq, Eq)]
pub enum Event {
    /// A line of input, as it was read.
    Line(String),
    /// The input has ended.
    EndOfInput,
    /// The search path variable, or `None` where it is not set.
    SearchPath(Option<String>),
    /// Whether the path in question exists.
    Probed(bool),
    /// The working directory, or the system's reason for not telling.
    CurrentDir(Result<String, String>),
    /// The home directory, where there is one.
    HomeDir(Option<String>),
    /// Whether the working directory was changed.
    DirChanged(bool),
    /// The end of the program that was started.
    Child(ChildExit),
}

/// The view of an [`Event`].
pub enum EventView {
    Line(Seq<char>),
    EndOfInput,
    SearchPath(Option<Seq<char>>),
    Probed(bool),
    CurrentDir(Result<Seq<char>, Seq<char>>),
    HomeDir(Option<Seq<char>>),
    DirChanged(bool),
    Child(ChildExitView),
}

/// The text of an optional string.
pub open spec fn option_text(text: Option<String>) -> Option<Seq<char>> {
    match text {
        Some(s) => Some(s@),
        None => None,
    }
}

/// The text of an optional string slice.
pub open spec fn option_str_text(text: Option<&str>) -> Option<Seq<char>> {
    match text {
        Some(s) => Some(s@),
        None => None,
    }
}

/// The texts of a result that holds a string slice either way.
pub open spec fn result_str_text(text: Result<&str, &str>) -> Result<Seq<char>, Seq<char>> {
    match text {
        Ok(s) => Ok(s@),
        Err(e) => Err(e@),
    }
}

/// The texts of a result that holds a string either way.
pub open spec fn result_text(text: Result<String, String>) -> Result<Seq<char>, Seq<char>> {
    match text {
        Ok(s) => Ok(s@),
        Err(e) => Err(e@),
    }
}

impl View for Event {
    type V = EventView;

    open spec fn view(&self) -> EventView {
        match *self {
            Event::Line(line) => EventView::Line(line@),
            Event::EndOfInput => EventView::EndOfInput,
            Event::SearchPath(path) => EventView::SearchPath(option_text(path)),
            Event::Probed(exists) => EventView::Probed(exists),
            Event::CurrentDir(dir) => EventView::CurrentDir(result_text(dir)),
            Event::HomeDir(home) => EventView::HomeDir(option_text(home)),
            Event::DirChanged(changed) => EventView::DirChanged(changed),
            Event::Child(exit) => EventView::Child(exit@),
        }
    }
}

/// Why a command name is looked up.
#[derive(Debug, PartialEq, Eq)]
pub enum Purpose {
    /// To run it, with `params` as its argument.
    Run { params: String },
    /// To say what it is. `rest` holds the names still to come, and
    /// `found_any` whether a name before this one was found.
    Type { rest: String, found_any: bool },
}

/// The view of a [`Purpose`].
pub enum PurposeView {
    Run { params: Seq<char> },
    Type { rest: Seq<char>, found_any: bool },
}

impl View for Purpose {
    type V = PurposeView;

    open spec fn view(&self) -> PurposeView {
        match *self {
            Purpose::Run { params } => PurposeView::Run { params: params@ },
            Purpose::Type { rest, found_any } => PurposeView::Type { rest: rest@, found_any },
        }
    }
}

/// What the shell waits for, and so what the host is to do next.
#[derive(Debug, PartialEq, Eq)]
pub enum Pending {
    /// Show the prompt and read a line: answer with [`Event::Line`] or
    /// [`Event::EndOfInput`].
    Line,
    /// Read the search path variable: answer with [`Event::SearchPath`].
    SearchPath { name: String, purpose: Purpose },
    /// Test whether `candidate` exists: answer with [`Event::Probed`].
    /// `later` holds the candidates to try after it, in order.
    Probe { name: String, candidate: String, later: Vec<String>, purpose: Purpose },
    /// Start the program at `path` with `arg` as its one argument and wait
    /// for it: answer with [`Event::Child`].
    Child { path: String, arg: String },
    /// Ask for the working directory: answer with [`Event::CurrentDir`].
    CurrentDir,
    /// Ask for the home directory: answer with [`Event::HomeDir`]. `shown`
    /// is the directory as the user wrote it.
    HomeDir { shown: String },
    /// Change the working directory to `target`: answer with
    /// [`Event::DirChanged`].
    DirChange { shown: String, target: String },
    /// End the process with `code`. Nothing is awaited after it.
    Exit { code: i32 },
}

/// The view of a [`Pending`].
pub enum PendingView {
    Line,
    SearchPath { name: Seq<char>, purpose: PurposeView },
    Probe { name: Seq<char>, candidate: Seq<char>, later: Seq<Seq<char>>, purpose: PurposeView },
    Child { path: Seq<char>, arg: Seq<char> },
    CurrentDir,
    HomeDir { shown: Seq<char> },
    DirChange { shown: Seq<char>, target: Seq<char> },
    Exit { code: i32 },
}

/// The texts of a list of strings.
pub open spec fn texts(list: Seq<String>) -> Seq<Seq<char>> {
    Seq::new(list.len(), |i: int| list[i]@)
}

impl View for Pending {
    type V = PendingView;

    open spec fn view(&self) -> PendingView {
        match *self {
            Pending::Line => PendingView::Line,
            Pending::SearchPath { name, purpose } => PendingView::SearchPath {
                name: name@,
                purpose: purpose@,
            },
            Pending::Probe { name, candidate, later, purpose } => PendingView::Probe {
                name: name@,
                candidate: candidate@,
                later: texts(later@),
                purpose: purpose@,
            },
            Pending::Child { path, arg } => PendingView::Child { path: path@, arg: arg@ },
            Pending::CurrentDir => PendingView::CurrentDir,
            Pending::HomeDir { shown } => PendingView::HomeDir { shown: shown@ },
            Pending::DirChange { shown, target } => PendingView::DirChange {
                shown: shown@,
                target: target@,
            },
            Pending::Exit { code } => PendingView::Exit { code },
        }
    }
}

/// Where a step leaves the shell.
#[derive(Debug, PartialEq, Eq)]
pub enum Next {
    /// The command has ended.
    Done(Outcome),
    /// The command goes on once the host has answered.
    Wait(Pending),
}

/// The view of a [`Next`].
pub enum NextView {
    Done(Outcome),
    Wait(PendingView),
}

impl View for Next {
    type V = NextView;

    open spec fn view(&self) -> NextView {
        match *self {
            Next::Done(outcome) => NextView::Done(outcome),
            Next::Wait(pending) => NextView::Wait(pending@),
        }
    }
}

/// One step of a command: what it writes, and where it leaves the shell.
#[derive(Debug, PartialEq, Eq)]
pub struct Step {
    /// Text for the standard output.
    pub out: String,
    /// Text for the standard error stream.
    pub err: String,
    /// What comes next.
    pub next: Next,
}

/// The view of a [`Step`].
pub struct StepView {
    pub out: Seq<char>,
    pub err: Seq<char>,
    pub next: NextView,
}

impl View for Step {
    type V = StepView;

    open spec fn view(&self) -> StepView {
        StepView { out: self.out@, err: self.err@, next: self.next@ }
    }
}

/// The step that writes nothing and leaves the shell at `next`.
pub open spec fn silent(next: NextView) -> StepView {
    StepView { out: Seq::empty(), err: Seq::empty(), next }
}

/// The step that ends a command with `status` after writing `out` to the
/// standard output.
pub open spec fn answer(out: Seq<char>, status: i32) -> StepView {
    StepView { out, err: Seq::empty(), next: NextView::Done(Outcome::Continue(status)) }
}

/// The step that ends a command with `status` after writing `err` to the
/// standard error stream.
pub open spec fn complaint(err: Seq<char>, status: i32) -> StepView {
    StepView { out: Seq::empty(), err, next: NextView::Done(Outcome::Continue(status)) }
}

/// `step` with `out` written before its own output.
pub open spec fn after_output(out: Seq<char>, step: StepView) -> StepView {
    StepView { out: out + step.out, err: step.err, next: step.next }
}

/// Whether `step` ends the shell.
pub open spec fn ends_shell(step: StepView) -> bool {
    step.next matches NextView::Done(outcome) && outcome is Terminate
}

impl Step {
    /// The step that writes nothing and leaves the shell at `next`.
    pub fn silent(next: Next) -> (step: Step)
        ensures
            step@ == silent(next@),
    {
        Step { out: String::new(), err: String::new(), next }
    }

    /// The step that ends a command with `status` after writing `out` to
    /// the standard output.
    pub fn answer(out: String, status: i32) -> (step: Step)
        ensures
            step@ == answer(out@, status),
    {
        Step { out, err: String::new(), next: Next::Done(Outcome::Continue(status)) }
    }

    /// The step that ends a command with `status` after writing `err` to
    /// the standard error stream.
    pub fn complaint(err: String, status: i32) -> (step: Step)
        ensures
            step@ == complaint(err@, status),
    {
        Step { out: String::new(), err, next: Next::Done(Outcome::Continue(status)) }
    }
}

} // verus!
