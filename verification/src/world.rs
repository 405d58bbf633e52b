//! What a whole command comes to.
//!
//! The shell takes a command one step at a time, and the host answers
//! between the steps. Here the host is a fixed [`World`]: which paths
//! exist, where home is, how a program ends. [`settle`] runs the steps of
//! a command against it, and [`command_result`] says outright what each
//! command means. The two agree: that is [`lemma_command_settles`].

use crate::builtins::{
    cd_report_step, cd_step, echo_step, exit_step, home_expanded, is_builtin, is_home_relative,
    pwd_report_step, written_path,
};
use crate::lookup::{candidates, first_existing, resolved_step, search_step, type_step};
use crate::protocol::{
    after_output, complaint, ends_shell, silent, ChildExitView, EventView, NextView, Outcome,
    PendingView, PurposeView, StepView, NOT_FOUND_CODE,
};
use crate::runner::child_step;
use crate::shell::{dispatch_step, react_step};
use crate::text::trim;
use crate::tokenizer::{head, lemma_tail_shorter, lemma_word_len_bound, tail};
use vstd::prelude::*;

verus! {

/// The world as one command finds it.
pub struct World {
    /// The search path variable, where it is set.
    pub search_path: Option<Seq<char>>,
    /// Which paths exist.
    pub present: spec_fn(Seq<char>) -> bool,
    /// The working directory, or the reason why it cannot be told.
    pub working_dir: Result<Seq<char>, Seq<char>>,
    /// The home directory, where there is one.
    pub home: Option<Seq<char>>,
    /// Which directories can be changed to.
    pub enters: spec_fn(Seq<char>) -> bool,
    /// How the program at a path ends when run with an argument.
    pub runs: spec_fn(Seq<char>, Seq<char>) -> ChildExitView,
}

/// The answer of a host in `world` to what the shell waits for. While it
/// waits for a line or for its exit a command is over and no answer is
/// due; what stands here for those is never used.
pub open spec fn host_answer(world: World, pending: PendingView) -> EventView {
    match pending {
        PendingView::SearchPath { .. } => EventView::SearchPath(world.search_path),
        PendingView::Probe { candidate, .. } => EventView::Probed((world.present)(candidate)),
        PendingView::Child { path, arg } => EventView::Child((world.runs)(path, arg)),
        PendingView::CurrentDir => EventView::CurrentDir(world.working_dir),
        PendingView::HomeDir { .. } => EventView::HomeDir(world.home),
        PendingView::DirChange { target, .. } => EventView::DirChanged((world.enters)(target)),
        PendingView::Line | PendingView::Exit { .. } => EventView::EndOfInput,
    }
}

/// Whether a command is over at `next`: it has ended, or the shell waits
/// for a line or its exit.
pub open spec fn is_settled(next: NextView) -> bool {
    match next {
        NextView::Done(_) => true,
        NextView::Wait(pending) => pending is Line || pending is Exit,
    }
}

/// `step` and the step after it, taken as one: the host in `world` answers
/// what `step` waits for, and what the shell writes then follows what it
/// wrote before. The last status plays no part once a command is under
/// way ([`lemma_status_plays_no_part`]), so none is given.
pub open spec fn and_then(step: StepView, world: World) -> StepView {
    match step.next {
        NextView::Wait(pending) => {
            let then = react_step(pending, 0, host_answer(world, pending));
            StepView { out: step.out + then.out, err: step.err + then.err, next: then.next }
        },
        NextView::Done(_) => step,
    }
}

/// How far a command is from its end, at most: the length of the names
/// that `type` has still to take, then the stage of the one in hand, then
/// the number of candidates still to try.
pub open spec fn distance(next: NextView) -> (nat, nat, nat) {
    match next {
        NextView::Wait(PendingView::SearchPath { purpose, .. }) => (names_left(purpose), 3, 0),
        NextView::Wait(PendingView::Probe { later, purpose, .. }) => (
            names_left(purpose),
            2,
            later.len(),
        ),
        NextView::Wait(PendingView::HomeDir { .. }) => (0, 2, 0),
        NextView::Wait(PendingView::Child { .. }) => (0, 1, 0),
        NextView::Wait(PendingView::CurrentDir) => (0, 1, 0),
        NextView::Wait(PendingView::DirChange { .. }) => (0, 1, 0),
        _ => (0, 0, 0),
    }
}

/// The length of the names that come after a search.
pub open spec fn names_left(purpose: PurposeView) -> nat {
    match purpose {
        PurposeView::Run { .. } => 0,
        PurposeView::Type { rest, .. } => rest.len(),
    }
}

/// Whether `near` is nearer the end of a command than `far`.
pub open spec fn nearer(near: (nat, nat, nat), far: (nat, nat, nat)) -> bool {
    near.0 < far.0 || (near.0 == far.0 && (near.1 < far.1 || (near.1 == far.1 && near.2
        < far.2)))
}

/// `type` stops at a search with fewer names to come, or at its end.
pub proof fn lemma_type_step_distance(params: Seq<char>, found_any: bool)
    ensures
        distance(type_step(params, found_any).next) == (0nat, 0nat, 0nat) || (distance(
            type_step(params, found_any).next,
        ).0 < params.len() && distance(type_step(params, found_any).next).1 == 3),
    decreases params.len(),
{
    if head(params).len() > 0 {
        lemma_tail_shorter(params);
        if is_builtin(head(params)) {
            lemma_type_step_distance(tail(params), true);
        }
    }
}

/// Each answer of the host brings a command nearer its end.
pub proof fn lemma_and_then_is_nearer(step: StepView, world: World)
    requires
        !is_settled(step.next),
    ensures
        nearer(distance(and_then(step, world).next), distance(step.next)),
{
    match step.next {
        NextView::Wait(PendingView::SearchPath { name, purpose }) => {
            lemma_resolved_distance(name, purpose, None);
        },
        NextView::Wait(PendingView::Probe { name, candidate, later, purpose }) => {
            lemma_resolved_distance(name, purpose, None);
            lemma_resolved_distance(name, purpose, Some(candidate));
        },
        _ => {},
    }
}

/// The end of a search leaves fewer names to come, or none and a program
/// to run.
proof fn lemma_resolved_distance(name: Seq<char>, purpose: PurposeView, found: Option<Seq<char>>)
    ensures
        nearer(distance(resolved_step(name, purpose, found).next), (names_left(purpose), 2, 0)),
{
    match purpose {
        PurposeView::Type { rest, found_any } => {
            lemma_type_step_distance(rest, found_any);
            lemma_type_step_distance(rest, true);
        },
        _ => {},
    }
}

/// The steps of a command from `step` on, taken as one: all that is
/// written, and where the command leaves the shell.
pub open spec fn settle(step: StepView, world: World) -> StepView
    decreases distance(step.next).0, distance(step.next).1, distance(step.next).2,
{
    if is_settled(step.next) {
        step
    } else {
        proof {
            lemma_and_then_is_nearer(step, world);
        }
        settle(and_then(step, world), world)
    }
}

/// The path of the command `name`: the first of its candidates that
/// exists.
pub open spec fn found_at(world: World, name: Seq<char>) -> Option<Seq<char>> {
    first_existing(candidates(world.search_path, name), world.present)
}

/// What `type` comes to: a line for each name from left to right, and
/// status 0 where a name is a builtin or a command that is found, or one
/// was found before (`found_any`); else status 1.
pub open spec fn type_result(params: Seq<char>, found_any: bool, world: World) -> StepView
    decreases params.len(),
{
    let name = head(params);
    if name.len() == 0 {
        silent(
            NextView::Done(
                Outcome::Continue(
                    if found_any {
                        0
                    } else {
                        1
                    },
                ),
            ),
        )
    } else {
        proof {
            lemma_tail_shorter(params);
        }
        if is_builtin(name) {
            after_output(name + " is a shell builtin\n"@, type_result(tail(params), true, world))
        } else {
            match found_at(world, name) {
                Some(path) => after_output(
                    name + " is "@ + written_path(path, true),
                    type_result(tail(params), true, world),
                ),
                None => after_output(
                    name + " not found\n"@,
                    type_result(tail(params), found_any, world),
                ),
            }
        }
    }
}

/// What `pwd` comes to: an error for a parameter, else the working
/// directory.
pub open spec fn pwd_result(params: Seq<char>, world: World) -> StepView {
    if params.len() > 0 {
        complaint("pwd: expected 0 arguments\n"@, 2)
    } else {
        pwd_report_step(world.working_dir)
    }
}

/// The directory that `cd` changes to for `shown`: `shown` itself, or,
/// where it is written from home, `shown` with the home directory in place
/// of the `~`; none where that is asked for and there is no home.
pub open spec fn cd_target(shown: Seq<char>, world: World) -> Option<Seq<char>> {
    if !is_home_relative(shown) {
        Some(shown)
    } else {
        match world.home {
            Some(home) => Some(home_expanded(shown, home)),
            None => None,
        }
    }
}

/// What `cd` comes to: an error for a second word, or for a directory
/// written from home where there is no home; else the change to the
/// directory and its report.
pub open spec fn cd_result(params: Seq<char>, world: World) -> StepView {
    let shown = if params.len() == 0 {
        "~"@
    } else {
        head(params)
    };
    if params.len() > 0 && tail(params).len() > 0 {
        complaint("Too many args for cd command\n"@, 1)
    } else {
        match cd_target(shown, world) {
            Some(target) => cd_report_step(shown, (world.enters)(target)),
            None => complaint("Failed to get home dir\n"@, 1),
        }
    }
}

/// What a command that is no builtin comes to: the end of the program
/// found for it, run with the parameter text; or, where there is none, the
/// report of that.
pub open spec fn run_result(name: Seq<char>, params: Seq<char>, world: World) -> StepView {
    match found_at(world, name) {
        Some(path) => child_step((world.runs)(path, params)),
        None => complaint(name + ": command not found\n"@, NOT_FOUND_CODE),
    }
}

/// What the command on `line` comes to in `world`.
pub open spec fn command_result(line: Seq<char>, last_status: i32, world: World) -> StepView {
    let input = trim(line);
    let command = head(input);
    let params = tail(input);
    if input.len() == 0 {
        silent(NextView::Wait(PendingView::Line))
    } else if command == "exit"@ {
        exit_step(params)
    } else if command == "echo"@ {
        echo_step(params, last_status)
    } else if command == "type"@ {
        type_result(params, false, world)
    } else if command == "pwd"@ {
        pwd_result(params, world)
    } else if command == "cd"@ {
        cd_result(params, world)
    } else {
        run_result(command, params, world)
    }
}

/// A step that writes nothing and waits, taken with the next, is the next.
proof fn lemma_silent_and_then(pending: PendingView, world: World)
    ensures
        and_then(silent(NextView::Wait(pending)), world) == react_step(
            pending,
            0,
            host_answer(world, pending),
        ),
{
    let then = react_step(pending, 0, host_answer(world, pending));
    assert(Seq::<char>::empty() + then.out =~= then.out);
    assert(Seq::<char>::empty() + then.err =~= then.err);
}

/// A step that writes nothing and waits settles as the next step does.
proof fn lemma_settle_silent(pending: PendingView, world: World)
    requires
        !is_settled(NextView::Wait(pending)),
    ensures
        settle(silent(NextView::Wait(pending)), world) == settle(
            react_step(pending, 0, host_answer(world, pending)),
            world,
        ),
{
    lemma_silent_and_then(pending, world);
}

/// What was written before a step stays before all that follows.
pub proof fn lemma_settle_after_output(out: Seq<char>, step: StepView, world: World)
    ensures
        settle(after_output(out, step), world) == after_output(out, settle(step, world)),
    decreases distance(step.next).0, distance(step.next).1, distance(step.next).2,
{
    if !is_settled(step.next) {
        lemma_and_then_is_nearer(step, world);
        let first = and_then(step, world);
        let whole = and_then(after_output(out, step), world);
        assert(whole.out =~= out + first.out);
        assert(whole == after_output(out, first));
        lemma_settle_after_output(out, first, world);
    }
}

/// A search settles as its end does: on the first candidate that exists.
pub proof fn lemma_settle_search(
    name: Seq<char>,
    purpose: PurposeView,
    remaining: Seq<Seq<char>>,
    world: World,
)
    ensures
        settle(search_step(name, purpose, remaining), world) == settle(
            resolved_step(name, purpose, first_existing(remaining, world.present)),
            world,
        ),
    decreases remaining.len(),
{
    if remaining.len() > 0 {
        let later = remaining.drop_first();
        lemma_settle_silent(
            PendingView::Probe { name, candidate: remaining[0], later, purpose },
            world,
        );
        if !(world.present)(remaining[0]) {
            lemma_settle_search(name, purpose, later, world);
        }
    }
}

/// `type` settles as [`type_result`] says.
pub proof fn lemma_settle_type(params: Seq<char>, found_any: bool, world: World)
    ensures
        settle(type_step(params, found_any), world) == type_result(params, found_any, world),
    decreases params.len(),
{
    let name = head(params);
    let rest = tail(params);
    if name.len() > 0 {
        lemma_tail_shorter(params);
        if is_builtin(name) {
            lemma_settle_after_output(
                name + " is a shell builtin\n"@,
                type_step(rest, true),
                world,
            );
            lemma_settle_type(rest, true, world);
        } else {
            let purpose = PurposeView::Type { rest, found_any };
            lemma_settle_silent(PendingView::SearchPath { name, purpose }, world);
            lemma_settle_search(name, purpose, candidates(world.search_path, name), world);
            match found_at(world, name) {
                Some(path) => {
                    lemma_settle_after_output(
                        name + " is "@ + written_path(path, true),
                        type_step(rest, true),
                        world,
                    );
                    lemma_settle_type(rest, true, world);
                },
                None => {
                    lemma_settle_after_output(
                        name + " not found\n"@,
                        type_step(rest, found_any),
                        world,
                    );
                    lemma_settle_type(rest, found_any, world);
                },
            }
        }
    }
}

/// The steps that the shell takes for a line, with the host answering from
/// `world`, come to what the command on the line means.
pub proof fn lemma_command_settles(line: Seq<char>, last_status: i32, world: World)
    ensures
        settle(dispatch_step(line, last_status), world) == command_result(
            line,
            last_status,
            world,
        ),
{
    let input = trim(line);
    let command = head(input);
    let params = tail(input);
    if input.len() == 0 {
    } else if command == "exit"@ {
    } else if command == "echo"@ {
    } else if command == "type"@ {
        lemma_settle_type(params, false, world);
    } else if command == "pwd"@ {
        if params.len() == 0 {
            lemma_settle_silent(PendingView::CurrentDir, world);
        }
    } else if command == "cd"@ {
        lemma_cd_settles(params, world);
    } else {
        let purpose = PurposeView::Run { params };
        lemma_settle_silent(PendingView::SearchPath { name: command, purpose }, world);
        lemma_settle_search(command, purpose, candidates(world.search_path, command), world);
        match found_at(world, command) {
            Some(path) => {
                lemma_settle_silent(PendingView::Child { path, arg: params }, world);
            },
            None => {},
        }
    }
}

/// `cd` settles as [`cd_result`] says.
proof fn lemma_cd_settles(params: Seq<char>, world: World)
    ensures
        settle(cd_step(params), world) == cd_result(params, world),
{
    let shown = if params.len() == 0 {
        "~"@
    } else {
        head(params)
    };
    if params.len() > 0 && tail(params).len() > 0 {
    } else if !is_home_relative(shown) {
        lemma_settle_silent(PendingView::DirChange { shown, target: shown }, world);
    } else {
        lemma_settle_silent(PendingView::HomeDir { shown }, world);
        match world.home {
            Some(home) => {
                let target = home_expanded(shown, home);
                lemma_settle_silent(PendingView::DirChange { shown, target }, world);
            },
            None => {},
        }
    }
}

/// The last status bears on the start of a command alone: while the shell
/// waits for anything but a line, its step is the same whatever the status.
pub proof fn lemma_status_plays_no_part(
    pending: PendingView,
    event: EventView,
    status: i32,
    other: i32,
)
    requires
        !(pending is Line),
    ensures
        react_step(pending, status, event) == react_step(pending, other, event),
{
}

/// Whether `name` is a builtin or a command that is found.
pub open spec fn is_known(world: World, name: Seq<char>) -> bool {
    is_builtin(name) || found_at(world, name) is Some
}

/// Whether one of the names in `params` is known.
pub open spec fn any_known(params: Seq<char>, world: World) -> bool
    decreases params.len(),
{
    if head(params).len() == 0 {
        false
    } else {
        proof {
            lemma_tail_shorter(params);
        }
        is_known(world, head(params)) || any_known(tail(params), world)
    }
}

/// `type` has status 0 where at least one of its names is known, and 1
/// where none is; it writes nothing to the standard error stream.
pub proof fn lemma_type_status(params: Seq<char>, found_any: bool, world: World)
    ensures
        type_result(params, found_any, world).next == NextView::Done(
            Outcome::Continue(
                if found_any || any_known(params, world) {
                    0
                } else {
                    1
                },
            ),
        ),
        type_result(params, found_any, world).err == Seq::<char>::empty(),
    decreases params.len(),
{
    if head(params).len() > 0 {
        lemma_tail_shorter(params);
        lemma_type_status(tail(params), true, world);
        lemma_type_status(tail(params), found_any, world);
    }
}

/// A command that is no builtin and is found nowhere is reported by the
/// word that was typed, and the status is the one for that.
pub proof fn lemma_unknown_command_result(line: Seq<char>, last_status: i32, world: World)
    requires
        trim(line).len() > 0,
        !is_known(world, head(trim(line))),
    ensures
        command_result(line, last_status, world) == complaint(
            head(trim(line)) + ": command not found\n"@,
            NOT_FOUND_CODE,
        ),
{
}

/// A program that is found and leaves with a code gives the shell that
/// code as its status, and the shell writes nothing of its own.
pub proof fn lemma_program_code_is_status(
    line: Seq<char>,
    last_status: i32,
    world: World,
    code: i32,
)
    requires
        trim(line).len() > 0,
        !is_builtin(head(trim(line))),
        found_at(world, head(trim(line))) matches Some(path) && (world.runs)(
            path,
            tail(trim(line)),
        ) == ChildExitView::Code(code),
    ensures
        command_result(line, last_status, world) == silent(
            NextView::Done(Outcome::Continue(code)),
        ),
{
}

/// `pwd` writes the same whenever the world is the same, whatever came
/// before.
pub proof fn lemma_pwd_repeats(line: Seq<char>, status: i32, other: i32, world: World)
    requires
        head(trim(line)) == "pwd"@,
    ensures
        command_result(line, status, world) == command_result(line, other, world),
{
    reveal_strlit("pwd");
    reveal_strlit("exit");
    reveal_strlit("echo");
    assert("pwd"@.len() != "exit"@.len());
    assert("pwd"@.len() != "echo"@.len());
}

/// No command but `exit` ends the shell, whatever the world.
pub proof fn lemma_commands_go_on(line: Seq<char>, last_status: i32, world: World)
    requires
        head(trim(line)) != "exit"@,
    ensures
        !ends_shell(command_result(line, last_status, world)),
{
    lemma_type_status(tail(trim(line)), false, world);
}

/// `cd` alone goes home: it comes to the report of the change to the home
/// directory itself.
pub proof fn lemma_cd_alone_result(
    line: Seq<char>,
    last_status: i32,
    world: World,
    home: Seq<char>,
)
    requires
        head(trim(line)) == "cd"@,
        tail(trim(line)).len() == 0,
        world.home == Some(home),
    ensures
        command_result(line, last_status, world) == cd_report_step("~"@, (world.enters)(home)),
{
    reveal_strlit("cd");
    reveal_strlit("exit");
    reveal_strlit("echo");
    reveal_strlit("type");
    reveal_strlit("pwd");
    reveal_strlit("~");
    assert("cd"@.len() != "exit"@.len());
    assert("cd"@.len() != "echo"@.len());
    assert("cd"@.len() != "type"@.len());
    assert("cd"@.len() != "pwd"@.len());
    lemma_word_len_bound(trim(line));
    assert(home + "~"@.skip(1) =~= home);
}

/// `cd` to a directory that cannot be entered has status 1 and names the
/// directory as it was typed, be it written from home or not.
pub proof fn lemma_cd_failure_result(line: Seq<char>, last_status: i32, world: World)
    requires
        head(trim(line)) == "cd"@,
        tail(trim(line)).len() > 0,
        tail(tail(trim(line))).len() == 0,
        cd_target(head(tail(trim(line))), world) matches Some(target) && !(world.enters)(target),
    ensures
        command_result(line, last_status, world) == complaint(
            "cd: "@ + head(tail(trim(line))) + ": No such file or directory\n"@,
            1,
        ),
{
    reveal_strlit("cd");
    reveal_strlit("exit");
    reveal_strlit("echo");
    reveal_strlit("type");
    reveal_strlit("pwd");
    assert("cd"@.len() != "exit"@.len());
    assert("cd"@.len() != "echo"@.len());
    assert("cd"@.len() != "type"@.len());
    assert("cd"@.len() != "pwd"@.len());
    lemma_word_len_bound(trim(line));
}

} // verus!
