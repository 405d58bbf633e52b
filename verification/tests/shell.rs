use minishell::protocol::{ChildExit, Event, Pending, Purpose, PROMPT};
use minishell::shell::{dispatch, react, Output, Shell};

/// A host that answers from what it was told beforehand.
struct Host {
    lines: Vec<String>,
    search_path: Option<String>,
    existing: Vec<String>,
    working_dir: Result<String, String>,
    home: Option<String>,
    dirs: Vec<String>,
    child: ChildExit,
    out: String,
    err: String,
    probes: Vec<String>,
    spawned: Vec<(String, String)>,
}

fn host(lines: &[&str]) -> Host {
    Host {
        lines: lines.iter().rev().map(|l| format!("{}\n", l)).collect(),
        search_path: Some("/usr/bin:/bin".to_string()),
        existing: vec!["/bin/ls".to_string(), "/usr/bin/env".to_string(), "/bin/env".to_string()],
        working_dir: Ok("/work".to_string()),
        home: Some("/home/u".to_string()),
        dirs: vec!["/home/u".to_string(), "/tmp".to_string(), "/home/u/src".to_string()],
        child: ChildExit::Code(0),
        out: String::new(),
        err: String::new(),
        probes: Vec::new(),
        spawned: Vec::new(),
    }
}

fn copy(exit: &ChildExit) -> ChildExit {
    match exit {
        ChildExit::Code(code) => ChildExit::Code(*code),
        ChildExit::Signal(signal) => ChildExit::Signal(*signal),
        ChildExit::Unknown => ChildExit::Unknown,
        ChildExit::LaunchFailed(reason) => ChildExit::LaunchFailed(reason.clone()),
    }
}

/// Runs the shell against the host until it asks to exit; returns the code.
fn drive(shell: &mut Shell, host: &mut Host) -> i32 {
    loop {
        let event = match shell.pending() {
            Pending::Line => match host.lines.pop() {
                Some(line) => Event::Line(line),
                None => Event::EndOfInput,
            },
            Pending::SearchPath { .. } => Event::SearchPath(host.search_path.clone()),
            Pending::Probe { candidate, .. } => {
                host.probes.push(candidate.clone());
                Event::Probed(host.existing.contains(candidate))
            }
            Pending::Child { path, arg } => {
                host.spawned.push((path.clone(), arg.clone()));
                Event::Child(copy(&host.child))
            }
            Pending::CurrentDir => Event::CurrentDir(host.working_dir.clone()),
            Pending::HomeDir { .. } => Event::HomeDir(host.home.clone()),
            Pending::DirChange { target, .. } => {
                let known = host.dirs.contains(target);
                if known {
                    host.working_dir = Ok(target.clone());
                }
                Event::DirChanged(known)
            }
            Pending::Exit { code } => return *code,
        };
        let output = shell.handle(event);
        host.out.push_str(&output.out);
        host.err.push_str(&output.err);
    }
}

fn session(lines: &[&str]) -> (Shell, Host, i32) {
    let mut shell = Shell::new();
    let mut host = host(lines);
    let code = drive(&mut shell, &mut host);
    (shell, host, code)
}

fn nothing() -> Output {
    Output { out: String::new(), err: String::new() }
}

#[test]
fn prompt_text() {
    assert_eq!(PROMPT, "$ ");
}

#[test]
fn new_shell_waits_for_a_line_with_status_zero() {
    let shell = Shell::new();
    assert_eq!(shell.last_status(), 0);
    assert_eq!(shell.pending(), &Pending::Line);
}

#[test]
fn blank_lines_start_nothing() {
    for line in ["\n", "", "   \n", "\t \r\n", "\u{3000}\n"] {
        let mut shell = Shell { last_status: 42, pending: Pending::Line };
        assert_eq!(shell.handle(Event::Line(line.to_string())), nothing());
        assert_eq!(shell, Shell { last_status: 42, pending: Pending::Line });
    }
}

#[test]
fn end_of_input_ends_the_shell_with_zero() {
    let mut shell = Shell { last_status: 9, pending: Pending::Line };
    assert_eq!(shell.handle(Event::EndOfInput), nothing());
    assert_eq!(shell.pending(), &Pending::Exit { code: 0 });
    let (_, host, code) = session(&[]);
    assert_eq!(code, 0);
    assert_eq!(host.out, "");
    assert_eq!(host.err, "");
}

#[test]
fn exit_alone_leaves_with_zero() {
    let (_, host, code) = session(&["exit", "echo never"]);
    assert_eq!(code, 0);
    assert_eq!(host.out, "");
}

#[test]
fn exit_three_leaves_with_three() {
    let (_, host, code) = session(&["exit 3", "echo never"]);
    assert_eq!(code, 3);
    assert_eq!(host.out, "");
    assert_eq!(host.err, "");
}

#[test]
fn exit_abc_goes_on_with_status_two() {
    let (_, host, code) = session(&["exit abc", "echo $?"]);
    assert_eq!(host.err, "exit: abc: invalid integer\n");
    assert_eq!(host.out, "2\n");
    assert_eq!(code, 0);
}

#[test]
fn exit_one_two_goes_on_with_status_two() {
    let (_, host, code) = session(&["exit 1 2", "echo $?"]);
    assert_eq!(host.err, "exit: too many arguments\n");
    assert_eq!(host.out, "2\n");
    assert_eq!(code, 0);
}

#[test]
fn exit_out_of_range_goes_on_with_status_two() {
    let (_, host, _) = session(&["exit 99999999999", "echo $?"]);
    assert_eq!(host.err, "exit: 99999999999: invalid integer\n");
    assert_eq!(host.out, "2\n");
}

#[test]
fn echo_hello_world() {
    let (shell, host, _) = session(&["echo hello world"]);
    assert_eq!(host.out, "hello world\n");
    assert_eq!(host.err, "");
    assert_eq!(shell.last_status(), 0);
}

#[test]
fn echo_surrounded_by_whitespace() {
    let (_, host, _) = session(&["   echo   a  b   "]);
    assert_eq!(host.out, "a  b\n");
}

#[test]
fn echo_status_after_each_command() {
    let (_, host, _) = session(&[
        "echo $?",
        "frob",
        "echo $?",
        "pwd x",
        "echo $?",
        "cd /nowhere",
        "echo $?",
        "type",
        "echo $?",
        "echo $?",
    ]);
    assert_eq!(host.out, "0\n127\n2\n1\n1\n0\n");
}

#[test]
fn type_echo_is_a_builtin() {
    let (shell, host, _) = session(&["type echo"]);
    assert_eq!(host.out, "echo is a shell builtin\n");
    assert_eq!(shell.last_status(), 0);
}

#[test]
fn type_nonexistent_is_not_found() {
    let (shell, host, _) = session(&["type nonexistent_xyz"]);
    assert_eq!(host.out, "nonexistent_xyz not found\n");
    assert_eq!(host.err, "");
    assert_eq!(shell.last_status(), 1);
    assert_eq!(host.probes, vec!["/usr/bin/nonexistent_xyz", "/bin/nonexistent_xyz"]);
}

#[test]
fn type_echo_and_nonexistent_prints_both_and_succeeds() {
    let (shell, host, _) = session(&["type echo nonexistent_xyz"]);
    assert_eq!(host.out, "echo is a shell builtin\nnonexistent_xyz not found\n");
    assert_eq!(shell.last_status(), 0);
    let (shell, host, _) = session(&["type nonexistent_xyz echo"]);
    assert_eq!(host.out, "nonexistent_xyz not found\necho is a shell builtin\n");
    assert_eq!(shell.last_status(), 0);
}

#[test]
fn type_of_a_program_names_its_path() {
    let (shell, host, _) = session(&["type ls env frob cd"]);
    assert_eq!(
        host.out,
        "ls is /bin/ls\nenv is /usr/bin/env\nfrob not found\ncd is a shell builtin\n"
    );
    assert_eq!(shell.last_status(), 0);
    assert_eq!(
        host.probes,
        vec!["/usr/bin/ls", "/bin/ls", "/usr/bin/env", "/usr/bin/frob", "/bin/frob"]
    );
    assert!(host.spawned.is_empty());
}

#[test]
fn type_without_names_fails() {
    let (shell, host, _) = session(&["type"]);
    assert_eq!(host.out, "");
    assert_eq!(shell.last_status(), 1);
}

#[test]
fn type_without_search_path() {
    let mut shell = Shell::new();
    let mut host = host(&["type ls echo"]);
    host.search_path = None;
    drive(&mut shell, &mut host);
    assert_eq!(host.out, "ls not found\necho is a shell builtin\n");
    assert!(host.probes.is_empty());
    assert_eq!(shell.last_status(), 0);
}

#[test]
fn pwd_prints_the_working_directory() {
    let (shell, host, _) = session(&["pwd"]);
    assert_eq!(host.out, "/work\n");
    assert_eq!(shell.last_status(), 0);
}

#[test]
fn pwd_twice_prints_the_same() {
    let (_, host, _) = session(&["pwd", "pwd"]);
    assert_eq!(host.out, "/work\n/work\n");
    let (_, host, _) = session(&["pwd", "echo x", "type ls", "frob", "pwd"]);
    assert_eq!(host.out, "/work\nx\nls is /bin/ls\n/work\n");
}

#[test]
fn pwd_with_argument_is_a_usage_error() {
    let (shell, host, _) = session(&["pwd now"]);
    assert_eq!(host.out, "");
    assert_eq!(host.err, "pwd: expected 0 arguments\n");
    assert_eq!(shell.last_status(), 2);
}

#[test]
fn pwd_failure_has_status_two() {
    let mut shell = Shell::new();
    let mut host = host(&["pwd"]);
    host.working_dir = Err("gone".to_string());
    drive(&mut shell, &mut host);
    assert_eq!(host.err, "failed to get pwd gone\n");
    assert_eq!(shell.last_status(), 2);
}

#[test]
fn cd_alone_changes_to_the_home_directory() {
    let (shell, host, _) = session(&["cd", "pwd"]);
    assert_eq!(host.out, "/home/u\n");
    assert_eq!(host.err, "");
    assert_eq!(shell.last_status(), 0);
}

#[test]
fn cd_nonexistent_keeps_the_directory() {
    let (_, host, _) = session(&["cd /nonexistent_path_xyz", "echo $?", "pwd"]);
    assert_eq!(host.err, "cd: /nonexistent_path_xyz: No such file or directory\n");
    assert_eq!(host.out, "1\n/work\n");
}

#[test]
fn cd_expands_the_tilde() {
    let (_, host, _) = session(&["cd ~/src", "pwd", "cd /tmp", "pwd", "cd ~", "pwd"]);
    assert_eq!(host.out, "/home/u/src\n/tmp\n/home/u\n");
    assert_eq!(host.err, "");
}

#[test]
fn cd_failure_names_the_unexpanded_input() {
    let (shell, host, _) = session(&["cd ~/missing"]);
    assert_eq!(host.err, "cd: ~/missing: No such file or directory\n");
    assert_eq!(shell.last_status(), 1);
}

#[test]
fn cd_without_home_fails() {
    let mut shell = Shell::new();
    let mut host = host(&["cd", "cd ~/src", "pwd"]);
    host.home = None;
    drive(&mut shell, &mut host);
    assert_eq!(host.err, "Failed to get home dir\nFailed to get home dir\n");
    assert_eq!(host.out, "/work\n");
}

#[test]
fn cd_with_two_arguments_fails_without_a_change() {
    let (_, host, _) = session(&["cd /tmp /home/u", "echo $?", "pwd"]);
    assert_eq!(host.err, "Too many args for cd command\n");
    assert_eq!(host.out, "1\n/work\n");
}

#[test]
fn external_command_runs_with_one_argument() {
    let (_, host, _) = session(&["ls -l  /tmp", "env"]);
    assert_eq!(
        host.spawned,
        vec![
            ("/bin/ls".to_string(), "-l  /tmp".to_string()),
            ("/usr/bin/env".to_string(), String::new())
        ]
    );
    assert_eq!(host.probes, vec!["/usr/bin/ls", "/bin/ls", "/usr/bin/env"]);
}

#[test]
fn external_exit_code_becomes_the_last_status() {
    let mut shell = Shell::new();
    let mut host = host(&["ls", "echo $?"]);
    host.child = ChildExit::Code(5);
    drive(&mut shell, &mut host);
    assert_eq!(host.out, "5\n");
    assert_eq!(host.err, "");
}

#[test]
fn external_signal_becomes_base_plus_signal() {
    let mut shell = Shell::new();
    let mut host = host(&["ls", "echo $?"]);
    host.child = ChildExit::Signal(2);
    drive(&mut shell, &mut host);
    assert_eq!(host.err, "Process was terminated with signal 2\n");
    assert_eq!(host.out, "130\n");
}

#[test]
fn external_launch_failure_has_the_reserved_status() {
    let mut shell = Shell::new();
    let mut host = host(&["ls", "echo $?"]);
    host.child = ChildExit::LaunchFailed("Exec format error (os error 8)".to_string());
    drive(&mut shell, &mut host);
    assert_eq!(
        host.err,
        "Failed to execute, error: Exec format error (os error 8); set last exit code to 777\n"
    );
    assert_eq!(host.out, "777\n");
}

#[test]
fn unknown_command_is_not_found() {
    let (shell, host, _) = session(&["nonexistent_xyz --flag"]);
    assert_eq!(host.err, "nonexistent_xyz: command not found\n");
    assert_eq!(host.out, "");
    assert_eq!(shell.last_status(), 127);
    assert!(host.spawned.is_empty());
}

#[test]
fn commands_are_matched_exactly() {
    let (_, host, _) = session(&["Echo x", "echox", "exit3"]);
    assert_eq!(
        host.err,
        "Echo: command not found\nechox: command not found\nexit3: command not found\n"
    );
}

#[test]
fn stray_events_change_nothing() {
    let mut shell = Shell { last_status: 3, pending: Pending::CurrentDir };
    for event in [
        Event::Line("echo x\n".to_string()),
        Event::EndOfInput,
        Event::Probed(true),
        Event::DirChanged(true),
        Event::Child(ChildExit::Code(1)),
        Event::HomeDir(None),
        Event::SearchPath(None),
    ] {
        assert_eq!(shell.handle(event), nothing());
        assert_eq!(shell, Shell { last_status: 3, pending: Pending::CurrentDir });
    }
}

#[test]
fn exit_is_final() {
    let mut shell = Shell { last_status: 3, pending: Pending::Exit { code: 4 } };
    for event in [Event::Line("echo x\n".to_string()), Event::EndOfInput, Event::Probed(true)] {
        assert_eq!(shell.handle(event), nothing());
        assert_eq!(shell, Shell { last_status: 3, pending: Pending::Exit { code: 4 } });
    }
}

#[test]
fn dispatch_routes_by_the_first_word() {
    assert_eq!(dispatch("echo hi\n", 0).out, "hi\n");
    assert_eq!(
        dispatch("ls -a\n", 0).next,
        minishell::protocol::Next::Wait(Pending::SearchPath {
            name: "ls".to_string(),
            purpose: Purpose::Run { params: "-a".to_string() }
        })
    );
    assert_eq!(
        dispatch("pwd\n", 0).next,
        minishell::protocol::Next::Wait(Pending::CurrentDir)
    );
}

#[test]
fn react_answers_what_is_pending() {
    let step = react(
        Pending::DirChange { shown: "x".to_string(), target: "x".to_string() },
        7,
        Event::DirChanged(false),
    );
    assert_eq!(step.err, "cd: x: No such file or directory\n");
    let step = react(
        Pending::Child { path: "/bin/ls".to_string(), arg: String::new() },
        7,
        Event::Child(ChildExit::Unknown),
    );
    assert_eq!(
        step.next,
        minishell::protocol::Next::Done(minishell::protocol::Outcome::Continue(128))
    );
}

#[test]
fn exit_with_whitespace_around() {
    let (_, _, code) = session(&["  exit   7  ", "echo never"]);
    assert_eq!(code, 7);
    let (_, _, code) = session(&["exit\t-2"]);
    assert_eq!(code, -2);
}

#[test]
fn exit_keeps_the_last_status() {
    let mut shell = Shell { last_status: 5, pending: Pending::Line };
    assert_eq!(shell.handle(Event::Line("exit 9\n".to_string())), nothing());
    assert_eq!(shell, Shell { last_status: 5, pending: Pending::Exit { code: 9 } });
}

#[test]
fn status_is_overwritten_by_each_command() {
    let (shell, _, _) = session(&["frob", "echo x"]);
    assert_eq!(shell.last_status(), 0);
    let (shell, _, _) = session(&["echo x", "frob"]);
    assert_eq!(shell.last_status(), 127);
    let (shell, _, _) = session(&["frob", "", "   "]);
    assert_eq!(shell.last_status(), 127);
}

#[test]
fn search_path_is_read_for_each_lookup() {
    let mut shell = Shell::new();
    assert_eq!(shell.handle(Event::Line("ls\n".to_string())), nothing());
    assert_eq!(
        shell.pending(),
        &Pending::SearchPath {
            name: "ls".to_string(),
            purpose: Purpose::Run { params: String::new() }
        }
    );
    assert_eq!(shell.handle(Event::SearchPath(Some("/a:/b".to_string()))), nothing());
    assert_eq!(
        shell.pending(),
        &Pending::Probe {
            name: "ls".to_string(),
            candidate: "/a/ls".to_string(),
            later: vec!["/b/ls".to_string()],
            purpose: Purpose::Run { params: String::new() },
        }
    );
    assert_eq!(shell.handle(Event::Probed(false)), nothing());
    assert_eq!(shell.handle(Event::Probed(true)), nothing());
    assert_eq!(
        shell.pending(),
        &Pending::Child { path: "/b/ls".to_string(), arg: String::new() }
    );
    assert_eq!(shell.handle(Event::Child(ChildExit::Code(3))), nothing());
    assert_eq!(shell, Shell { last_status: 3, pending: Pending::Line });
}
