use minishell::lookup::{
    candidates_for, command_type, find_executable, probed, resolved, search, search_dirs,
    type_names,
};
use minishell::protocol::{Next, Outcome, Pending, Purpose, Step};

fn strings(list: &[&str]) -> Vec<String> {
    list.iter().map(|s| s.to_string()).collect()
}

fn run(params: &str) -> Purpose {
    Purpose::Run { params: params.to_string() }
}

fn describe(rest: &str, found_any: bool) -> Purpose {
    Purpose::Type { rest: rest.to_string(), found_any }
}

fn done(out: &str, err: &str, status: i32) -> Step {
    Step {
        out: out.to_string(),
        err: err.to_string(),
        next: Next::Done(Outcome::Continue(status)),
    }
}

fn wait(out: &str, pending: Pending) -> Step {
    Step { out: out.to_string(), err: String::new(), next: Next::Wait(pending) }
}

#[test]
fn search_dirs_splits_at_colons() {
    assert_eq!(search_dirs("/usr/bin:/bin"), strings(&["/usr/bin", "/bin"]));
    assert_eq!(search_dirs("/usr/local/bin"), strings(&["/usr/local/bin"]));
    assert_eq!(search_dirs("a:b:c"), strings(&["a", "b", "c"]));
}

#[test]
fn search_dirs_keeps_empty_entries() {
    assert_eq!(search_dirs(""), strings(&[""]));
    assert_eq!(search_dirs(":"), strings(&["", ""]));
    assert_eq!(search_dirs("a::b"), strings(&["a", "", "b"]));
    assert_eq!(search_dirs(":a:"), strings(&["", "a", ""]));
    assert_eq!(search_dirs("/ü:/é"), strings(&["/ü", "/é"]));
}

#[test]
fn candidates_one_per_directory_in_order() {
    assert_eq!(
        candidates_for(Some("/usr/bin:/bin:/opt/x"), "ls"),
        strings(&["/usr/bin/ls", "/bin/ls", "/opt/x/ls"])
    );
    assert_eq!(candidates_for(Some("/bin"), "cat"), strings(&["/bin/cat"]));
}

#[test]
fn candidates_none_without_search_path_or_name() {
    assert_eq!(candidates_for(None, "ls"), Vec::<String>::new());
    assert_eq!(candidates_for(Some("/usr/bin:/bin"), ""), Vec::<String>::new());
    assert_eq!(candidates_for(None, ""), Vec::<String>::new());
}

#[test]
fn find_executable_asks_about_the_first_candidate() {
    assert_eq!(
        find_executable(Some("/usr/bin:/bin"), "ls".to_string(), run("-l")),
        wait(
            "",
            Pending::Probe {
                name: "ls".to_string(),
                candidate: "/usr/bin/ls".to_string(),
                later: strings(&["/bin/ls"]),
                purpose: run("-l"),
            }
        )
    );
}

#[test]
fn find_executable_without_search_path_finds_nothing() {
    assert_eq!(
        find_executable(None, "ls".to_string(), run("")),
        done("", "ls: command not found\n", 127)
    );
}

#[test]
fn probed_takes_the_first_that_exists() {
    assert_eq!(
        probed(
            "ls".to_string(),
            "/usr/bin/ls".to_string(),
            strings(&["/bin/ls"]),
            run("-l /tmp"),
            true
        ),
        wait("", Pending::Child { path: "/usr/bin/ls".to_string(), arg: "-l /tmp".to_string() })
    );
}

#[test]
fn probed_goes_on_to_the_next_candidate() {
    assert_eq!(
        probed(
            "ls".to_string(),
            "/usr/bin/ls".to_string(),
            strings(&["/bin/ls", "/opt/ls"]),
            run(""),
            false
        ),
        wait(
            "",
            Pending::Probe {
                name: "ls".to_string(),
                candidate: "/bin/ls".to_string(),
                later: strings(&["/opt/ls"]),
                purpose: run(""),
            }
        )
    );
}

#[test]
fn probed_after_the_last_candidate_is_not_found() {
    assert_eq!(
        probed("frob".to_string(), "/bin/frob".to_string(), Vec::new(), run("x"), false),
        done("", "frob: command not found\n", 127)
    );
}

#[test]
fn search_of_nothing_is_not_found() {
    assert_eq!(
        search("frob".to_string(), run(""), Vec::new()),
        done("", "frob: command not found\n", 127)
    );
    assert_eq!(
        search("frob".to_string(), describe("", false), Vec::new()),
        done("frob not found\n", "", 1)
    );
}

#[test]
fn resolved_to_run_starts_the_program() {
    assert_eq!(
        resolved("ls", run("a b"), Some("/bin/ls".to_string())),
        wait("", Pending::Child { path: "/bin/ls".to_string(), arg: "a b".to_string() })
    );
}

#[test]
fn resolved_to_describe_writes_a_line() {
    assert_eq!(
        resolved("ls", describe("", false), Some("/bin/ls".to_string())),
        done("ls is /bin/ls\n", "", 0)
    );
    assert_eq!(resolved("ls", describe("", false), None), done("ls not found\n", "", 1));
    assert_eq!(resolved("ls", describe("", true), None), done("ls not found\n", "", 0));
}

#[test]
fn resolved_to_describe_goes_on_with_the_rest() {
    assert_eq!(
        resolved("ls", describe("echo cd", false), None),
        done("ls not found\necho is a shell builtin\ncd is a shell builtin\n", "", 0)
    );
    assert_eq!(
        resolved("ls", describe("echo cat", false), Some("/bin/ls".to_string())),
        wait(
            "ls is /bin/ls\necho is a shell builtin\n",
            Pending::SearchPath { name: "cat".to_string(), purpose: describe("", true) }
        )
    );
}

#[test]
fn type_of_a_builtin() {
    assert_eq!(command_type("echo"), done("echo is a shell builtin\n", "", 0));
    for name in ["exit", "type", "pwd", "cd"] {
        assert_eq!(
            command_type(name),
            done(&format!("{} is a shell builtin\n", name), "", 0)
        );
    }
}

#[test]
fn type_of_nothing_fails() {
    assert_eq!(command_type(""), done("", "", 1));
    assert_eq!(type_names("", false), done("", "", 1));
    assert_eq!(type_names("", true), done("", "", 0));
}

#[test]
fn type_of_several_builtins() {
    assert_eq!(
        command_type("echo   exit pwd"),
        done("echo is a shell builtin\nexit is a shell builtin\npwd is a shell builtin\n", "", 0)
    );
}

#[test]
fn type_of_another_name_starts_a_search() {
    assert_eq!(
        command_type("nonexistent_xyz"),
        wait(
            "",
            Pending::SearchPath {
                name: "nonexistent_xyz".to_string(),
                purpose: describe("", false)
            }
        )
    );
    assert_eq!(
        command_type("echo ls cd"),
        wait(
            "echo is a shell builtin\n",
            Pending::SearchPath { name: "ls".to_string(), purpose: describe("cd", true) }
        )
    );
}
