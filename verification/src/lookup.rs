//! Finding a command on the search path, and the `type` command, which
//! says where each of its names was found.
//!
//! The search path is a list of directories with `:` between them. A name
//! is looked for in each directory in turn: the shell names a candidate
//! path, the host says whether it exists, and the first that does is the
//! command. Nothing else is asked of a candidate.

use crate::builtins::{is_builtin, is_builtin_name, write_path, written_path};
use crate::protocol::{
    after_output, complaint, ends_shell, option_str_text, option_text, silent, texts, Next,
    NextView, Outcome, Pending, PendingView, Purpose, PurposeView, Step, StepView,
    NOT_FOUND_CODE,
};
use crate::text::{concat3, to_chars};
use crate::tokenizer::{head, lemma_tail_shorter, split_input, tail};
use vstd::prelude::*;
use vstd::string::StringExecFns;

verus! {

/// The length of the first entry of the list `s`: the number of characters
/// before the first `:`, or all of them where there is none.
pub open spec fn entry_len(s: Seq<char>) -> nat
    decreases s.len(),
{
    if s.len() == 0 || s[0] == ':' {
        0
    } else {
        1 + entry_len(s.drop_first())
    }
}

/// The entries of the list `s`, in order: the pieces between its `:`
/// characters. A list of `n` separators has `n + 1` entries, empty ones
/// among them where separators meet or stand at an end.
pub open spec fn split_dirs(s: Seq<char>) -> Seq<Seq<char>>
    decreases s.len(),
{
    let n = entry_len(s);
    if n >= s.len() {
        seq![s]
    } else {
        seq![s.take(n as int)] + split_dirs(s.skip(n as int + 1))
    }
}

/// The path of `name` in the directory `dir`.
pub open spec fn candidate(dir: Seq<char>, name: Seq<char>) -> Seq<char> {
    dir + "/"@ + name
}

/// The paths at which `name` is looked for, in order: one in each
/// directory of the search path. There are none where the search path is
/// not set or the name is empty.
pub open spec fn candidates(search_path: Option<Seq<char>>, name: Seq<char>) -> Seq<Seq<char>> {
    match search_path {
        Some(path) if name.len() > 0 => {
            let dirs = split_dirs(path);
            Seq::new(dirs.len(), |i: int| candidate(dirs[i], name))
        },
        _ => Seq::empty(),
    }
}

/// The first of `paths` that exists, where one does.
pub open spec fn first_existing(
    paths: Seq<Seq<char>>,
    present: spec_fn(Seq<char>) -> bool,
) -> Option<Seq<char>>
    decreases paths.len(),
{
    if paths.len() == 0 {
        None
    } else if present(paths[0]) {
        Some(paths[0])
    } else {
        first_existing(paths.drop_first(), present)
    }
}

/// `type`: takes the names of the parameter text from left to right. A
/// name of a builtin is reported at once. For any other name the shell
/// starts a search and goes on with the names after it, `rest`, once the
/// search has ended. After the last name the status is 0 where a name was
/// found, this time or before (`found_any`), and 1 where none was.
pub open spec fn type_step(params: Seq<char>, found_any: bool) -> StepView
    decreases params.len(),
{
    let name = head(params);
    if name.len() == 0 {
        silent(
            NextView::Done(
                Outcome::Continue(
                    if found_any {
                        0
                    } else {
                        1
                    },
                ),
            ),
        )
    } else if is_builtin(name) {
        proof {
            lemma_tail_shorter(params);
        }
        after_output(name + " is a shell builtin\n"@, type_step(tail(params), true))
    } else {
        silent(
            NextView::Wait(
                PendingView::SearchPath {
                    name,
                    purpose: PurposeView::Type { rest: tail(params), found_any },
                },
            ),
        )
    }
}

/// The end of a search for `name`. Where it was to be run: the shell asks
/// for the program at the path found, or reports that there is no such
/// command, with the status for that. Where it was to be described: a line
/// for the name, then the names after it.
pub open spec fn resolved_step(
    name: Seq<char>,
    purpose: PurposeView,
    found: Option<Seq<char>>,
) -> StepView {
    match purpose {
        PurposeView::Run { params } => match found {
            Some(path) => silent(NextView::Wait(PendingView::Child { path, arg: params })),
            None => complaint(name + ": command not found\n"@, NOT_FOUND_CODE),
        },
        PurposeView::Type { rest, found_any } => match found {
            Some(path) => after_output(
                name + " is "@ + written_path(path, true),
                type_step(rest, true),
            ),
            None => after_output(name + " not found\n"@, type_step(rest, found_any)),
        },
    }
}

/// A search with the candidates `remaining` still to try: the shell asks
/// about the first of them, or ends the search where none is left.
pub open spec fn search_step(
    name: Seq<char>,
    purpose: PurposeView,
    remaining: Seq<Seq<char>>,
) -> StepView {
    if remaining.len() == 0 {
        resolved_step(name, purpose, None)
    } else {
        silent(
            NextView::Wait(
                PendingView::Probe {
                    name,
                    candidate: remaining[0],
                    later: remaining.drop_first(),
                    purpose,
                },
            ),
        )
    }
}

/// The start of a search, once the search path is known.
pub open spec fn find_step(
    search_path: Option<Seq<char>>,
    name: Seq<char>,
    purpose: PurposeView,
) -> StepView {
    search_step(name, purpose, candidates(search_path, name))
}

/// A search once the host has said whether `candidate` exists: it is the
/// command where it does; else the search goes on with those after it.
pub open spec fn probed_step(
    name: Seq<char>,
    candidate: Seq<char>,
    later: Seq<Seq<char>>,
    purpose: PurposeView,
    present: bool,
) -> StepView {
    if present {
        resolved_step(name, purpose, Some(candidate))
    } else {
        search_step(name, purpose, later)
    }
}

/// The step on which a search over `remaining` ends when the host answers
/// each question by `present`: the search asks about the first candidate,
/// ends there where the answer is yes, and goes on with the others where
/// it is no.
pub open spec fn search_end(
    name: Seq<char>,
    purpose: PurposeView,
    remaining: Seq<Seq<char>>,
    present: spec_fn(Seq<char>) -> bool,
) -> StepView
    decreases remaining.len(),
{
    if remaining.len() == 0 {
        search_step(name, purpose, remaining)
    } else if present(remaining[0]) {
        probed_step(name, remaining[0], remaining.drop_first(), purpose, true)
    } else {
        search_end(name, purpose, remaining.drop_first(), present)
    }
}

/// The first match wins: however the host answers, a search ends as if the
/// first candidate that exists had been found at once, and as one for a
/// command that is not there where none of them exists.
pub proof fn lemma_first_match_wins(
    name: Seq<char>,
    purpose: PurposeView,
    remaining: Seq<Seq<char>>,
    present: spec_fn(Seq<char>) -> bool,
)
    ensures
        search_end(name, purpose, remaining, present) == resolved_step(
            name,
            purpose,
            first_existing(remaining, present),
        ),
    decreases remaining.len(),
{
    if remaining.len() > 0 && !present(remaining[0]) {
        lemma_first_match_wins(name, purpose, remaining.drop_first(), present);
    }
}

/// Where none of the candidates exists, a command that was to be run is
/// reported as not found, by its name as it was typed, and the status is
/// the one for that.
pub proof fn lemma_unknown_command(
    name: Seq<char>,
    params: Seq<char>,
    remaining: Seq<Seq<char>>,
    present: spec_fn(Seq<char>) -> bool,
)
    requires
        forall|i: int| 0 <= i < remaining.len() ==> !present(#[trigger] remaining[i]),
    ensures
        search_end(name, PurposeView::Run { params }, remaining, present) == complaint(
            name + ": command not found\n"@,
            NOT_FOUND_CODE,
        ),
    decreases remaining.len(),
{
    if remaining.len() > 0 {
        let later = remaining.drop_first();
        assert forall|i: int| 0 <= i < later.len() implies !present(#[trigger] later[i]) by {
            assert(later[i] == remaining[i + 1]);
        }
        lemma_unknown_command(name, params, later, present);
    }
}

/// A command that was to be run and has a candidate that exists is
/// started at the first such candidate, with the parameter text as its
/// argument.
pub proof fn lemma_known_command(
    name: Seq<char>,
    params: Seq<char>,
    remaining: Seq<Seq<char>>,
    present: spec_fn(Seq<char>) -> bool,
)
    requires
        first_existing(remaining, present) is Some,
    ensures
        search_end(name, PurposeView::Run { params }, remaining, present) == silent(
            NextView::Wait(
                PendingView::Child {
                    path: first_existing(remaining, present)->Some_0,
                    arg: params,
                },
            ),
        ),
{
    lemma_first_match_wins(name, PurposeView::Run { params }, remaining, present);
}

/// `type` without a name fails: its status is 1.
pub proof fn lemma_type_of_nothing()
    ensures
        type_step(Seq::empty(), false) == silent(NextView::Done(Outcome::Continue(1))),
{
    assert(head(Seq::<char>::empty()) =~= Seq::<char>::empty());
}

/// `type` never ends the shell.
pub proof fn lemma_type_goes_on(params: Seq<char>, found_any: bool)
    ensures
        !ends_shell(type_step(params, found_any)),
    decreases params.len(),
{
    if head(params).len() > 0 && is_builtin(head(params)) {
        lemma_tail_shorter(params);
        lemma_type_goes_on(tail(params), true);
    }
}

/// The end of a search never ends the shell.
pub proof fn lemma_resolved_goes_on(
    name: Seq<char>,
    purpose: PurposeView,
    found: Option<Seq<char>>,
)
    ensures
        !ends_shell(resolved_step(name, purpose, found)),
{
    match purpose {
        PurposeView::Type { rest, found_any } => {
            lemma_type_goes_on(rest, found_any);
            lemma_type_goes_on(rest, true);
        },
        _ => {},
    }
}

/// No step of a search ends the shell.
pub proof fn lemma_search_goes_on(
    name: Seq<char>,
    purpose: PurposeView,
    remaining: Seq<Seq<char>>,
)
    ensures
        !ends_shell(search_step(name, purpose, remaining)),
{
    lemma_resolved_goes_on(name, purpose, None);
}

/// `k` is the length of the first entry where no `:` stands before `k` and
/// `s` ends or has a `:` at `k`.
proof fn lemma_entry_len_is(s: Seq<char>, k: int)
    requires
        0 <= k <= s.len(),
        forall|i: int| 0 <= i < k ==> #[trigger] s[i] != ':',
        k < s.len() ==> s[k] == ':',
    ensures
        entry_len(s) == k,
    decreases k,
{
    if k > 0 {
        let t = s.drop_first();
        assert forall|i: int| 0 <= i < k - 1 implies #[trigger] t[i] != ':' by {
            assert(t[i] == s[i + 1]);
        }
        lemma_entry_len_is(t, k - 1);
    }
}

/// The directories of a search path, in order.
pub fn search_dirs(search_path: &str) -> (dirs: Vec<String>)
    ensures
        texts(dirs@) == split_dirs(search_path@),
{
    let v = to_chars(search_path);
    let mut dirs: Vec<String> = Vec::new();
    let mut start: usize = 0;
    let mut i: usize = 0;
    assert(v@.skip(0) =~= v@);
    assert(texts(dirs@) + split_dirs(v@) =~= split_dirs(v@));
    while i < v.len()
        invariant
            start <= i <= v.len(),
            v@ == search_path@,
            forall|j: int| start <= j < i ==> #[trigger] v@[j] != ':',
            texts(dirs@) + split_dirs(v@.skip(start as int)) == split_dirs(v@),
        decreases v.len() - i,
    {
        if v[i] == ':' {
            let ghost s = v@.skip(start as int);
            let ghost before = texts(dirs@);
            proof {
                lemma_entry_len_is(s, i - start);
                assert(s.take(i - start) =~= v@.subrange(start as int, i as int));
                assert(s.skip(i - start + 1) =~= v@.skip(i + 1));
            }
            dirs.push(String::from_str(search_path.substring_char(start, i)));
            assert(texts(dirs@) =~= before + seq![s.take(i - start)]);
            assert(before + seq![s.take(i - start)] + split_dirs(v@.skip(i + 1)) =~= before
                + split_dirs(s));
            start = i + 1;
        }
        i += 1;
    }
    let ghost s = v@.skip(start as int);
    let ghost before = texts(dirs@);
    proof {
        lemma_entry_len_is(s, v.len() - start);
        assert(s =~= v@.subrange(start as int, v.len() as int));
    }
    dirs.push(String::from_str(search_path.substring_char(start, v.len())));
    assert(texts(dirs@) =~= before + seq![s]);
    dirs
}

/// The paths at which `name` is looked for, in order.
pub fn candidates_for(search_path: Option<&str>, name: &str) -> (paths: Vec<String>)
    ensures
        texts(paths@) == candidates(
            option_str_text(search_path),
            name@,
        ),
{
    let mut paths: Vec<String> = Vec::new();
    match search_path {
        Some(path) => {
            if !name.is_empty() {
                let dirs = search_dirs(path);
                let mut i: usize = 0;
                while i < dirs.len()
                    invariant
                        i <= dirs.len(),
                        paths.len() == i,
                        forall|j: int|
                            0 <= j < i ==> (#[trigger] paths@[j])@ == candidate(dirs@[j]@, name@),
                    decreases dirs.len() - i,
                {
                    paths.push(concat3(dirs[i].as_str(), "/", name));
                    i += 1;
                }
                assert(texts(paths@) =~= candidates(Some(path@), name@)) by {
                    assert(texts(dirs@) == split_dirs(path@));
                    assert forall|j: int| 0 <= j < dirs.len() implies texts(paths@)[j]
                        == candidates(Some(path@), name@)[j] by {
                        assert(texts(dirs@)[j] == dirs@[j]@);
                    }
                }
            } else {
                assert(texts(paths@) =~= Seq::<Seq<char>>::empty());
            }
        },
        None => {
            assert(texts(paths@) =~= Seq::<Seq<char>>::empty());
        },
    }
    paths
}

/// `step` with `out` written before its own output.
fn with_output_first(out: String, step: Step) -> (whole: Step)
    ensures
        whole@ == after_output(out@, step@),
{
    let mut text = out;
    text.append(step.out.as_str());
    Step { out: text, err: step.err, next: step.next }
}

/// The `type` command.
pub fn command_type(params: &str) -> (step: Step)
    ensures
        step@ == type_step(params@, false),
{
    type_names(params, false)
}

/// Goes on with `type` from the names in `params`; `found_any` tells
/// whether a name before them was found.
pub fn type_names(params: &str, found_any: bool) -> (step: Step)
    ensures
        step@ == type_step(params@, found_any),
{
    let mut out = String::new();
    let mut rest: &str = params;
    let mut found = found_any;
    assert(after_output(out@, type_step(rest@, found)) =~= type_step(params@, found_any)) by {
        assert(Seq::<char>::empty() + type_step(params@, found_any).out =~= type_step(
            params@,
            found_any,
        ).out);
    }
    loop
        invariant
            after_output(out@, type_step(rest@, found)) == type_step(params@, found_any),
        decreases rest@.len(),
    {
        let (name, tail) = split_input(rest);
        if name.is_empty() {
            let status: i32 = if found {
                0
            } else {
                1
            };
            let last = Step::silent(Next::Done(Outcome::Continue(status)));
            return with_output_first(out, last);
        }
        if !is_builtin_name(name) {
            let search = Step::silent(
                Next::Wait(
                    Pending::SearchPath {
                        name: String::from_str(name),
                        purpose: Purpose::Type { rest: String::from_str(tail), found_any: found },
                    },
                ),
            );
            return with_output_first(out, search);
        }
        let ghost before = out@;
        let ghost line = name@ + " is a shell builtin\n"@;
        proof {
            lemma_tail_shorter(rest@);
        }
        out.append(name);
        out.append(" is a shell builtin\n");
        assert(after_output(out@, type_step(tail@, true)) =~= after_output(
            before,
            type_step(rest@, found),
        )) by {
            assert(out@ + type_step(tail@, true).out =~= before + (line + type_step(
                tail@,
                true,
            ).out));
        }
        found = true;
        rest = tail;
    }
}

/// Ends a search for `name` with what was found.
pub fn resolved(name: &str, purpose: Purpose, found: Option<String>) -> (step: Step)
    ensures
        step@ == resolved_step(
            name@,
            purpose@,
            option_text(found),
        ),
{
    match purpose {
        Purpose::Run { params } => match found {
            Some(path) => Step::silent(Next::Wait(Pending::Child { path, arg: params })),
            None => {
                let mut err = String::from_str(name);
                err.append(": command not found\n");
                Step::complaint(err, NOT_FOUND_CODE)
            },
        },
        Purpose::Type { rest, found_any } => match found {
            Some(path) => {
                let mut line = String::from_str(name);
                line.append(" is ");
                line.append(write_path(path.as_str(), true).as_str());
                with_output_first(line, type_names(rest.as_str(), true))
            },
            None => {
                let mut line = String::from_str(name);
                line.append(" not found\n");
                with_output_first(line, type_names(rest.as_str(), found_any))
            },
        },
    }
}

/// Goes on with a search: asks about the first of `remaining`, or ends the
/// search where none is left.
pub fn search(name: String, purpose: Purpose, remaining: Vec<String>) -> (step: Step)
    ensures
        step@ == search_step(name@, purpose@, texts(remaining@)),
{
    let mut later = remaining;
    if later.len() == 0 {
        resolved(name.as_str(), purpose, None)
    } else {
        let candidate = later.remove(0);
        assert(texts(later@) =~= texts(remaining@).drop_first());
        Step::silent(Next::Wait(Pending::Probe { name, candidate, later, purpose }))
    }
}

/// Starts the search for `name` along `search_path`.
pub fn find_executable(search_path: Option<&str>, name: String, purpose: Purpose) -> (step: Step)
    ensures
        step@ == find_step(
            option_str_text(search_path),
            name@,
            purpose@,
        ),
{
    let paths = candidates_for(search_path, name.as_str());
    search(name, purpose, paths)
}

/// Goes on with a search once the host has said whether `candidate`
/// exists.
pub fn probed(
    name: String,
    candidate: String,
    later: Vec<String>,
    purpose: Purpose,
    present: bool,
) -> (step: Step)
    ensures
        step@ == probed_step(name@, candidate@, texts(later@), purpose@, present),
{
    if present {
        resolved(name.as_str(), purpose, Some(candidate))
    } else {
        search(name, purpose, later)
    }
}

} // verus!
