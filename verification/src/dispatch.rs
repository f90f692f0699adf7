//! The command dispatcher: what is to be done for a command, once the file
//! system has been asked.

use crate::command::{
    builtin_of, builtin_spec, split_arguments, Builtin, Invocation, InvocationView,
};
use crate::resolve::{
    candidate_paths, candidate_paths_spec, lemma_resolution_is_local, report_spec, resolve,
    resolve_spec, status_of, FileRecord, FileStatus, Resolved, ResolvedView,
};
use crate::text::words;
use vstd::prelude::*;
use vstd::string::*;

verus! {

/// Where `cd` is to go.
#[derive(Clone, PartialEq, Eq, Debug)]
pub enum CdPlan {
    /// To this directory.
    Go(String),
    /// Nowhere: no argument was given and no home directory is known.
    NoHome,
}

/// A plan for `cd`, as specifications see it.
pub enum CdPlanView {
    Go(Seq<char>),
    NoHome,
}

impl View for CdPlan {
    type V = CdPlanView;

    open spec fn view(&self) -> CdPlanView {
        match self {
            CdPlan::Go(path) => CdPlanView::Go(path@),
            CdPlan::NoHome => CdPlanView::NoHome,
        }
    }
}

/// `cd` without an argument goes to the home directory; with one, to the
/// directory that the text of its arguments names.
pub open spec fn plan_cd_spec(arguments: Seq<char>, home: Option<Seq<char>>) -> CdPlanView {
    if arguments.len() > 0 {
        CdPlanView::Go(arguments)
    } else {
        match home {
            Some(path) => CdPlanView::Go(path),
            None => CdPlanView::NoHome,
        }
    }
}

/// The line that reports a `cd` without a home directory to go to.
pub open spec fn no_home_message() -> Seq<char> {
    "No home directory found"@
}

/// The line that reports a `cd` that failed.
pub open spec fn cd_failure_message(path: Seq<char>, reason: Seq<char>) -> Seq<char> {
    "cd: "@ + path + ": "@ + reason
}

/// `part` stands somewhere in `whole`.
pub open spec fn occurs_in(part: Seq<char>, whole: Seq<char>) -> bool {
    exists|i: int|
        0 <= i && i + part.len() <= whole.len() && #[trigger] whole.subrange(i, i + part.len())
            == part
}

/// The report of a failed `cd` names the directory that was asked for.
pub proof fn lemma_cd_failure_names_path(path: Seq<char>, reason: Seq<char>)
    ensures
        occurs_in(path, cd_failure_message(path, reason)),
{
    let whole = cd_failure_message(path, reason);
    let i = "cd: "@.len() as int;
    assert(whole.subrange(i, i + path.len()) == path);
}

/// Where `cd` with these arguments is to go, `home` being the home directory
/// if one is known.
pub fn plan_cd(arguments: &str, home: Option<&str>) -> (r: CdPlan)
    ensures
        r@ == plan_cd_spec(
            arguments@,
            match home {
                Some(path) => Some(path@),
                None => None,
            },
        ),
{
    if arguments.unicode_len() > 0 {
        CdPlan::Go(String::from_str(arguments))
    } else {
        match home {
            Some(path) => CdPlan::Go(String::from_str(path)),
            None => CdPlan::NoHome,
        }
    }
}

/// The line that reports a `cd` without a home directory to go to.
pub fn report_no_home() -> (r: String)
    ensures
        r@ == no_home_message(),
{
    String::from_str("No home directory found")
}

/// The directory that the shell is in, as the shell knows it.
pub struct WorkingDirectory {
    path: String,
}

impl View for WorkingDirectory {
    type V = Seq<char>;

    closed spec fn view(&self) -> Seq<char> {
        self.path@
    }
}

impl WorkingDirectory {
    /// The shell starts in `path`.
    pub fn new(path: String) -> (r: WorkingDirectory)
        ensures
            r@ == path@,
    {
        WorkingDirectory { path }
    }

    /// The directory that the shell is in.
    pub fn path(&self) -> (r: &str)
        ensures
            r@ == self@,
    {
        self.path.as_str()
    }

    /// Takes note of what became of a `cd` to `target`: `Ok` with the
    /// directory that the shell is in now, or `Err` with the reason why it
    /// did not move. Returns the line to report, if any. A `cd` that failed
    /// leaves the shell where it was, and the report names `target`.
    pub fn changed(&mut self, target: &str, outcome: Result<String, String>) -> (r: Option<
        String,
    >)
        ensures
            match outcome {
                Ok(now) => final(self)@ == now@ && r is None,
                Err(reason) => {
                    &&& final(self)@ == old(self)@
                    &&& r matches Some(line)
                    &&& line@ == cd_failure_message(target@, reason@)
                    &&& occurs_in(target@, line@)
                },
            },
    {
        match outcome {
            Ok(now) => {
                self.path = now;
                None
            },
            Err(reason) => {
                let mut line = String::from_str("cd: ");
                line.append(target);
                line.append(": ");
                line.append(reason.as_str());
                proof {
                    lemma_cd_failure_names_path(target@, reason@);
                }
                Some(line)
            },
        }
    }
}

/// What is to be done for a command.
#[derive(Clone, PartialEq, Eq, Debug)]
pub enum Decision {
    /// Change to this directory.
    ChangeDirectory(String),
    /// Report this line, and do nothing else.
    Report(String),
    /// Run this program with these arguments under a pseudo-terminal.
    Launch { program: String, arguments: Vec<String> },
}

/// A decision, as specifications see it.
pub enum DecisionView {
    ChangeDirectory(Seq<char>),
    Report(Seq<char>),
    Launch { program: Seq<char>, arguments: Seq<Seq<char>> },
}

impl View for Decision {
    type V = DecisionView;

    open spec fn view(&self) -> DecisionView {
        match self {
            Decision::ChangeDirectory(path) => DecisionView::ChangeDirectory(path@),
            Decision::Report(line) => DecisionView::Report(line@),
            Decision::Launch { program, arguments } => DecisionView::Launch {
                program: program@,
                arguments: arguments.deep_view(),
            },
        }
    }
}

/// The paths that a snapshot must cover for `decide` to decide on
/// `command`: none for a built-in command, the candidate paths for any other.
pub open spec fn paths_to_probe_spec(command: Seq<char>, search_path: Seq<Seq<char>>) -> Seq<
    Seq<char>,
> {
    if builtin_spec(command) is Some {
        Seq::empty()
    } else {
        candidate_paths_spec(command, search_path)
    }
}

/// What is to be done for `invocation`. A built-in command is carried out by
/// the shell, on the text of its arguments as it was typed. Any other command
/// is resolved; the program found is launched with the words of that text as
/// its arguments, and a command that resolves to no program is reported.
pub open spec fn decide_spec(
    invocation: InvocationView,
    home: Option<Seq<char>>,
    search_path: Seq<Seq<char>>,
    snapshot: Seq<FileRecord>,
) -> DecisionView {
    match resolve_spec(invocation.command, search_path, snapshot) {
        ResolvedView::Builtin(Builtin::ChangeDirectory) => match plan_cd_spec(
            invocation.arguments,
            home,
        ) {
            CdPlanView::Go(path) => DecisionView::ChangeDirectory(path),
            CdPlanView::NoHome => DecisionView::Report(no_home_message()),
        },
        ResolvedView::External(path) => DecisionView::Launch {
            program: path,
            arguments: words(invocation.arguments),
        },
        failed => DecisionView::Report(report_spec(failed, invocation.command).unwrap()),
    }
}

/// The decision looks at nothing but the paths to probe: two snapshots that
/// know the same of each of them give the same decision.
pub proof fn lemma_decision_is_local(
    invocation: InvocationView,
    home: Option<Seq<char>>,
    search_path: Seq<Seq<char>>,
    a: Seq<FileRecord>,
    b: Seq<FileRecord>,
)
    requires
        forall|i: int|
            0 <= i < paths_to_probe_spec(invocation.command, search_path).len() ==> status_of(
                a,
                #[trigger] paths_to_probe_spec(invocation.command, search_path)[i],
            ) == status_of(b, paths_to_probe_spec(invocation.command, search_path)[i]),
    ensures
        decide_spec(invocation, home, search_path, a) == decide_spec(
            invocation,
            home,
            search_path,
            b,
        ),
{
    if builtin_spec(invocation.command) is None {
        let probed = paths_to_probe_spec(invocation.command, search_path);
        let tried = candidate_paths_spec(invocation.command, search_path);
        assert forall|i: int| 0 <= i < tried.len() implies status_of(a, #[trigger] tried[i])
            == status_of(b, tried[i]) by {
            assert(probed[i] == tried[i]);
        }
        lemma_resolution_is_local(invocation.command, search_path, a, b);
    }
}

/// Nothing is launched that was not found: a launch names one of the
/// candidate paths, at which the snapshot knows a file that is no directory
/// and that its owner may execute.
pub proof fn lemma_launch_is_sound(
    invocation: InvocationView,
    home: Option<Seq<char>>,
    search_path: Seq<Seq<char>>,
    snapshot: Seq<FileRecord>,
)
    ensures
        decide_spec(invocation, home, search_path, snapshot) matches DecisionView::Launch {
            program,
            arguments,
        } ==> {
            &&& builtin_spec(invocation.command) is None
            &&& status_of(snapshot, program) matches Some(record)
            &&& !record.is_dir
            &&& crate::resolve::owner_may_execute(record.mode)
            &&& candidate_paths_spec(invocation.command, search_path).contains(program)
        },
{
    let candidates = candidate_paths_spec(invocation.command, search_path);
    crate::resolve::lemma_first_existing_is_candidate(candidates, snapshot);
}

/// The paths that a snapshot must cover for `decide` to decide on `command`.
pub fn paths_to_probe(command: &str, search_path: &Vec<String>) -> (r: Vec<String>)
    ensures
        r.deep_view() == paths_to_probe_spec(command@, search_path.deep_view()),
{
    match builtin_of(command) {
        Some(_) => {
            let none: Vec<String> = Vec::new();
            assert(none.deep_view() == Seq::<Seq<char>>::empty());
            none
        },
        None => candidate_paths(command, search_path),
    }
}

/// What is to be done for `invocation`, with `home` as the home directory
/// if one is known, `search_path` as the directories to look in, and
/// `snapshot` as what exists.
pub fn decide(
    invocation: &Invocation,
    home: Option<&str>,
    search_path: &Vec<String>,
    snapshot: &Vec<FileStatus>,
) -> (r: Decision)
    ensures
        r@ == decide_spec(
            invocation@,
            match home {
                Some(path) => Some(path@),
                None => None,
            },
            search_path.deep_view(),
            snapshot.deep_view(),
        ),
{
    let resolved = resolve(invocation.command.as_str(), search_path, snapshot);
    match resolved {
        Resolved::Builtin(Builtin::ChangeDirectory) => {
            match plan_cd(invocation.arguments.as_str(), home) {
                CdPlan::Go(path) => Decision::ChangeDirectory(path),
                CdPlan::NoHome => Decision::Report(report_no_home()),
            }
        },
        Resolved::External(program) => {
            let arguments = split_arguments(invocation.arguments.as_str());
            Decision::Launch { program, arguments }
        },
        failed => {
            let line = failed.report(invocation.command.as_str());
            Decision::Report(line.unwrap())
        },
    }
}

} // verus!
