//! Command resolution: from a command token, the search path and what the
//! file system holds, to the program to run or the reason why none is run.

use crate::command::{builtin_of, builtin_spec, Builtin};
use crate::text::{chars_of, has_separator, SEPARATOR};
use vstd::prelude::*;
use vstd::string::*;

verus! {

/// The permission bit that lets the owner of a file execute it.
pub const OWNER_EXECUTE: u32 = 0o100;

/// What is known of one existing file: its path, whether it is a directory,
/// and its permission bits.
#[derive(Clone, PartialEq, Eq, Debug)]
pub struct FileStatus {
    pub path: String,
    pub is_dir: bool,
    pub mode: u32,
}

/// What is known of a file, as specifications see it.
pub struct FileRecord {
    pub path: Seq<char>,
    pub is_dir: bool,
    pub mode: u32,
}

impl View for FileStatus {
    type V = FileRecord;

    open spec fn view(&self) -> FileRecord {
        FileRecord { path: self.path@, is_dir: self.is_dir, mode: self.mode }
    }
}

impl DeepView for FileStatus {
    type V = FileRecord;

    open spec fn deep_view(&self) -> FileRecord {
        self@
    }
}

/// What a command token resolves to.
#[derive(Clone, PartialEq, Eq, Debug)]
pub enum Resolved {
    /// A command of the shell's own.
    Builtin(Builtin),
    /// The program at this path.
    External(String),
    /// Nothing: no file of that name exists.
    NotFound,
    /// Nothing: the file may not be executed, or, where `directory` is set,
    /// is a directory.
    NotExecutable { directory: bool },
}

/// A resolved command, as specifications see it.
pub enum ResolvedView {
    Builtin(Builtin),
    External(Seq<char>),
    NotFound,
    NotExecutable { directory: bool },
}

impl View for Resolved {
    type V = ResolvedView;

    open spec fn view(&self) -> ResolvedView {
        match self {
            Resolved::Builtin(builtin) => ResolvedView::Builtin(*builtin),
            Resolved::External(path) => ResolvedView::External(path@),
            Resolved::NotFound => ResolvedView::NotFound,
            Resolved::NotExecutable { directory } => ResolvedView::NotExecutable {
                directory: *directory,
            },
        }
    }
}

/// The path of the entry `name` of the directory `dir`. The empty directory
/// name stands for the current directory.
pub open spec fn join_path(dir: Seq<char>, name: Seq<char>) -> Seq<char> {
    if dir.len() == 0 || dir.last() == SEPARATOR {
        dir + name
    } else {
        dir + seq![SEPARATOR] + name
    }
}

/// The paths at which the program called `token` may be, in the order in
/// which they are tried: a token that holds a separator is a path itself; any
/// other is looked for in each directory of the search path, in its order.
pub open spec fn candidate_paths_spec(token: Seq<char>, search_path: Seq<Seq<char>>) -> Seq<
    Seq<char>,
> {
    if has_separator(token) {
        seq![token]
    } else {
        Seq::new(search_path.len(), |i: int| join_path(search_path[i], token))
    }
}

/// What `snapshot` knows of the file at `path`: its first record of that
/// path. A path without a record does not exist.
pub open spec fn status_of(snapshot: Seq<FileRecord>, path: Seq<char>) -> Option<FileRecord>
    decreases snapshot.len(),
{
    if snapshot.len() == 0 {
        None
    } else if snapshot[0].path == path {
        Some(snapshot[0])
    } else {
        status_of(snapshot.drop_first(), path)
    }
}

/// The first of `candidates` that exists, with what is known of it.
pub open spec fn first_existing(candidates: Seq<Seq<char>>, snapshot: Seq<FileRecord>) -> Option<
    FileRecord,
>
    decreases candidates.len(),
{
    if candidates.len() == 0 {
        None
    } else {
        match status_of(snapshot, candidates[0]) {
            Some(record) => Some(record),
            None => first_existing(candidates.drop_first(), snapshot),
        }
    }
}

/// The permission bits `mode` let the owner execute the file.
pub open spec fn owner_may_execute(mode: u32) -> bool {
    mode & OWNER_EXECUTE != 0
}

/// What a file that was found resolves to. That the owner may execute it is
/// asked first, then that it is no directory.
pub open spec fn judge(record: FileRecord) -> ResolvedView {
    if !owner_may_execute(record.mode) {
        ResolvedView::NotExecutable { directory: false }
    } else if record.is_dir {
        ResolvedView::NotExecutable { directory: true }
    } else {
        ResolvedView::External(record.path)
    }
}

/// What `token` resolves to: a built-in command if it names one, else the
/// first candidate path that exists, judged.
pub open spec fn resolve_spec(
    token: Seq<char>,
    search_path: Seq<Seq<char>>,
    snapshot: Seq<FileRecord>,
) -> ResolvedView {
    match builtin_spec(token) {
        Some(builtin) => ResolvedView::Builtin(builtin),
        None => match first_existing(candidate_paths_spec(token, search_path), snapshot) {
            None => ResolvedView::NotFound,
            Some(record) => judge(record),
        },
    }
}

/// The line that reports why nothing is run, if nothing is.
pub open spec fn report_spec(resolved: ResolvedView, token: Seq<char>) -> Option<Seq<char>> {
    match resolved {
        ResolvedView::NotFound => Some("File "@ + token + " does not exist"@),
        ResolvedView::NotExecutable { directory: false } => Some(
            "File "@ + token + " is not executable"@,
        ),
        ResolvedView::NotExecutable { directory: true } => Some("Directory is not executable"@),
        _ => None,
    }
}

/// The first hit in the order of the candidates wins: where no candidate
/// before the `i`-th exists and the `i`-th does, it is the one found, whatever
/// exists further on.
pub proof fn lemma_first_hit_wins(candidates: Seq<Seq<char>>, snapshot: Seq<FileRecord>, i: int)
    requires
        0 <= i < candidates.len(),
        forall|j: int| 0 <= j < i ==> status_of(snapshot, #[trigger] candidates[j]) is None,
        status_of(snapshot, candidates[i]) is Some,
    ensures
        first_existing(candidates, snapshot) == status_of(snapshot, candidates[i]),
    decreases i,
{
    if i > 0 {
        let rest = candidates.drop_first();
        assert(status_of(snapshot, candidates[0]) is None);
        assert forall|j: int| 0 <= j < i - 1 implies status_of(snapshot, #[trigger] rest[j])
            is None by {
            assert(rest[j] == candidates[j + 1]);
        }
        assert(rest[i - 1] == candidates[i]);
        lemma_first_hit_wins(rest, snapshot, i - 1);
    }
}

/// Where no candidate exists, none is found.
pub proof fn lemma_no_hit(candidates: Seq<Seq<char>>, snapshot: Seq<FileRecord>)
    requires
        forall|j: int|
            0 <= j < candidates.len() ==> status_of(snapshot, #[trigger] candidates[j]) is None,
    ensures
        first_existing(candidates, snapshot) is None,
    decreases candidates.len(),
{
    if candidates.len() > 0 {
        let rest = candidates.drop_first();
        assert(status_of(snapshot, candidates[0]) is None);
        assert forall|j: int| 0 <= j < rest.len() implies status_of(snapshot, #[trigger] rest[j])
            is None by {
            assert(rest[j] == candidates[j + 1]);
        }
        lemma_no_hit(rest, snapshot);
    }
}

/// Resolution is deterministic: the same token, resolved twice over the
/// same search path and the same snapshot, gives the same command both
/// times.
pub proof fn lemma_resolution_is_deterministic(
    token: Seq<char>,
    search_path: Seq<Seq<char>>,
    snapshot: Seq<FileRecord>,
    again_token: Seq<char>,
    again_search_path: Seq<Seq<char>>,
    again_snapshot: Seq<FileRecord>,
)
    requires
        token =~= again_token,
        search_path =~~= again_search_path,
        snapshot =~~= again_snapshot,
    ensures
        resolve_spec(token, search_path, snapshot) == resolve_spec(
            again_token,
            again_search_path,
            again_snapshot,
        ),
{
}

/// Resolution looks at nothing but the candidate paths: two snapshots that
/// know the same of each candidate give the same result. So a snapshot
/// of the candidates alone stands for the whole file system.
pub proof fn lemma_resolution_is_local(
    token: Seq<char>,
    search_path: Seq<Seq<char>>,
    a: Seq<FileRecord>,
    b: Seq<FileRecord>,
)
    requires
        forall|i: int|
            0 <= i < candidate_paths_spec(token, search_path).len() ==> status_of(
                a,
                #[trigger] candidate_paths_spec(token, search_path)[i],
            ) == status_of(b, candidate_paths_spec(token, search_path)[i]),
    ensures
        resolve_spec(token, search_path, a) == resolve_spec(token, search_path, b),
{
    lemma_first_existing_is_local(candidate_paths_spec(token, search_path), a, b);
}

/// What is found among `candidates` depends on nothing but what is known
/// of each of them.
pub proof fn lemma_first_existing_is_local(
    candidates: Seq<Seq<char>>,
    a: Seq<FileRecord>,
    b: Seq<FileRecord>,
)
    requires
        forall|i: int|
            0 <= i < candidates.len() ==> status_of(a, #[trigger] candidates[i]) == status_of(
                b,
                candidates[i],
            ),
    ensures
        first_existing(candidates, a) == first_existing(candidates, b),
    decreases candidates.len(),
{
    if candidates.len() > 0 {
        let rest = candidates.drop_first();
        assert(status_of(a, candidates[0]) == status_of(b, candidates[0]));
        assert forall|i: int| 0 <= i < rest.len() implies status_of(a, #[trigger] rest[i])
            == status_of(b, rest[i]) by {
            assert(rest[i] == candidates[i + 1]);
        }
        lemma_first_existing_is_local(rest, a, b);
    }
}

/// What is found is one of the candidates, as the snapshot knows it.
pub proof fn lemma_first_existing_is_candidate(
    candidates: Seq<Seq<char>>,
    snapshot: Seq<FileRecord>,
)
    ensures
        first_existing(candidates, snapshot) matches Some(record) ==> {
            &&& candidates.contains(record.path)
            &&& status_of(snapshot, record.path) == Some(record)
        },
    decreases candidates.len(),
{
    if candidates.len() > 0 {
        lemma_status_has_path(snapshot, candidates[0]);
        if status_of(snapshot, candidates[0]) is None {
            let rest = candidates.drop_first();
            lemma_first_existing_is_candidate(rest, snapshot);
            if first_existing(rest, snapshot) is Some {
                let record = first_existing(rest, snapshot).unwrap();
                let i = choose|i: int| 0 <= i < rest.len() && rest[i] == record.path;
                assert(candidates[i + 1] == record.path);
            }
        } else {
            assert(candidates[0] == status_of(snapshot, candidates[0]).unwrap().path);
        }
    }
}

/// A record that is found bears the path that was asked for.
pub proof fn lemma_status_has_path(snapshot: Seq<FileRecord>, path: Seq<char>)
    ensures
        status_of(snapshot, path) matches Some(record) ==> record.path == path,
    decreases snapshot.len(),
{
    if snapshot.len() > 0 && snapshot[0].path != path {
        lemma_status_has_path(snapshot.drop_first(), path);
    }
}

/// Whether `token` holds a path separator.
pub fn contains_separator(token: &str) -> (r: bool)
    ensures
        r == has_separator(token@),
{
    let v = chars_of(token);
    let mut i: usize = 0;
    while i < v.len()
        invariant
            i <= v.len(),
            v@ == token@,
            forall|j: int| 0 <= j < i ==> v@[j] != SEPARATOR,
        decreases v.len() - i,
    {
        if v[i] == SEPARATOR {
            assert(token@[i as int] == SEPARATOR);
            return true;
        }
        i += 1;
    }
    false
}

/// The path of the entry `name` of the directory `dir`.
pub fn join(dir: &str, name: &str) -> (r: String)
    ensures
        r@ == join_path(dir@, name@),
{
    let d = chars_of(dir);
    let mut r = String::from_str(dir);
    if d.len() > 0 && d[d.len() - 1] != SEPARATOR {
        r.push(SEPARATOR);
        assert(dir@.push(SEPARATOR) == dir@ + seq![SEPARATOR]);
    }
    r.append(name);
    r
}

/// The paths at which the program called `token` may be, in the order in
/// which they are tried.
pub fn candidate_paths(token: &str, search_path: &Vec<String>) -> (r: Vec<String>)
    ensures
        r.deep_view() == candidate_paths_spec(token@, search_path.deep_view()),
{
    let mut out: Vec<String> = Vec::new();
    if contains_separator(token) {
        out.push(String::from_str(token));
        assert(out.deep_view() == seq![token@]);
        return out;
    }
    let mut i: usize = 0;
    while i < search_path.len()
        invariant
            i <= search_path.len(),
            out.len() == i,
            forall|j: int|
                0 <= j < i ==> (#[trigger] out@[j])@ == join_path(search_path@[j]@, token@),
        decreases search_path.len() - i,
    {
        let joined = join(search_path[i].as_str(), token);
        out.push(joined);
        i += 1;
    }
    assert(out.deep_view() == candidate_paths_spec(token@, search_path.deep_view())) by {
        let want = candidate_paths_spec(token@, search_path.deep_view());
        assert(out.deep_view().len() == want.len());
        assert forall|j: int| 0 <= j < want.len() implies out.deep_view()[j] == want[j] by {
            assert(out.deep_view()[j] == out@[j]@);
            assert(search_path.deep_view()[j] == search_path@[j]@);
        }
    }
    out
}

/// What `snapshot` knows of the file at `path`.
pub fn lookup<'a>(snapshot: &'a Vec<FileStatus>, path: &String) -> (r: Option<&'a FileStatus>)
    ensures
        match r {
            Some(status) => status_of(snapshot.deep_view(), path@) == Some(status@),
            None => status_of(snapshot.deep_view(), path@) is None,
        },
{
    let ghost whole = snapshot.deep_view();
    let mut i: usize = 0;
    assert(whole.skip(0) == whole);
    while i < snapshot.len()
        invariant
            i <= snapshot.len(),
            whole == snapshot.deep_view(),
            status_of(whole, path@) == status_of(whole.skip(i as int), path@),
        decreases snapshot.len() - i,
    {
        proof {
            assert(whole.skip(i as int)[0] == snapshot@[i as int]@);
            assert(whole.skip(i as int).drop_first() == whole.skip(i + 1));
        }
        if snapshot[i].path == *path {
            return Some(&snapshot[i]);
        }
        i += 1;
    }
    proof {
        assert(whole.skip(i as int).len() == 0);
    }
    None
}

/// What `token` resolves to, with `search_path` as the directories to look
/// in and `snapshot` as what exists.
pub fn resolve(token: &str, search_path: &Vec<String>, snapshot: &Vec<FileStatus>) -> (r:
    Resolved)
    ensures
        r@ == resolve_spec(token@, search_path.deep_view(), snapshot.deep_view()),
{
    match builtin_of(token) {
        Some(builtin) => {
            return Resolved::Builtin(builtin);
        },
        None => {},
    }
    let candidates = candidate_paths(token, search_path);
    let ghost all = candidates.deep_view();
    let ghost known = snapshot.deep_view();
    let mut i: usize = 0;
    assert(all.skip(0) == all);
    while i < candidates.len()
        invariant
            i <= candidates.len(),
            builtin_spec(token@) is None,
            all == candidates.deep_view(),
            all == candidate_paths_spec(token@, search_path.deep_view()),
            known == snapshot.deep_view(),
            first_existing(all, known) == first_existing(all.skip(i as int), known),
        decreases candidates.len() - i,
    {
        proof {
            assert(all.skip(i as int)[0] == candidates@[i as int]@);
            assert(all.skip(i as int).drop_first() == all.skip(i + 1));
        }
        match lookup(snapshot, &candidates[i]) {
            Some(status) => {
                if status.mode & OWNER_EXECUTE == 0 {
                    return Resolved::NotExecutable { directory: false };
                }
                if status.is_dir {
                    return Resolved::NotExecutable { directory: true };
                }
                return Resolved::External(status.path.clone());
            },
            None => {},
        }
        i += 1;
    }
    proof {
        assert(all.skip(i as int).len() == 0);
    }
    Resolved::NotFound
}

impl Resolved {
    /// The line that reports why nothing is run, if nothing is. `token` is
    /// the command as it was typed.
    pub fn report(&self, token: &str) -> (r: Option<String>)
        ensures
            match report_spec(self@, token@) {
                Some(line) => r matches Some(s) && s@ == line,
                None => r is None,
            },
    {
        match self {
            Resolved::NotFound => {
                let mut line = String::from_str("File ");
                line.append(token);
                line.append(" does not exist");
                Some(line)
            },
            Resolved::NotExecutable { directory } => {
                if *directory {
                    Some(String::from_str("Directory is not executable"))
                } else {
                    let mut line = String::from_str("File ");
                    line.append(token);
                    line.append(" is not executable");
                    Some(line)
                }
            },
            _ => None,
        }
    }
}

} // verus!
