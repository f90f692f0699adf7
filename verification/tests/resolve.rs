use ptyshell::command::Builtin;
use ptyshell::resolve::{
    candidate_paths, contains_separator, join, lookup, resolve, FileStatus, Resolved,
};

fn file(path: &str, mode: u32) -> FileStatus {
    FileStatus { path: path.to_string(), is_dir: false, mode }
}

fn dir(path: &str, mode: u32) -> FileStatus {
    FileStatus { path: path.to_string(), is_dir: true, mode }
}

fn path(dirs: &[&str]) -> Vec<String> {
    dirs.iter().map(|d| d.to_string()).collect()
}

#[test]
fn a_name_is_joined_to_a_directory_by_one_separator() {
    assert_eq!(join("/bin", "ls"), "/bin/ls");
    assert_eq!(join("/bin/", "ls"), "/bin/ls");
    assert_eq!(join("/", "ls"), "/ls");
    assert_eq!(join("", "ls"), "ls");
    assert_eq!(join("rel", "ls"), "rel/ls");
}

#[test]
fn joining_agrees_with_std_paths() {
    for d in ["/bin", "/bin/", "/", "", "a/b", "."] {
        let expected = std::path::Path::new(d).join("prog");
        assert_eq!(join(d, "prog"), expected.to_str().unwrap());
    }
}

#[test]
fn separators_are_found() {
    assert!(contains_separator("./a"));
    assert!(contains_separator("/"));
    assert!(contains_separator("a/"));
    assert!(!contains_separator("a"));
    assert!(!contains_separator(""));
}

#[test]
fn candidates_follow_the_search_path() {
    assert_eq!(
        candidate_paths("ls", &path(&["/usr/bin", "/bin/", ""])),
        vec!["/usr/bin/ls".to_string(), "/bin/ls".to_string(), "ls".to_string()]
    );
}

#[test]
fn a_token_with_a_separator_is_its_own_candidate() {
    assert_eq!(candidate_paths("./ls", &path(&["/usr/bin", "/bin"])), vec!["./ls".to_string()]);
    assert_eq!(candidate_paths("/bin/ls", &path(&[])), vec!["/bin/ls".to_string()]);
}

#[test]
fn an_empty_search_path_has_no_candidates() {
    assert_eq!(candidate_paths("ls", &path(&[])), Vec::<String>::new());
    assert_eq!(resolve("ls", &path(&[]), &vec![file("ls", 0o755)]), Resolved::NotFound);
}

#[test]
fn the_first_record_of_a_path_is_what_is_known_of_it() {
    let snapshot = vec![file("/a", 0o644), file("/b", 0o755), dir("/a", 0o755)];
    assert_eq!(lookup(&snapshot, &"/a".to_string()), Some(&snapshot[0]));
    assert_eq!(lookup(&snapshot, &"/b".to_string()), Some(&snapshot[1]));
    assert_eq!(lookup(&snapshot, &"/c".to_string()), None);
}

#[test]
fn the_first_hit_on_the_search_path_wins() {
    let snapshot = vec![file("/bin/echo", 0o755), file("/usr/bin/echo", 0o755)];
    assert_eq!(
        resolve("echo", &path(&["/usr/bin", "/bin"]), &snapshot),
        Resolved::External("/usr/bin/echo".to_string())
    );
    assert_eq!(
        resolve("echo", &path(&["/bin", "/usr/bin"]), &snapshot),
        Resolved::External("/bin/echo".to_string())
    );
    assert_eq!(
        resolve("echo", &path(&["/opt", "/bin", "/usr/bin"]), &snapshot),
        Resolved::External("/bin/echo".to_string())
    );
}

#[test]
fn an_earlier_hit_is_judged_even_if_a_later_one_would_run() {
    let snapshot = vec![file("/a/tool", 0o644), file("/b/tool", 0o755)];
    assert_eq!(
        resolve("tool", &path(&["/a", "/b"]), &snapshot),
        Resolved::NotExecutable { directory: false }
    );
    let snapshot = vec![dir("/a/tool", 0o755), file("/b/tool", 0o755)];
    assert_eq!(
        resolve("tool", &path(&["/a", "/b"]), &snapshot),
        Resolved::NotExecutable { directory: true }
    );
}

#[test]
fn a_name_that_is_nowhere_is_not_found() {
    let snapshot = vec![file("/bin/echo", 0o755)];
    assert_eq!(resolve("nope", &path(&["/bin"]), &snapshot), Resolved::NotFound);
    assert_eq!(resolve("./nope", &path(&["/bin"]), &snapshot), Resolved::NotFound);
    assert_eq!(resolve("echo", &path(&["/bin"]), &vec![]), Resolved::NotFound);
}

#[test]
fn the_owner_must_be_allowed_to_execute() {
    let dirs = path(&["/bin"]);
    assert_eq!(
        resolve("x", &dirs, &vec![file("/bin/x", 0o644)]),
        Resolved::NotExecutable { directory: false }
    );
    assert_eq!(
        resolve("x", &dirs, &vec![file("/bin/x", 0o011)]),
        Resolved::NotExecutable { directory: false }
    );
    assert_eq!(
        resolve("x", &dirs, &vec![file("/bin/x", 0o100)]),
        Resolved::External("/bin/x".to_string())
    );
    assert_eq!(
        resolve("x", &dirs, &vec![file("/bin/x", 0o100755)]),
        Resolved::External("/bin/x".to_string())
    );
}

#[test]
fn a_directory_is_not_run() {
    let dirs = path(&["/usr"]);
    assert_eq!(
        resolve("bin", &dirs, &vec![dir("/usr/bin", 0o755)]),
        Resolved::NotExecutable { directory: true }
    );
    assert_eq!(
        resolve("bin", &dirs, &vec![dir("/usr/bin", 0o644)]),
        Resolved::NotExecutable { directory: false }
    );
}

#[test]
fn a_token_with_a_separator_is_a_literal_path() {
    let snapshot = vec![file("./run", 0o755), file("/bin/run", 0o755)];
    assert_eq!(
        resolve("./run", &path(&["/bin"]), &snapshot),
        Resolved::External("./run".to_string())
    );
    assert_eq!(
        resolve("sub/run", &path(&["/bin"]), &snapshot),
        Resolved::NotFound
    );
}

#[test]
fn built_in_commands_are_looked_up_first() {
    let snapshot = vec![file("/bin/cd", 0o755)];
    assert_eq!(
        resolve("cd", &path(&["/bin"]), &snapshot),
        Resolved::Builtin(Builtin::ChangeDirectory)
    );
}

#[test]
fn resolution_is_deterministic() {
    let snapshot =
        vec![file("/bin/echo", 0o755), file("/usr/bin/echo", 0o644), dir("/opt/echo", 0o755)];
    for token in ["echo", "cd", "nope", "./echo", "/bin/echo"] {
        for dirs in [path(&["/bin", "/usr/bin"]), path(&["/usr/bin", "/bin"]), path(&["/opt"])] {
            let first = resolve(token, &dirs, &snapshot);
            let second = resolve(token, &dirs, &snapshot);
            assert_eq!(first, second);
        }
    }
}

#[test]
fn resolution_looks_at_the_candidates_only() {
    let dirs = path(&["/bin", "/usr/bin"]);
    let small = vec![file("/usr/bin/echo", 0o755)];
    let large = vec![
        file("/elsewhere/echo", 0o755),
        file("/usr/bin/echo", 0o755),
        dir("/usr/bin", 0o755),
        file("/bin/cat", 0o755),
    ];
    assert_eq!(resolve("echo", &dirs, &small), resolve("echo", &dirs, &large));
}

#[test]
fn failures_are_reported_in_one_line() {
    assert_eq!(Resolved::NotFound.report("nope"), Some("File nope does not exist".to_string()));
    assert_eq!(
        Resolved::NotExecutable { directory: false }.report("notes.txt"),
        Some("File notes.txt is not executable".to_string())
    );
    assert_eq!(
        Resolved::NotExecutable { directory: true }.report("src"),
        Some("Directory is not executable".to_string())
    );
    for line in [
        Resolved::NotFound.report("a"),
        Resolved::NotExecutable { directory: false }.report("a"),
        Resolved::NotExecutable { directory: true }.report("a"),
    ] {
        assert!(!line.unwrap().contains('\n'));
    }
}

#[test]
fn what_can_run_is_not_reported() {
    assert_eq!(Resolved::External("/bin/ls".to_string()).report("ls"), None);
    assert_eq!(Resolved::Builtin(Builtin::ChangeDirectory).report("cd"), None);
}
