use ptyshell::command::{parse, Invocation, Parsed};
use ptyshell::dispatch::{
    decide, paths_to_probe, plan_cd, report_no_home, CdPlan, Decision, WorkingDirectory,
};
use ptyshell::resolve::FileStatus;

fn invocation(line: &str) -> Invocation {
    match parse(line) {
        Parsed::Command(invocation) => invocation,
        other => panic!("{:?} is no command", other),
    }
}

fn file(path: &str, mode: u32) -> FileStatus {
    FileStatus { path: path.to_string(), is_dir: false, mode }
}

fn search_path() -> Vec<String> {
    vec!["/usr/local/bin".to_string(), "/usr/bin".to_string(), "/bin".to_string()]
}

#[test]
fn echo_hi_launches_echo_with_one_argument() {
    let snapshot = vec![file("/bin/echo", 0o755)];
    let decision = decide(&invocation("echo hi"), Some("/home/me"), &search_path(), &snapshot);
    assert_eq!(
        decision,
        Decision::Launch { program: "/bin/echo".to_string(), arguments: vec!["hi".to_string()] }
    );
}

#[test]
fn arguments_of_a_program_are_split_on_whitespace() {
    let snapshot = vec![file("/usr/bin/ls", 0o755)];
    let decision = decide(&invocation("ls   -l \t -a  src"), None, &search_path(), &snapshot);
    assert_eq!(
        decision,
        Decision::Launch {
            program: "/usr/bin/ls".to_string(),
            arguments: vec!["-l".to_string(), "-a".to_string(), "src".to_string()],
        }
    );
}

#[test]
fn a_program_without_arguments_gets_none() {
    let snapshot = vec![file("/usr/bin/ls", 0o755)];
    let decision = decide(&invocation("ls"), None, &search_path(), &snapshot);
    assert_eq!(
        decision,
        Decision::Launch { program: "/usr/bin/ls".to_string(), arguments: vec![] }
    );
}

#[test]
fn a_missing_program_is_reported() {
    let decision = decide(&invocation("nope -x"), None, &search_path(), &vec![]);
    assert_eq!(decision, Decision::Report("File nope does not exist".to_string()));
}

#[test]
fn a_file_that_may_not_run_is_reported() {
    let snapshot = vec![file("/bin/notes", 0o644)];
    let decision = decide(&invocation("notes"), None, &search_path(), &snapshot);
    assert_eq!(decision, Decision::Report("File notes is not executable".to_string()));
}

#[test]
fn a_directory_is_reported() {
    let snapshot = vec![FileStatus { path: "./src".to_string(), is_dir: true, mode: 0o755 }];
    let decision = decide(&invocation("./src"), None, &search_path(), &snapshot);
    assert_eq!(decision, Decision::Report("Directory is not executable".to_string()));
}

#[test]
fn cd_with_a_path_goes_there() {
    let decision = decide(&invocation("cd /tmp"), Some("/home/me"), &search_path(), &vec![]);
    assert_eq!(decision, Decision::ChangeDirectory("/tmp".to_string()));
}

#[test]
fn cd_takes_its_argument_as_typed() {
    let decision = decide(&invocation("cd  my  dir"), Some("/home/me"), &search_path(), &vec![]);
    assert_eq!(decision, Decision::ChangeDirectory("my  dir".to_string()));
}

#[test]
fn cd_alone_goes_home() {
    let decision = decide(&invocation("cd"), Some("/home/me"), &search_path(), &vec![]);
    assert_eq!(decision, Decision::ChangeDirectory("/home/me".to_string()));
    assert_eq!(plan_cd("", Some("/home/me")), CdPlan::Go("/home/me".to_string()));
}

#[test]
fn cd_alone_without_a_home_is_reported() {
    let decision = decide(&invocation("cd"), None, &search_path(), &vec![]);
    assert_eq!(decision, Decision::Report("No home directory found".to_string()));
    assert_eq!(plan_cd("", None), CdPlan::NoHome);
    assert_eq!(report_no_home(), "No home directory found");
}

#[test]
fn cd_with_a_path_needs_no_home() {
    assert_eq!(plan_cd("/tmp", None), CdPlan::Go("/tmp".to_string()));
}

#[test]
fn a_built_in_command_needs_no_probe() {
    assert_eq!(paths_to_probe("cd", &search_path()), Vec::<String>::new());
}

#[test]
fn a_program_is_probed_on_the_search_path() {
    assert_eq!(
        paths_to_probe("ls", &search_path()),
        vec!["/usr/local/bin/ls".to_string(), "/usr/bin/ls".to_string(), "/bin/ls".to_string()]
    );
    assert_eq!(paths_to_probe("./ls", &search_path()), vec!["./ls".to_string()]);
}

#[test]
fn a_failed_cd_leaves_the_directory_and_names_the_path() {
    let mut cwd = WorkingDirectory::new("/home/me".to_string());
    let line = cwd
        .changed("/nonexistent", Err("No such file or directory (os error 2)".to_string()))
        .unwrap();
    assert_eq!(line, "cd: /nonexistent: No such file or directory (os error 2)");
    assert!(line.contains("/nonexistent"));
    assert!(!line.contains('\n'));
    assert_eq!(cwd.path(), "/home/me");
}

#[test]
fn a_failed_cd_does_not_change_what_is_launched_next() {
    let snapshot = vec![file("./tool", 0o755)];
    let mut cwd = WorkingDirectory::new("/work".to_string());
    let before = decide(&invocation("./tool"), None, &search_path(), &snapshot);
    let reported = cwd.changed("/nonexistent", Err("No such file or directory".to_string()));
    assert!(reported.is_some());
    let after = decide(&invocation("./tool"), None, &search_path(), &snapshot);
    assert_eq!(before, after);
    assert_eq!(cwd.path(), "/work");
}

#[test]
fn a_cd_that_worked_moves_the_shell() {
    let mut cwd = WorkingDirectory::new("/home/me".to_string());
    assert_eq!(cwd.changed("src", Ok("/home/me/src".to_string())), None);
    assert_eq!(cwd.path(), "/home/me/src");
}
