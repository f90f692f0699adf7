use portable_pty::CommandBuilder;
use ptyshell::launch::command_for;

fn command_line(command: &CommandBuilder) -> Vec<String> {
    command.get_argv().iter().map(|word| word.to_str().unwrap().to_string()).collect()
}

fn start_directory(command: &CommandBuilder) -> Option<String> {
    command.get_cwd().map(|dir| dir.to_str().unwrap().to_string())
}

#[test]
fn the_command_holds_the_program_and_its_arguments_in_order() {
    let arguments = vec!["-l".to_string(), "a b".to_string(), "".to_string(), "-l".to_string()];
    let command = command_for("/bin/ls", &arguments, "/tmp");
    assert_eq!(command_line(&command), vec!["/bin/ls", "-l", "a b", "", "-l"]);
}

#[test]
fn the_command_starts_in_the_working_directory() {
    let command = command_for("/bin/pwd", &vec![], "/home/me/src");
    assert_eq!(start_directory(&command), Some("/home/me/src".to_string()));
    assert_eq!(command_line(&command), vec!["/bin/pwd"]);
}

#[test]
fn the_command_is_no_default_program() {
    let command = command_for("./run", &vec!["x".to_string()], ".");
    assert!(!command.is_default_prog());
    assert_eq!(command_line(&command), vec!["./run", "x"]);
}
