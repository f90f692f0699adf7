//! The command that the bridge spawns: the program, its arguments and the
//! directory it starts in, as `portable_pty` takes them.

use portable_pty::CommandBuilder;
use vstd::prelude::*;

verus! {

/// The command builder of `portable_pty`. Nothing inside it is seen here;
/// `argv` and `directory` name what it holds.
#[verifier::external_type_specification]
#[verifier::external_body]
pub struct ExCommandBuilder(portable_pty::CommandBuilder);

/// The command line that `command` holds: the program, then its arguments.
pub uninterp spec fn argv(command: CommandBuilder) -> Seq<Seq<char>>;

/// The directory in which `command` is to start, if one is set.
pub uninterp spec fn directory(command: CommandBuilder) -> Option<Seq<char>>;

/// `CommandBuilder::new` of `portable_pty`: a command whose command line
/// holds `program` and nothing else, and for which no directory is set.
#[verifier::external_body]
fn new_command(program: &str) -> (command: CommandBuilder)
    ensures
        argv(command) == seq![program@],
        directory(command) is None,
{
    CommandBuilder::new(program)
}

/// `CommandBuilder::arg` of `portable_pty`: `argument` goes to the end of the
/// command line, and the directory stays. It panics on a command without a
/// program, which `requires` leaves out.
#[verifier::external_body]
fn add_argument(command: &mut CommandBuilder, argument: &str)
    requires
        argv(*old(command)).len() > 0,
    ensures
        argv(*final(command)) == argv(*old(command)).push(argument@),
        directory(*final(command)) == directory(*old(command)),
{
    command.arg(argument)
}

/// `CommandBuilder::cwd` of `portable_pty`: `dir` becomes the directory in
/// which the command is to start, and the command line stays.
#[verifier::external_body]
fn set_directory(command: &mut CommandBuilder, dir: &str)
    ensures
        argv(*final(command)) == argv(*old(command)),
        directory(*final(command)) == Some(dir@),
{
    command.cwd(dir)
}

/// The command that runs `program` with `arguments`, each as it stands and
/// in their order, in the directory `working_directory`.
pub fn command_for(program: &str, arguments: &Vec<String>, working_directory: &str) -> (command:
    CommandBuilder)
    ensures
        argv(command) == seq![program@] + arguments.deep_view(),
        directory(command) == Some(working_directory@),
{
    let mut command = new_command(program);
    set_directory(&mut command, working_directory);
    let ghost all = arguments.deep_view();
    let mut i: usize = 0;
    assert(seq![program@] + all.take(0) == seq![program@]);
    while i < arguments.len()
        invariant
            i <= arguments.len(),
            all == arguments.deep_view(),
            argv(command) == seq![program@] + all.take(i as int),
            directory(command) == Some(working_directory@),
        decreases arguments.len() - i,
    {
        add_argument(&mut command, arguments[i].as_str());
        assert(all.take(i + 1) == all.take(i as int).push(arguments@[i as int]@));
        assert((seq![program@] + all.take(i as int)).push(arguments@[i as int]@) == seq![
            program@,
        ] + all.take(i + 1));
        i += 1;
    }
    assert(all.take(i as int) == all);
    command
}

} // verus!
