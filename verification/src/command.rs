//! Command lines of the programs that the discovery runs.

use vstd::prelude::*;

verus! {

/// A program and the arguments to run it with.
#[derive(Debug)]
pub struct CommandLine {
    pub program: String,
    pub args: Vec<String>,
}

/// The contents of a [`CommandLine`].
#[verifier::ext_equal]
pub struct CommandLineView {
    pub program: Seq<char>,
    pub args: Seq<Seq<char>>,
}

impl View for CommandLine {
    type V = CommandLineView;

    open spec fn view(&self) -> CommandLineView {
        CommandLineView { program: self.program@, args: self.args.deep_view() }
    }
}

impl CommandLine {
    /// The program without arguments.
    pub fn new(program: &str) -> (result: Self)
        ensures
            result@ == (CommandLineView { program: program@, args: seq![] }),
    {
        let result = CommandLine { program: program.to_owned(), args: Vec::new() };
        assert(result.args.deep_view() == Seq::<Seq<char>>::empty());
        result
    }

    /// Adds an argument after those that are there.
    pub fn arg(&mut self, arg: &str)
        ensures
            final(self)@ == (CommandLineView {
                program: old(self)@.program,
                args: old(self)@.args.push(arg@),
            }),
    {
        let ghost before = self.args.deep_view();
        self.args.push(arg.to_owned());
        assert(self.args.deep_view() == before.push(arg@));
    }
}

/// All of a command line is among its contents.
pub proof fn law_command_line_contents(command: CommandLine)
    ensures
        command@.program == command.program@,
        command@.args.len() == command.args@.len(),
        forall|i: int|
            0 <= i < command.args@.len() ==> #[trigger] command@.args[i] == command.args@[i]@,
{
}

} // verus!
