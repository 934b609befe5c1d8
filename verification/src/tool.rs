use vstd::prelude::*;
use vstd::string::StringExecFns;
use crate::util::extensions::{CommandExit, CommandOutputExt};

verus! {

/// The views of a sequence of strings.
pub open spec fn texts(strings: Seq<String>) -> Seq<Seq<char>> {
    Seq::new(strings.len(), |i: int| strings[i]@)
}

/// One run of an outside tool: the program and its arguments in order.
#[derive(Debug, PartialEq, Eq)]
pub struct ToolCommand {
    pub program: String,
    pub args: Vec<String>,
}

/// A `ToolCommand` as plain text.
pub struct ToolCommandView {
    pub program: Seq<char>,
    pub args: Seq<Seq<char>>,
}

impl View for ToolCommand {
    type V = ToolCommandView;

    open spec fn view(&self) -> ToolCommandView {
        ToolCommandView { program: self.program@, args: texts(self.args@) }
    }
}

impl ToolCommand {
    /// A run of `program` without arguments.
    pub fn new(program: &str) -> (r: ToolCommand)
        ensures
            r@.program == program@,
            r@.args == Seq::<Seq<char>>::empty(),
    {
        let r = ToolCommand { program: String::from_str(program), args: Vec::new() };
        assert(r@.args =~= Seq::<Seq<char>>::empty());
        r
    }

    /// Adds one argument at the end.
    pub fn arg(&mut self, text: &str)
        ensures
            final(self)@.program == old(self)@.program,
            final(self)@.args == old(self)@.args.push(text@),
    {
        self.args.push(String::from_str(text));
        assert(self@.args =~= old(self)@.args.push(text@));
    }
}

/// What a tool left behind when it ended: its status code, `None` where a
/// signal ended it, and what it wrote to its two streams.
#[derive(Debug, PartialEq, Eq)]
pub struct ToolOutput {
    pub code: Option<i32>,
    pub stdout: String,
    pub stderr: String,
}

impl CommandOutputExt for ToolOutput {
    open spec fn status_code(&self) -> Option<i32> {
        self.code
    }

    fn to_exitcode(&self) -> (r: CommandExit) {
        self.code.to_exitcode()
    }
}

} // verus!
