//! Invocations: a program and the arguments that it is started with.

use vstd::prelude::*;

verus! {

/// A program name and the arguments to start it with, in order.
#[derive(Debug, Default, PartialEq, Eq)]
pub struct Invocation {
    pub program: String,
    pub arguments: Vec<String>,
}

/// An invocation as plain text.
pub struct InvocationView {
    pub program: Seq<char>,
    pub arguments: Seq<Seq<char>>,
}

impl View for Invocation {
    type V = InvocationView;

    open spec fn view(&self) -> InvocationView {
        InvocationView { program: self.program@, arguments: self.arguments.deep_view() }
    }
}

/// The flag by which a program is asked for its help text.
pub const HELP_FLAG: &'static str = "--help";

/// The invocation that asks a program for its help text: the program is the
/// first of `args`, its arguments are the rest of `args` and the help flag.
pub fn build_help_command(args: Vec<String>) -> (command: Invocation)
    requires
        args.len() > 0,
    ensures
        command@.program == args[0]@,
        command@.arguments == args.deep_view().skip(1).push(HELP_FLAG@),
{
    let program = args[0].clone();
    let mut arguments: Vec<String> = Vec::new();
    let mut i: usize = 1;
    while i < args.len()
        invariant
            1 <= i <= args.len(),
            arguments.deep_view() == args.deep_view().subrange(1, i as int),
        decreases args.len() - i,
    {
        let ghost before = arguments.deep_view();
        arguments.push(args[i].clone());
        proof {
            assert(arguments.deep_view() =~= before.push(args[i as int]@));
            assert(before.push(args[i as int]@) =~= args.deep_view().subrange(1, i + 1));
        }
        i += 1;
    }
    let ghost before = arguments.deep_view();
    arguments.push(HELP_FLAG.to_owned());
    proof {
        assert(arguments.deep_view() =~= before.push(HELP_FLAG@));
        assert(args.deep_view().subrange(1, args.len() as int) =~= args.deep_view().skip(1));
    }
    Invocation { program, arguments }
}

} // verus!
