//! The command line of the viewer: which input the arguments name.
use vstd::prelude::*;

use crate::transcoder::strs_equal;

verus! {

/// The input that the command line asks for.
#[derive(Debug, PartialEq, Eq)]
pub enum Source {
    /// No file was named, or help was asked for: print the usage and stop.
    Usage,
    /// Read from standard input (the argument `-`).
    Stdin,
    /// Read the file at this path.
    File(String),
}

/// The argument asks for help.
pub open spec fn asks_for_help(arg: Seq<char>) -> bool {
    arg == "--help"@ || arg == "-h"@
}

/// Only the two help flags ask for help: `--help` and `-h` do, and every other argument,
/// whatever it starts with, does not.
pub proof fn lemma_only_flags_ask_for_help(arg: Seq<char>)
    ensures
        asks_for_help(arg) <==> (arg == "--help"@ || arg == "-h"@),
{
}

/// Decides from the program's arguments (the program's name first) which input to read: the
/// usage when there is no first argument or it is `--help` or `-h`, standard input when it is
/// `-`, and otherwise the file it names.
pub fn source_from_args(args: &Vec<String>) -> (r: Source)
    ensures
        r is Usage <==> args.len() < 2 || asks_for_help(args[1]@),
        r is Stdin <==> args.len() >= 2 && args[1]@ == "-"@,
        r matches Source::File(path) ==> args.len() >= 2 && path@ == args[1]@,
        args.len() >= 2 && args[1]@ != "--help"@ && args[1]@ != "-h"@ && args[1]@ != "-"@ ==> (r
            matches Source::File(path) && path@ == args[1]@),
{
    proof {
        reveal_strlit("--help");
        reveal_strlit("-h");
        reveal_strlit("-");
        assert("--help"@.len() != "-"@.len());
        assert("-h"@.len() != "-"@.len());
    }
    if args.len() < 2 {
        return Source::Usage;
    }
    let arg = args[1].as_str();
    if strs_equal(arg, "--help") || strs_equal(arg, "-h") {
        Source::Usage
    } else if strs_equal(arg, "-") {
        Source::Stdin
    } else {
        Source::File(args[1].clone())
    }
}

} // verus!
