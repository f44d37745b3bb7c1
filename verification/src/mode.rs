//! The command line: the program either synchronises or serves.

use crate::text::str_eq;
use vstd::prelude::*;

verus! {

/// What the program was asked to do.
#[derive(Debug, Clone, Copy, PartialEq, Eq, Structural)]
pub enum Mode {
    Sync,
    Web,
}

/// The mode that the arguments (without the program's name) ask for: exactly
/// one argument, `--sync` or `--web`.  `None` is a usage error.
pub open spec fn spec_parse_mode(args: Seq<Seq<char>>) -> Option<Mode> {
    if args.len() != 1 {
        None
    } else if args[0] == "--sync"@ {
        Some(Mode::Sync)
    } else if args[0] == "--web"@ {
        Some(Mode::Web)
    } else {
        None
    }
}

/// Reads the mode from the arguments that follow the program's name.
pub fn parse_mode(args: &Vec<String>) -> (res: Option<Mode>)
    ensures
        res == spec_parse_mode(args@.map_values(|a: String| a@)),
{
    if args.len() != 1 {
        return None;
    }
    let arg = args[0].as_str();
    if str_eq(arg, "--sync") {
        Some(Mode::Sync)
    } else if str_eq(arg, "--web") {
        Some(Mode::Web)
    } else {
        None
    }
}

} // verus!
