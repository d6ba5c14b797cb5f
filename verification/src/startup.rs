//! What the program is started for.
use vstd::prelude::*;

use crate::text::{str_eq, texts};

verus! {

/// What the program is started for.
#[derive(Debug, Clone, Copy, PartialEq, Eq, Structural)]
pub enum Startup {
    Help,
    Version,
    /// Made-up messages, without an account.
    Demo { debug: bool },
    Mail { debug: bool },
}

/// What arguments ask for. Help comes before the version, and both before anything else.
pub open spec fn startup_of(args: Seq<Seq<char>>) -> Startup {
    let debug = args.contains("--debug"@);
    if args.contains("--help"@) || args.contains("-h"@) {
        Startup::Help
    } else if args.contains("--version"@) || args.contains("-V"@) {
        Startup::Version
    } else if args.contains("--demo"@) {
        Startup::Demo { debug }
    } else {
        Startup::Mail { debug }
    }
}

/// Whether an argument is among some.
pub fn has_argument(args: &Vec<String>, arg: &str) -> (r: bool)
    ensures
        r == texts(args@).contains(arg@),
{
    let ghost all = texts(args@);
    let mut i: usize = 0;
    while i < args.len()
        invariant
            i <= args@.len(),
            all == texts(args@),
            forall|k: int| 0 <= k < i ==> #[trigger] all[k] != arg@,
        decreases args@.len() - i,
    {
        assert(all[i as int] == args@[i as int]@);
        if str_eq(args[i].as_str(), arg) {
            return true;
        }
        i += 1;
    }
    false
}

/// What arguments ask for.
pub fn startup(args: &Vec<String>) -> (r: Startup)
    ensures
        r == startup_of(texts(args@)),
{
    let debug: bool = has_argument(args, "--debug");
    if has_argument(args, "--help") || has_argument(args, "-h") {
        Startup::Help
    } else if has_argument(args, "--version") || has_argument(args, "-V") {
        Startup::Version
    } else if has_argument(args, "--demo") {
        Startup::Demo { debug }
    } else {
        Startup::Mail { debug }
    }
}

} // verus!
