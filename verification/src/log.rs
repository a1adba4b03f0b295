//! Messages for the log.

use vstd::prelude::*;
use vstd::string::StringExecFns;

verus! {

/// The log message for a built-in command that is about to run.
pub open spec fn command_message(name: Seq<char>) -> Seq<char> {
    "Executing built-in `"@ + name + "` command"@
}

/// Builds the log message for the built-in `name`.
pub fn command(name: &str) -> (r: String)
    ensures
        r@ == command_message(name@),
{
    let mut r = String::from_str("Executing built-in `");
    r.append(name);
    r.append("` command");
    r
}

} // verus!
