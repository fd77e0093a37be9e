//! The welcome line the UI shows when it greets a user.

use vstd::prelude::*;
use vstd::string::StringExecFns;

verus! {

/// The greeting for `name`, exactly the prefix, the name, and the welcome.
pub fn greet(name: &str) -> (r: String)
    ensures
        r@ == "Hello, "@ + name@ + "! Welcome to Suno Prompt Architect!"@,
{
    let mut s = String::from_str("Hello, ");
    s.append(name);
    s.append("! Welcome to Suno Prompt Architect!");
    proof {
        assert(s@ =~= "Hello, "@ + name@ + "! Welcome to Suno Prompt Architect!"@);
    }
    s
}

} // verus!
