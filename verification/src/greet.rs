//! The demo greeting, built here so the host layer only has to show it.

use vstd::prelude::*;

verus! {

/// The greeting for `name`: `Hello, ` then the name then `!`.
pub fn greeting(name: &str) -> (r: String)
    ensures
        r@ == "Hello, "@ + name@ + "!"@,
{
    let mut r = String::from_str("Hello, ");
    r.append(name);
    r.append("!");
    proof {
        assert(r@ =~= "Hello, "@ + name@ + "!"@);
    }
    r
}

} // verus!
