use vstd::prelude::*;
use vstd::string::StringExecFns;

verus! {

/// A greeting for `name`: `Hello, <name>!`.
pub fn greet(name: &str) -> (r: String)
    ensures
        r@ == "Hello, "@ + name@ + "!"@,
{
    let mut r = String::from_str("Hello, ");
    r.append(name);
    r.append("!");
    r
}

} // verus!
