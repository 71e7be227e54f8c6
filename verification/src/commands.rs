//! The two built-in operation handlers and the exact text each returns.

use vstd::prelude::*;
use vstd::string::StringExecFns;

verus! {

/// The exact text `greet` returns for a given name: a fixed prefix, the name
/// exactly as given (no trimming or escaping), and a fixed suffix.
pub open spec fn greeting(name: Seq<char>) -> Seq<char> {
    "Hello, "@ + name + "! You've been greeted from Rust!"@
}

/// The fixed acknowledgement `test_python_connection` returns. No connection
/// to the intended backend is attempted in this version.
pub open spec fn python_ack() -> Seq<char> {
    "Python connection test from Tauri v2"@
}

/// Format the greeting for `name`.
pub fn greet(name: &str) -> (r: String)
    ensures
        r@ == greeting(name@),
{
    let mut r = String::from_str("Hello, ");
    r.append(name);
    r.append("! You've been greeted from Rust!");
    r
}

/// Acknowledge a connection test without contacting any backend process.
pub fn test_python_connection() -> (r: String)
    ensures
        r@ == python_ack(),
{
    String::from_str("Python connection test from Tauri v2")
}

/// `greet` is pure: its result is a function of the name alone, so repeated
/// calls with the same input return the same text.
pub proof fn lemma_greeting_deterministic(a: Seq<char>, b: Seq<char>)
    requires
        a == b,
    ensures
        greeting(a) == greeting(b),
{
}

} // verus!
