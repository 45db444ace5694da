//! A companion overlay code engine: hotkey registry, overlay visibility and
//! engine run state.
use vstd::prelude::*;

pub mod engine;
pub mod hotkey;
pub mod laws;
pub mod overlay;

verus! {

/// Version of this library.
pub const VERSION: &'static str = "0.1.0";

/// Returns the version of this library.
pub fn version() -> (r: &'static str)
    ensures
        r@ == VERSION@,
{
    VERSION
}

/// The greeting text for `name`.
pub open spec fn greeting(name: Seq<char>) -> Seq<char> {
    "Hello, "@ + name + " from AicodeX!"@
}

/// Greets `name`: `Hello, <name> from AicodeX!`.
pub fn greet(name: &str) -> (r: String)
    ensures
        r@ == greeting(name@),
{
    let mut r = "Hello, ".to_owned();
    r.append(name);
    r.append(" from AicodeX!");
    r
}

} // verus!
