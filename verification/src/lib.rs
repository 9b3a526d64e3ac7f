pub mod text;
pub mod foreign;
pub mod keyed;
pub mod env;
pub mod vault;
pub mod session;
pub mod runtime;
pub mod marketplace;
pub mod db;
pub mod network;
pub mod proxy;
pub mod policy;
pub mod worker;
pub mod telemetry;

use vstd::prelude::*;

verus! {

/// The greeting for `name`.
pub fn greet(name: &str) -> (r: String)
    ensures
        r@ == "Hello, "@ + name@ + "! You've been greeted from Rust!"@,
{
    crate::text::join3("Hello, ", name, "! You've been greeted from Rust!")
}

} // verus!
