use vstd::prelude::*;

pub mod gateway;
pub mod giturl;
pub mod listing;
pub mod provision;
pub mod refresh;
pub mod rpc;
pub mod session;
pub mod text;
pub mod ty;
pub mod webhook;

verus! {

/// Root of the daemon's shared area: mirrored repositories are kept under
/// this directory and copied from it into each provisioned account.
pub fn home() -> (r: String)
    ensures
        r@ == "/home/odde"@,
{
    String::from_str("/home/odde")
}

} // verus!
