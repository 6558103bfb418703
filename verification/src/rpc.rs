use vstd::prelude::*;

use crate::ty::ODDERequest;
use crate::ty::User;

verus! {

/// An identity matches a presented credential when one of its configured
/// keys equals it exactly.
pub open spec fn spec_key_matches(user: User, key: Seq<char>) -> bool {
    exists|i: int| 0 <= i < user.keys@.len() && user.keys@[i]@ == key
}

/// Whether one identity's key set holds the presented credential.
pub fn key_matches(user: &User, key: &String) -> (r: bool)
    ensures
        r == spec_key_matches(*user, key@),
{
    let mut i: usize = 0;
    while i < user.keys.len()
        invariant
            i <= user.keys@.len(),
            forall|j: int| 0 <= j < i ==> user.keys@[j]@ != key@,
        decreases user.keys@.len() - i,
    {
        if user.keys[i].eq(key) {
            proof {
                assert(user.keys@[i as int]@ == key@);
            }
            return true;
        }
        i += 1;
    }
    false
}

/// Resolves a credential to the first configured identity one of whose
/// keys equals it, or to nothing when no identity matches.
pub fn resolve_identity(users: &Vec<User>, key: &String) -> (r: Option<usize>)
    ensures
        match r {
            Some(i) => i < users@.len() && spec_key_matches(users@[i as int], key@) && forall|
                j: int,
            | 0 <= j < i ==> !spec_key_matches(users@[j], key@),
            None => forall|j: int| 0 <= j < users@.len() ==> !spec_key_matches(users@[j], key@),
        },
{
    let mut i: usize = 0;
    while i < users.len()
        invariant
            i <= users@.len(),
            forall|j: int| 0 <= j < i ==> !spec_key_matches(users@[j], key@),
        decreases users@.len() - i,
    {
        if key_matches(&users[i], key) {
            return Some(i);
        }
        i += 1;
    }
    None
}

/// The gateway's answer to one login call: the acknowledgement sent back to
/// the caller, and which configured identity, if any, to provision.
pub struct RpcOutcome {
    pub ack: bool,
    pub provision: Option<usize>,
}

/// Handles one login request. The acknowledgement is always `true`: account
/// creation is a convenience layer, so the login is never failed over a
/// provisioning mismatch — a credential that resolves to no identity is
/// only logged, and triggers no provisioning call (`provision` is `None`).
pub fn handle_login_request(users: &Vec<User>, request: &ODDERequest) -> (r: RpcOutcome)
    ensures
        r.ack == true,
        match r.provision {
            Some(i) => i < users@.len() && spec_key_matches(users@[i as int], request.key@)
                && forall|j: int| 0 <= j < i ==> !spec_key_matches(users@[j], request.key@),
            None => forall|j: int|
                0 <= j < users@.len() ==> !spec_key_matches(users@[j], request.key@),
        },
{
    RpcOutcome { ack: true, provision: resolve_identity(users, &request.key) }
}

} // verus!
