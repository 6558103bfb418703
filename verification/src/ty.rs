use vstd::prelude::*;

verus! {

/// A configured identity: a user name and the public keys that may log in as it.
/// Names are unique across a configuration; keys need not be.
#[derive(Clone)]
pub struct User {
    pub name: String,
    pub keys: Vec<String>,
}

/// The mirror section of the configuration: a webhook credential and the
/// repository URLs kept mirrored under the shared reference area.
#[derive(Clone)]
pub struct GitConfig {
    pub key: String,
    pub urls: Vec<String>,
}

/// The part of the configuration the daemon core works from: the identity
/// table and the mirror settings. Read-only after startup.
#[derive(Clone)]
pub struct Config {
    pub git: GitConfig,
    pub users: Vec<User>,
}

/// The request carried by the local login call: an opaque credential string.
#[derive(Clone)]
pub struct ODDERequest {
    pub key: String,
}

/// The identity table's invariant: no two entries share a name.
pub open spec fn names_unique(users: Seq<User>) -> bool {
    forall|i: int, j: int|
        0 <= i < j < users.len() ==> users[i].name@ != users[j].name@
}

/// Checks the uniqueness invariant of an identity table.
pub fn check_names_unique(users: &Vec<User>) -> (r: bool)
    ensures
        r == names_unique(users@),
{
    let mut i: usize = 0;
    while i < users.len()
        invariant
            i <= users@.len(),
            forall|p: int, q: int| 0 <= p < q < users@.len() && p < i ==> users@[p].name@ != users@[q].name@,
        decreases users@.len() - i,
    {
        let mut j: usize = i + 1;
        while j < users.len()
            invariant
                i < j <= users@.len() || (i >= users@.len()),
                i < users@.len(),
                i + 1 <= j,
                forall|p: int, q: int| 0 <= p < q < users@.len() && p < i ==> users@[p].name@ != users@[q].name@,
                forall|q: int| i < q < j ==> users@[i as int].name@ != users@[q].name@,
            decreases users@.len() - j,
        {
            if users[i].name.eq(&users[j].name) {
                return false;
            }
            j += 1;
        }
        i += 1;
    }
    true
}

/// Builds the identity table from plain name and key-list pairs, as the
/// configuration file stores it.
pub fn users_from_pairs(pairs: &Vec<(String, Vec<String>)>) -> (r: Vec<User>)
    ensures
        r@.len() == pairs@.len(),
        forall|i: int|
            0 <= i < pairs@.len() ==> #[trigger] r@[i].name@ == pairs@[i].0@ && r@[i].keys.deep_view()
                == pairs@[i].1.deep_view(),
{
    let mut r: Vec<User> = Vec::new();
    let mut i: usize = 0;
    while i < pairs.len()
        invariant
            i <= pairs@.len(),
            r@.len() == i,
            forall|k: int|
                0 <= k < i ==> #[trigger] r@[k].name@ == pairs@[k].0@ && r@[k].keys.deep_view()
                    == pairs@[k].1.deep_view(),
        decreases pairs@.len() - i,
    {
        let name = pairs[i].0.clone();
        let keys = pairs[i].1.clone();
        r.push(User { name, keys });
        i += 1;
    }
    r
}

} // verus!
