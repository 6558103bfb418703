use odde::giturl::git_id;
use odde::home;
use odde::listing::first_field;
use odde::listing::logged_in_users_from_listing;
use odde::listing::login_names;
use odde::listing::split_lines;
use odde::rpc::handle_login_request;
use odde::rpc::key_matches;
use odde::rpc::resolve_identity;
use odde::text::str_contains;
use odde::ty::check_names_unique;
use odde::ty::users_from_pairs;
use odde::ty::ODDERequest;
use odde::ty::User;

fn user(name: &str, keys: &[&str]) -> User {
    User {
        name: name.to_string(),
        keys: keys.iter().map(|k| k.to_string()).collect(),
    }
}

#[test]
fn home_is_the_shared_reference_root() {
    assert_eq!(home(), "/home/odde");
}

#[test]
fn git_id_strips_suffix_and_path() {
    assert_eq!(git_id("git@github.com:RMHEDGE/rm-applications.git"), "rm-applications");
    assert_eq!(git_id("https://github.com/owner/repo"), "repo");
    assert_eq!(git_id("https://github.com/owner/repo.git"), "repo");
    assert_eq!(git_id("repo.git"), "repo");
    assert_eq!(git_id(""), "");
    assert_eq!(git_id("https://github.com/owner/repo/"), "");
}

#[test]
fn listing_lines_split_at_newlines() {
    assert_eq!(split_lines("a\nb"), vec!["a", "b"]);
    assert_eq!(split_lines("a\n"), vec!["a", ""]);
    assert_eq!(split_lines(""), vec![""]);
    assert_eq!(split_lines("a\n\nb"), vec!["a", "", "b"]);
}

#[test]
fn first_field_skips_leading_whitespace() {
    assert_eq!(first_field("alice tty1 2024-01-01"), "alice");
    assert_eq!(first_field("  bob\tpts/0"), "bob");
    assert_eq!(first_field("   "), "");
    assert_eq!(first_field(""), "");
    assert_eq!(first_field("carol\r"), "carol");
}

#[test]
fn login_names_one_per_nonblank_line() {
    let listing = "alice tty1 2024-01-01 09:00\nbob  pts/0\n\n  \ncarol pts/1\n";
    assert_eq!(login_names(listing), vec!["alice", "bob", "carol"]);
}

#[test]
fn only_configured_names_count_as_logins() {
    let users = vec![user("alice", &["k1"]), user("carol", &["k2"])];
    let listing = "alice tty1\nmallory pts/0\ncarol pts/1\n";
    let logged_in = logged_in_users_from_listing(listing, &users);
    assert_eq!(logged_in, vec!["alice", "carol"]);
}

#[test]
fn key_matching_is_exact() {
    let u = user("alice", &["ssh-ed25519 AAAA", "ssh-rsa BBBB"]);
    assert!(key_matches(&u, &"ssh-rsa BBBB".to_string()));
    assert!(!key_matches(&u, &"ssh-rsa BBB".to_string()));
    assert!(!key_matches(&u, &"prefix ssh-rsa BBBB".to_string()));
}

#[test]
fn resolution_picks_first_matching_identity() {
    let users = vec![
        user("alice", &["shared-key"]),
        user("bob", &["shared-key", "bob-key"]),
    ];
    assert_eq!(resolve_identity(&users, &"shared-key".to_string()), Some(0));
    assert_eq!(resolve_identity(&users, &"bob-key".to_string()), Some(1));
    assert_eq!(resolve_identity(&users, &"nobody".to_string()), None);
}

#[test]
fn unmatched_login_request_is_acknowledged_without_provisioning() {
    let users = vec![user("alice", &["k1"])];
    let request = ODDERequest { key: "unknown-key".to_string() };
    let outcome = handle_login_request(&users, &request);
    assert!(outcome.ack);
    assert_eq!(outcome.provision, None);
}

#[test]
fn matched_login_request_provisions_that_identity() {
    let users = vec![user("alice", &["k1"]), user("bob", &["k2"])];
    let request = ODDERequest { key: "k2".to_string() };
    let outcome = handle_login_request(&users, &request);
    assert!(outcome.ack);
    assert_eq!(outcome.provision, Some(1));
}

#[test]
fn identity_table_from_config_pairs() {
    let pairs = vec![
        ("alice".to_string(), vec!["k1".to_string(), "k2".to_string()]),
        ("bob".to_string(), vec![]),
    ];
    let users = users_from_pairs(&pairs);
    assert_eq!(users.len(), 2);
    assert_eq!(users[0].name, "alice");
    assert_eq!(users[0].keys, vec!["k1", "k2"]);
    assert_eq!(users[1].name, "bob");
    assert!(users[1].keys.is_empty());
}

#[test]
fn name_uniqueness_check() {
    let unique = vec![user("alice", &[]), user("bob", &[])];
    assert!(check_names_unique(&unique));
    let clashing = vec![user("alice", &[]), user("alice", &[])];
    assert!(!check_names_unique(&clashing));
}

#[test]
fn substring_search() {
    assert!(str_contains("mkdir: File exists", "File exists"));
    assert!(str_contains("abc", ""));
    assert!(!str_contains("short", "much longer needle"));
    assert!(!str_contains("abcd", "bd"));
}
