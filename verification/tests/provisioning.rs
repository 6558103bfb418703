use odde::gateway::classify_exit;
use odde::gateway::refine_outcome;
use odde::gateway::CmdOutcome;
use odde::gateway::CommandError;
use odde::provision::authorized_keys_content;
use odde::provision::create_plan;
use odde::provision::destroy_result;
use odde::provision::destroy_step;
use odde::provision::home_dir;
use odde::provision::plan_result;
use odde::provision::setup_user_plan;
use odde::provision::step_command;
use odde::provision::step_ok;
use odde::provision::ProvisionStep;
use odde::ty::Config;
use odde::ty::GitConfig;
use odde::ty::User;

fn sample_user() -> User {
    User {
        name: "alice".to_string(),
        keys: vec!["ssh-ed25519 KEYONE".to_string(), "ssh-rsa KEYTWO".to_string()],
    }
}

fn sample_config() -> Config {
    Config {
        git: GitConfig {
            key: "webhook-key".to_string(),
            urls: vec!["https://github.com/acme/proj.git".to_string()],
        },
        users: vec![sample_user()],
    }
}

#[test]
fn create_plan_has_expected_steps() {
    let plan = create_plan(&sample_user(), &sample_config());
    assert_eq!(plan.len(), 5);
    match &plan[0] {
        ProvisionStep::MakeDir { path } => assert_eq!(path, "/home/alice"),
        _ => panic!("expected the home directory step first"),
    }
    match &plan[1] {
        ProvisionStep::CopyDir { from, to } => {
            assert_eq!(from, "/home/odde/proj");
            assert_eq!(to, "/home/alice/proj");
        }
        _ => panic!("expected the repository copy step"),
    }
    match &plan[2] {
        ProvisionStep::MakeDir { path } => assert_eq!(path, "/home/alice/.ssh"),
        _ => panic!("expected the .ssh directory step"),
    }
    match &plan[3] {
        ProvisionStep::WriteFile { path, content } => {
            assert_eq!(path, "/home/alice/.ssh/authorized_keys");
            assert_eq!(content, "ssh-ed25519 KEYONE\nssh-rsa KEYTWO");
        }
        _ => panic!("expected the authorized-keys overwrite step"),
    }
    match &plan[4] {
        ProvisionStep::Chown { owner, path } => {
            assert_eq!(owner, "alice:alice");
            assert_eq!(path, "/home/alice");
        }
        _ => panic!("expected the ownership fix last"),
    }
}

#[test]
fn create_twice_succeeds_and_writes_same_keys() {
    let user = sample_user();
    let config = sample_config();
    let first_plan = create_plan(&user, &config);
    let second_plan = create_plan(&user, &config);

    // first run: everything fresh
    let first_outcomes = vec![CmdOutcome::Success; 5];
    assert!(plan_result(&first_plan, &first_outcomes).is_ok());

    // second run: the directories already exist, which create absorbs
    let second_outcomes = vec![
        CmdOutcome::AlreadyExists,
        CmdOutcome::Success,
        CmdOutcome::AlreadyExists,
        CmdOutcome::Success,
        CmdOutcome::Success,
    ];
    assert!(plan_result(&second_plan, &second_outcomes).is_ok());

    // the authorized-keys file is a full overwrite with identical content,
    // so the re-run duplicates no key entries
    let (c1, c2) = match (&first_plan[3], &second_plan[3]) {
        (
            ProvisionStep::WriteFile { content: c1, .. },
            ProvisionStep::WriteFile { content: c2, .. },
        ) => (c1.clone(), c2.clone()),
        _ => panic!("expected the authorized-keys step in both plans"),
    };
    assert_eq!(c1, c2);
    assert_eq!(c1.matches("KEYONE").count(), 1);
}

#[test]
fn hard_failure_aborts_at_first_bad_step() {
    let plan = create_plan(&sample_user(), &sample_config());
    let outcomes = vec![
        CmdOutcome::Success,
        CmdOutcome::NonZeroExit(1),
        CmdOutcome::Success,
        CmdOutcome::Success,
        CmdOutcome::Success,
    ];
    let err = plan_result(&plan, &outcomes).unwrap_err();
    assert_eq!(err.step_index, 1);
    assert_eq!(err.outcome, CmdOutcome::NonZeroExit(1));
}

#[test]
fn already_exists_is_not_absorbed_by_copy_or_chown() {
    let plan = create_plan(&sample_user(), &sample_config());
    assert!(step_ok(&plan[0], &CmdOutcome::AlreadyExists));
    assert!(!step_ok(&plan[1], &CmdOutcome::AlreadyExists));
    assert!(!step_ok(&plan[4], &CmdOutcome::AlreadyExists));
}

#[test]
fn destroy_treats_missing_path_as_success() {
    assert!(destroy_result(CmdOutcome::Success).is_ok());
    assert!(destroy_result(CmdOutcome::NotFound).is_ok());
    let err = destroy_result(CmdOutcome::NonZeroExit(1)).unwrap_err();
    assert_eq!(err.outcome, CmdOutcome::NonZeroExit(1));
    assert!(destroy_result(CmdOutcome::SpawnFailed).is_err());
}

#[test]
fn destroy_step_removes_home_tree() {
    match destroy_step("alice") {
        ProvisionStep::RemoveDir { path } => assert_eq!(path, "/home/alice"),
        _ => panic!("expected a remove step"),
    }
}

#[test]
fn setup_plan_adds_account_before_anything_else() {
    let plan = setup_user_plan(&sample_user(), &sample_config());
    assert_eq!(plan.len(), 6);
    match &plan[0] {
        ProvisionStep::AddAccount { name } => assert_eq!(name, "alice"),
        _ => panic!("expected the account step first"),
    }
    match &plan[5] {
        ProvisionStep::Chown { .. } => {}
        _ => panic!("expected the ownership fix after the account step"),
    }
}

#[test]
fn step_commands_render_expected_arguments() {
    let cmd = step_command(&ProvisionStep::MakeDir { path: "/home/a".to_string() }).unwrap();
    assert_eq!(cmd.program, "sudo");
    assert_eq!(cmd.args, vec!["mkdir", "/home/a"]);

    let cmd = step_command(&ProvisionStep::RemoveDir { path: "/home/a".to_string() }).unwrap();
    assert_eq!(cmd.args, vec!["rm", "-rf", "/home/a"]);

    let cmd = step_command(&ProvisionStep::AddAccount { name: "a".to_string() }).unwrap();
    assert_eq!(cmd.args, vec!["useradd", "-s", "fish", "a"]);

    let cmd = step_command(&ProvisionStep::Chown {
        owner: "a:a".to_string(),
        path: "/home/a".to_string(),
    })
    .unwrap();
    assert_eq!(cmd.args, vec!["chown", "-R", "a:a", "/home/a"]);

    let cmd = step_command(&ProvisionStep::CopyDir {
        from: "/home/odde/x".to_string(),
        to: "/home/a/x".to_string(),
    })
    .unwrap();
    assert_eq!(cmd.args, vec!["cp", "-r", "/home/odde/x", "/home/a/x"]);

    assert!(step_command(&ProvisionStep::WriteFile {
        path: "p".to_string(),
        content: "c".to_string(),
    })
    .is_none());
}

#[test]
fn authorized_keys_content_joins_one_line_per_key() {
    let keys = vec!["k1".to_string(), "k2".to_string(), "k3".to_string()];
    assert_eq!(authorized_keys_content(&keys), "k1\nk2\nk3");
    assert_eq!(authorized_keys_content(&vec!["only".to_string()]), "only");
    assert_eq!(authorized_keys_content(&Vec::new()), "");
}

#[test]
fn home_dir_prefixes_home() {
    assert_eq!(home_dir("bob"), "/home/bob");
}

#[test]
fn exit_classification() {
    assert!(classify_exit(true, Some(0)).is_ok());
    assert_eq!(classify_exit(false, None).unwrap_err(), CommandError::SpawnFailed);
    assert_eq!(classify_exit(true, Some(2)).unwrap_err(), CommandError::NonZeroExit(2));
    assert_eq!(classify_exit(true, None).unwrap_err(), CommandError::NonZeroExit(-1));
}

#[test]
fn outcome_refinement_reads_error_text() {
    assert_eq!(refine_outcome(Ok(()), ""), CmdOutcome::Success);
    assert_eq!(
        refine_outcome(Err(CommandError::SpawnFailed), ""),
        CmdOutcome::SpawnFailed
    );
    assert_eq!(
        refine_outcome(
            Err(CommandError::NonZeroExit(1)),
            "mkdir: cannot create directory '/home/alice': File exists"
        ),
        CmdOutcome::AlreadyExists
    );
    assert_eq!(
        refine_outcome(
            Err(CommandError::NonZeroExit(9)),
            "useradd: user 'alice' already exists"
        ),
        CmdOutcome::AlreadyExists
    );
    assert_eq!(
        refine_outcome(
            Err(CommandError::NonZeroExit(1)),
            "rm: cannot remove '/home/alice': No such file or directory"
        ),
        CmdOutcome::NotFound
    );
    assert_eq!(
        refine_outcome(Err(CommandError::NonZeroExit(3)), "something else went wrong"),
        CmdOutcome::NonZeroExit(3)
    );
}
