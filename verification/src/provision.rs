use vstd::prelude::*;

use crate::gateway::CmdOutcome;
use crate::gateway::CommandSpec;
use crate::giturl::git_id;
use crate::giturl::spec_git_id;
use crate::ty::Config;
use crate::ty::User;

verus! {

/// One step of an account lifecycle operation. `WriteFile` is carried out
/// as a single full overwrite of the target file; every other step runs as
/// an external command through the gateway.
pub enum ProvisionStep {
    /// Create the OS-level account if it is absent.
    AddAccount { name: String },
    MakeDir { path: String },
    CopyDir { from: String, to: String },
    WriteFile { path: String, content: String },
    Chown { owner: String, path: String },
    RemoveDir { path: String },
}

/// Why a provisioning operation failed: the step at `step_index` of its
/// plan ended with `outcome`, which that step does not absorb.
pub struct ProvisionError {
    pub step_index: usize,
    pub outcome: CmdOutcome,
}

/// Where an identity's scratch home directory lives.
pub open spec fn spec_home_dir(name: Seq<char>) -> Seq<char> {
    "/home/"@ + name
}

/// The full content of an identity's authorized-keys file: one line per
/// configured key.
pub open spec fn spec_keys_content(keys: Seq<Seq<char>>) -> Seq<char>
    decreases keys.len(),
{
    if keys.len() == 0 {
        Seq::empty()
    } else if keys.len() == 1 {
        keys[0]
    } else {
        spec_keys_content(keys.drop_last()) + "\n"@ + keys.last()
    }
}

/// Builds an identity's home directory path.
pub fn home_dir(name: &str) -> (r: String)
    ensures
        r@ == spec_home_dir(name@),
{
    let mut r = String::from_str("/home/");
    r.append(name);
    r
}

/// Renders the full authorized-keys file for an identity, one key per line.
pub fn authorized_keys_content(keys: &Vec<String>) -> (r: String)
    ensures
        r@ == spec_keys_content(keys.deep_view()),
{
    let ghost ks = keys.deep_view();
    let mut r = String::new();
    let mut i: usize = 0;
    while i < keys.len()
        invariant
            i <= ks.len(),
            ks == keys.deep_view(),
            ks.len() == keys@.len(),
            r@ == spec_keys_content(ks.take(i as int)),
        decreases keys@.len() - i,
    {
        if i > 0 {
            r.append("\n");
        }
        r.append(keys[i].as_str());
        proof {
            assert(ks.take(i + 1).drop_last() =~= ks.take(i as int));
            assert(ks.take(i + 1).last() == ks[i as int]);
            if i == 0 {
                assert(r@ =~= spec_keys_content(ks.take(1)));
            } else {
                assert(r@ =~= spec_keys_content(ks.take(i as int)) + "\n"@ + ks[i as int]);
            }
        }
        i += 1;
    }
    proof {
        assert(ks.take(ks.len() as int) =~= ks);
    }
    r
}

/// One repository-copy step of a create plan: the mirror reference copy of
/// `url` is copied into the identity's home directory.
pub open spec fn spec_is_copy_step(step: ProvisionStep, url: Seq<char>, home: Seq<char>) -> bool {
    step matches ProvisionStep::CopyDir { from, to } && from@ == "/home/odde/"@ + spec_git_id(url)
        && to@ == home + "/"@ + spec_git_id(url)
}

/// The shape of a create plan for `user` over the mirrored repository URLs:
/// make the home directory, copy each mirrored repository into it, make the
/// `.ssh` directory, overwrite `authorized_keys` with one line per key, and
/// finally hand the whole tree to the identity's own account. The ownership
/// fix comes last and assumes the OS account already exists.
pub open spec fn spec_is_create_plan(
    steps: Seq<ProvisionStep>,
    user: User,
    urls: Seq<Seq<char>>,
) -> bool {
    let home = spec_home_dir(user.name@);
    let k = urls.len() as int;
    &&& steps.len() == k + 4
    &&& steps[0] matches ProvisionStep::MakeDir { path } && path@ == home
    &&& forall|i: int| #![trigger urls[i]]
        0 <= i < k ==> spec_is_copy_step(steps[1 + i], urls[i], home)
    &&& steps[k + 1] matches ProvisionStep::MakeDir { path } && path@ == home + "/.ssh"@
    &&& steps[k + 2] matches ProvisionStep::WriteFile { path, content } && path@ == home
        + "/.ssh/authorized_keys"@ && content@ == spec_keys_content(user.keys.deep_view())
    &&& steps[k + 3] matches ProvisionStep::Chown { owner, path } && owner@ == user.name@ + ":"@
        + user.name@ && path@ == home
}

/// Lays out the create plan for one identity.
pub fn create_plan(user: &User, config: &Config) -> (r: Vec<ProvisionStep>)
    ensures
        spec_is_create_plan(r@, *user, config.git.urls.deep_view()),
{
    let ghost urls = config.git.urls.deep_view();
    let home = home_dir(user.name.as_str());
    let mut r: Vec<ProvisionStep> = Vec::new();
    r.push(ProvisionStep::MakeDir { path: home.clone() });
    let mut i: usize = 0;
    while i < config.git.urls.len()
        invariant
            i <= urls.len(),
            urls == config.git.urls.deep_view(),
            urls.len() == config.git.urls@.len(),
            home@ == spec_home_dir(user.name@),
            r@.len() == 1 + i,
            r@[0] matches ProvisionStep::MakeDir { path } && path@ == home@,
            forall|p: int| #![trigger urls[p]]
                0 <= p < i ==> spec_is_copy_step(r@[1 + p], urls[p], home@),
        decreases config.git.urls@.len() - i,
    {
        let id = git_id(config.git.urls[i].as_str());
        let mut from = String::from_str("/home/odde/");
        from.append(id.as_str());
        let mut to = home.clone();
        to.append("/");
        to.append(id.as_str());
        r.push(ProvisionStep::CopyDir { from, to });
        i += 1;
    }
    let mut ssh = home.clone();
    ssh.append("/.ssh");
    r.push(ProvisionStep::MakeDir { path: ssh });
    let mut ak_path = home.clone();
    ak_path.append("/.ssh/authorized_keys");
    let content = authorized_keys_content(&user.keys);
    r.push(ProvisionStep::WriteFile { path: ak_path, content });
    let mut owner = user.name.clone();
    owner.append(":");
    owner.append(user.name.as_str());
    r.push(ProvisionStep::Chown { owner, path: home });
    proof {
        let k = urls.len() as int;
        assert(r@[k + 1] matches ProvisionStep::MakeDir { path } && path@ =~= spec_home_dir(
            user.name@,
        ) + "/.ssh"@);
        assert(r@[k + 2] matches ProvisionStep::WriteFile { path, content } && path@
            =~= spec_home_dir(user.name@) + "/.ssh/authorized_keys"@);
        assert(r@[k + 3] matches ProvisionStep::Chown { owner, path } && owner@ =~= user.name@
            + ":"@ + user.name@);
    }
    r
}

/// The startup plan for one identity: ensure its OS account exists first,
/// then run the create plan, so the final ownership fix can resolve the
/// account's user and group.
pub fn setup_user_plan(user: &User, config: &Config) -> (r: Vec<ProvisionStep>)
    ensures
        r@.len() >= 1,
        r@[0] matches ProvisionStep::AddAccount { name } && name@ == user.name@,
        spec_is_create_plan(
            r@.subrange(1, r@.len() as int),
            *user,
            config.git.urls.deep_view(),
        ),
{
    let mut r: Vec<ProvisionStep> = Vec::new();
    r.push(ProvisionStep::AddAccount { name: user.name.clone() });
    let mut rest = create_plan(user, config);
    let ghost rest_view = rest@;
    r.append(&mut rest);
    proof {
        assert(r@.subrange(1, r@.len() as int) =~= rest_view);
    }
    r
}

/// The single step that reclaims an identity's scratch area: remove its
/// home directory tree.
pub fn destroy_step(name: &str) -> (r: ProvisionStep)
    ensures
        r matches ProvisionStep::RemoveDir { path } && path@ == spec_home_dir(name@),
{
    ProvisionStep::RemoveDir { path: home_dir(name) }
}

/// The external command that carries out one step, or `None` for the file
/// write, which the caller performs directly as a full overwrite. Every
/// privileged command runs through `sudo`.
pub fn step_command(step: &ProvisionStep) -> (r: Option<CommandSpec>)
    ensures
        match *step {
            ProvisionStep::AddAccount { name } => r matches Some(c) && c.program@ == "sudo"@
                && c.args.deep_view() == seq!["useradd"@, "-s"@, "fish"@, name@],
            ProvisionStep::MakeDir { path } => r matches Some(c) && c.program@ == "sudo"@
                && c.args.deep_view() == seq!["mkdir"@, path@],
            ProvisionStep::CopyDir { from, to } => r matches Some(c) && c.program@ == "sudo"@
                && c.args.deep_view() == seq!["cp"@, "-r"@, from@, to@],
            ProvisionStep::WriteFile { .. } => r is None,
            ProvisionStep::Chown { owner, path } => r matches Some(c) && c.program@ == "sudo"@
                && c.args.deep_view() == seq!["chown"@, "-R"@, owner@, path@],
            ProvisionStep::RemoveDir { path } => r matches Some(c) && c.program@ == "sudo"@
                && c.args.deep_view() == seq!["rm"@, "-rf"@, path@],
        },
{
    match step {
        ProvisionStep::AddAccount { name } => {
            let mut args: Vec<String> = Vec::new();
            args.push(String::from_str("useradd"));
            args.push(String::from_str("-s"));
            args.push(String::from_str("fish"));
            args.push(name.clone());
            proof {
                assert(args.deep_view() =~= seq!["useradd"@, "-s"@, "fish"@, name@]);
            }
            Some(CommandSpec { program: String::from_str("sudo"), args })
        },
        ProvisionStep::MakeDir { path } => {
            let mut args: Vec<String> = Vec::new();
            args.push(String::from_str("mkdir"));
            args.push(path.clone());
            proof {
                assert(args.deep_view() =~= seq!["mkdir"@, path@]);
            }
            Some(CommandSpec { program: String::from_str("sudo"), args })
        },
        ProvisionStep::CopyDir { from, to } => {
            let mut args: Vec<String> = Vec::new();
            args.push(String::from_str("cp"));
            args.push(String::from_str("-r"));
            args.push(from.clone());
            args.push(to.clone());
            proof {
                assert(args.deep_view() =~= seq!["cp"@, "-r"@, from@, to@]);
            }
            Some(CommandSpec { program: String::from_str("sudo"), args })
        },
        ProvisionStep::WriteFile { .. } => None,
        ProvisionStep::Chown { owner, path } => {
            let mut args: Vec<String> = Vec::new();
            args.push(String::from_str("chown"));
            args.push(String::from_str("-R"));
            args.push(owner.clone());
            args.push(path.clone());
            proof {
                assert(args.deep_view() =~= seq!["chown"@, "-R"@, owner@, path@]);
            }
            Some(CommandSpec { program: String::from_str("sudo"), args })
        },
        ProvisionStep::RemoveDir { path } => {
            let mut args: Vec<String> = Vec::new();
            args.push(String::from_str("rm"));
            args.push(String::from_str("-rf"));
            args.push(path.clone());
            proof {
                assert(args.deep_view() =~= seq!["rm"@, "-rf"@, path@]);
            }
            Some(CommandSpec { program: String::from_str("sudo"), args })
        },
    }
}

/// Which benign outcome each step absorbs: a directory or account that
/// already exists is fine for the steps that create one, and a path that is
/// already gone is fine for the step that removes one. Everything else must
/// succeed outright.
pub open spec fn step_absorbs(step: ProvisionStep, outcome: CmdOutcome) -> bool {
    match outcome {
        CmdOutcome::Success => true,
        CmdOutcome::AlreadyExists => step is MakeDir || step is AddAccount,
        CmdOutcome::NotFound => step is RemoveDir,
        CmdOutcome::SpawnFailed => false,
        CmdOutcome::NonZeroExit(_) => false,
    }
}

/// Decides whether one step's outcome lets the plan continue.
pub fn step_ok(step: &ProvisionStep, outcome: &CmdOutcome) -> (r: bool)
    ensures
        r == step_absorbs(*step, *outcome),
{
    match outcome {
        CmdOutcome::Success => true,
        CmdOutcome::AlreadyExists => match step {
            ProvisionStep::MakeDir { .. } => true,
            ProvisionStep::AddAccount { .. } => true,
            _ => false,
        },
        CmdOutcome::NotFound => match step {
            ProvisionStep::RemoveDir { .. } => true,
            _ => false,
        },
        CmdOutcome::SpawnFailed => false,
        CmdOutcome::NonZeroExit(_) => false,
    }
}

/// A plan run succeeds when every step's outcome is absorbed.
pub open spec fn spec_plan_succeeds(steps: Seq<ProvisionStep>, outcomes: Seq<CmdOutcome>) -> bool {
    forall|i: int| 0 <= i < steps.len() ==> step_absorbs(steps[i], outcomes[i])
}

/// Interprets a plan's outcomes: success when every step was absorbed,
/// otherwise the first step whose outcome was a hard failure — the step at
/// which the run aborted.
pub fn plan_result(steps: &Vec<ProvisionStep>, outcomes: &Vec<CmdOutcome>) -> (r: Result<
    (),
    ProvisionError,
>)
    requires
        outcomes@.len() == steps@.len(),
    ensures
        r is Ok <==> spec_plan_succeeds(steps@, outcomes@),
        r matches Err(e) ==> e.step_index < steps@.len() && !step_absorbs(
            steps@[e.step_index as int],
            outcomes@[e.step_index as int],
        ) && e.outcome == outcomes@[e.step_index as int] && forall|j: int|
            0 <= j < e.step_index ==> step_absorbs(steps@[j], outcomes@[j]),
{
    let mut i: usize = 0;
    while i < steps.len()
        invariant
            outcomes@.len() == steps@.len(),
            i <= steps@.len(),
            forall|j: int| 0 <= j < i ==> step_absorbs(steps@[j], outcomes@[j]),
        decreases steps@.len() - i,
    {
        if !step_ok(&steps[i], &outcomes[i]) {
            return Err(ProvisionError { step_index: i, outcome: outcomes[i] });
        }
        i += 1;
    }
    Ok(())
}

/// Interprets a destroy: a path that was already gone counts as success.
pub fn destroy_result(outcome: CmdOutcome) -> (r: Result<(), ProvisionError>)
    ensures
        r is Ok <==> (outcome is Success || outcome is NotFound),
        r matches Err(e) ==> e.step_index == 0 && e.outcome == outcome,
{
    match outcome {
        CmdOutcome::Success => Ok(()),
        CmdOutcome::NotFound => Ok(()),
        _ => Err(ProvisionError { step_index: 0, outcome }),
    }
}

/// Law: create is idempotent. A second run over the same plan in which
/// every step either succeeds or merely finds its directory or account
/// already in place is itself a successful create.
pub proof fn lemma_create_idempotent(
    steps: Seq<ProvisionStep>,
    first: Seq<CmdOutcome>,
    second: Seq<CmdOutcome>,
)
    requires
        first.len() == steps.len(),
        second.len() == steps.len(),
        spec_plan_succeeds(steps, first),
        forall|i: int|
            0 <= i < steps.len() ==> second[i] == CmdOutcome::Success || ((steps[i] is MakeDir
                || steps[i] is AddAccount) && second[i] == CmdOutcome::AlreadyExists),
    ensures
        spec_plan_succeeds(steps, second),
{
}

/// Law: the authorized-keys step of any create plan for an identity
/// overwrites the file with content that is a function of the identity
/// alone — one line per configured key — so re-running create writes
/// exactly the same file rather than appending duplicate entries.
pub proof fn lemma_rerun_same_authorized_keys(
    steps1: Seq<ProvisionStep>,
    steps2: Seq<ProvisionStep>,
    user: User,
    urls: Seq<Seq<char>>,
)
    requires
        spec_is_create_plan(steps1, user, urls),
        spec_is_create_plan(steps2, user, urls),
    ensures
        steps1[urls.len() as int + 2] matches ProvisionStep::WriteFile { path: p1, content: c1 }
            && steps2[urls.len() as int + 2] matches ProvisionStep::WriteFile { path: p2, content: c2 }
            && p1@ == p2@ && c1@ == c2@,
{
}

} // verus!
