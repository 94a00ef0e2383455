//! The transactional install state machine and the per-package install
//! data. One package already staged on disk advances through a fixed
//! chain of stages; any stage failure rolls the catalog transaction
//! back and propagates the original error, so exactly one terminal
//! transaction operation is issued per attempt.

use vstd::prelude::*;

use crate::pkg::{basename, basename_chars, VersionStruct};

verus! {

/// A lifecycle script's phase.
#[derive(Clone, Copy, Debug, PartialEq, Eq, Structural)]
pub enum ScriptPhase {
    PreInstall,
    PostInstall,
}

/// One installable file of a staged package: its path relative to the
/// filesystem root, and its recorded checksum.
#[derive(Clone, Debug)]
pub struct PkgFile {
    pub path: String,
    pub checksum: String,
    /// Which hashing algorithm the checksum was recorded with.
    pub checksum_kind: String,
}

/// One lifecycle script of a staged package.
#[derive(Clone, Debug)]
pub struct PkgScript {
    pub path: String,
    pub phase: ScriptPhase,
}

/// The on-disk staged form of a package after archive extraction.
#[derive(Clone, Debug)]
pub struct PkgDataFromFs {
    /// The staging directory holding the extracted archive.
    pub path: String,
    pub name: String,
    pub version: VersionStruct,
    pub license: String,
    pub maintainer: String,
    pub files: Vec<PkgFile>,
    pub scripts: Vec<PkgScript>,
}

/// Why one install attempt failed.
#[derive(Clone, Debug)]
pub enum InstallError {
    /// Registering the package row in the catalog failed.
    MetadataSyncFailed(String),
    /// A lifecycle script failed in the given phase.
    ScriptFailed(ScriptPhase),
    /// Copying a file failed; carries the failing destination path.
    CopyFailed(String),
    /// Removing the staging directory failed.
    CleanupFailed(String),
    /// The final commit operation failed.
    CommitFailed(String),
}

/// The terminal transaction operations of the catalog gateway.
#[derive(Clone, Copy, Debug, PartialEq, Eq, Structural)]
pub enum Transaction {
    Commit,
    Rollback,
}

/// The stages of one package's install, in order, with no skipping.
#[derive(Clone, Copy, Debug, PartialEq, Eq, Structural)]
pub enum InstallState {
    Staged,
    MetadataSynced,
    PreInstallRun,
    FilesInstalled,
    CleanedUp,
    PostInstallRun,
    Committed,
}

/// The work that advances each non-terminal stage to the next.
#[derive(Clone, Copy, Debug, PartialEq, Eq, Structural)]
pub enum InstallAction {
    SyncMetadata,
    RunPreInstallScript,
    InstallFiles,
    CleanTempFiles,
    RunPostInstallScript,
    CommitTransaction,
}

/// The action owed in a stage, none once committed.
pub open spec fn action_of(s: InstallState) -> Option<InstallAction> {
    match s {
        InstallState::Staged => Option::Some(InstallAction::SyncMetadata),
        InstallState::MetadataSynced => Option::Some(InstallAction::RunPreInstallScript),
        InstallState::PreInstallRun => Option::Some(InstallAction::InstallFiles),
        InstallState::FilesInstalled => Option::Some(InstallAction::CleanTempFiles),
        InstallState::CleanedUp => Option::Some(InstallAction::RunPostInstallScript),
        InstallState::PostInstallRun => Option::Some(InstallAction::CommitTransaction),
        InstallState::Committed => Option::None,
    }
}

/// The stage reached when the owed action succeeds.
pub open spec fn next_state(s: InstallState) -> InstallState {
    match s {
        InstallState::Staged => InstallState::MetadataSynced,
        InstallState::MetadataSynced => InstallState::PreInstallRun,
        InstallState::PreInstallRun => InstallState::FilesInstalled,
        InstallState::FilesInstalled => InstallState::CleanedUp,
        InstallState::CleanedUp => InstallState::PostInstallRun,
        InstallState::PostInstallRun => InstallState::Committed,
        InstallState::Committed => InstallState::Committed,
    }
}

/// The action to perform in the given stage.
pub fn next_action(s: InstallState) -> (r: Option<InstallAction>)
    ensures
        r == action_of(s),
{
    match s {
        InstallState::Staged => Option::Some(InstallAction::SyncMetadata),
        InstallState::MetadataSynced => Option::Some(InstallAction::RunPreInstallScript),
        InstallState::PreInstallRun => Option::Some(InstallAction::InstallFiles),
        InstallState::FilesInstalled => Option::Some(InstallAction::CleanTempFiles),
        InstallState::CleanedUp => Option::Some(InstallAction::RunPostInstallScript),
        InstallState::PostInstallRun => Option::Some(InstallAction::CommitTransaction),
        InstallState::Committed => Option::None,
    }
}

/// Whether the staging directory is still owed deletion when the
/// stage's action fails: true until the cleanup action itself has been
/// attempted, since the staging directory is deleted on every path,
/// success or failure.
pub open spec fn cleanup_owed_at(s: InstallState) -> bool {
    s == InstallState::Staged || s == InstallState::MetadataSynced || s
        == InstallState::PreInstallRun
}

/// How a failed stage unwinds: the rollback operation owed to the
/// catalog, whether the staging directory must still be deleted, and
/// the stage's original error, unchanged.
#[derive(Clone, Debug)]
pub struct StageFailure {
    pub transaction: Transaction,
    pub cleanup_owed: bool,
    pub error: InstallError,
}

/// Advances the state machine by the outcome of the owed action: on
/// success the next stage, with the commit already issued when that
/// stage is `Committed`; on failure the rollback operation owed to the
/// catalog, the cleanup still owed, and the original error, unchanged.
pub fn step(s: InstallState, outcome: Result<(), InstallError>) -> (r: Result<
    InstallState,
    StageFailure,
>)
    requires
        s != InstallState::Committed,
    ensures
        match outcome {
            Result::Ok(()) => r == Result::<InstallState, StageFailure>::Ok(next_state(s)),
            Result::Err(e) => r == Result::<InstallState, StageFailure>::Err(
                StageFailure {
                    transaction: Transaction::Rollback,
                    cleanup_owed: cleanup_owed_at(s),
                    error: e,
                },
            ),
        },
{
    match outcome {
        Result::Ok(()) => Result::Ok(
            match s {
                InstallState::Staged => InstallState::MetadataSynced,
                InstallState::MetadataSynced => InstallState::PreInstallRun,
                InstallState::PreInstallRun => InstallState::FilesInstalled,
                InstallState::FilesInstalled => InstallState::CleanedUp,
                InstallState::CleanedUp => InstallState::PostInstallRun,
                InstallState::PostInstallRun => InstallState::Committed,
                InstallState::Committed => InstallState::Committed,
            },
        ),
        Result::Err(e) => {
            let cleanup_owed = match s {
                InstallState::Staged => true,
                InstallState::MetadataSynced => true,
                InstallState::PreInstallRun => true,
                _ => false,
            };
            Result::Err(
                StageFailure { transaction: Transaction::Rollback, cleanup_owed, error: e },
            )
        },
    }
}

/// A failed attempt's whole outcome: the stage's original error, with
/// the rollback operation's own failure chained on when it too failed.
#[derive(Clone, Debug)]
pub struct FailedInstall {
    pub error: InstallError,
    pub rollback_failure: Option<String>,
}

/// Combines a stage's error with what the subsequent rollback operation
/// did: a rollback failure is chained onto the original error, and
/// never suppresses or replaces it.
pub fn chain_rollback_outcome(error: InstallError, rollback_result: Result<(), String>) -> (r:
    FailedInstall)
    ensures
        r.error == error,
        match rollback_result {
            Result::Ok(()) => r.rollback_failure is None,
            Result::Err(m) => r.rollback_failure == Option::Some(m),
        },
{
    match rollback_result {
        Result::Ok(()) => FailedInstall { error, rollback_failure: Option::None },
        Result::Err(m) => FailedInstall { error, rollback_failure: Option::Some(m) },
    }
}

/// What one whole install attempt did to the catalog transaction.
pub struct RunSummary {
    /// The commit operation was issued (the terminal stage was reached).
    pub committed: bool,
    /// The rollback operation was issued (some stage failed).
    pub rolled_back: bool,
    /// The stage whose action failed, if one did.
    pub failed_at: Option<InstallState>,
}

/// Replays a whole attempt from stage `s`: each element of `outcomes`
/// answers the stage's owed action in order, and the first failure
/// rolls back.
pub open spec fn run(s: InstallState, outcomes: Seq<bool>) -> RunSummary
    decreases outcomes.len(),
{
    if s == InstallState::Committed {
        RunSummary { committed: true, rolled_back: false, failed_at: Option::None }
    } else if outcomes.len() == 0 {
        RunSummary { committed: false, rolled_back: false, failed_at: Option::None }
    } else if outcomes[0] {
        run(next_state(s), outcomes.drop_first())
    } else {
        RunSummary { committed: false, rolled_back: true, failed_at: Option::Some(s) }
    }
}

/// Exactly one terminal transaction operation per attempt: an attempt
/// given an answer for every stage either commits or rolls back, never
/// both and never neither; it commits exactly when every stage's action
/// succeeded.
pub proof fn lemma_one_terminal_operation(outcomes: Seq<bool>)
    requires
        outcomes.len() >= 6,
    ensures
        run(InstallState::Staged, outcomes).committed != run(
            InstallState::Staged,
            outcomes,
        ).rolled_back,
        run(InstallState::Staged, outcomes).committed <==> (forall|i: int|
            0 <= i < 6 ==> outcomes[i]),
{
    reveal_with_fuel(run, 9);
    let r = run(InstallState::Staged, outcomes);
    let o1 = outcomes.drop_first();
    let o2 = o1.drop_first();
    let o3 = o2.drop_first();
    let o4 = o3.drop_first();
    let o5 = o4.drop_first();
    assert(o1[0] == outcomes[1] && o2[0] == outcomes[2] && o3[0] == outcomes[3] && o4[0]
        == outcomes[4] && o5[0] == outcomes[5]);
    if outcomes[0] && outcomes[1] && outcomes[2] && outcomes[3] && outcomes[4] && outcomes[5] {
        assert(r.committed && !r.rolled_back);
    } else {
        assert(!r.committed && r.rolled_back);
    }
}

/// A failure while installing files rolls the catalog transaction back:
/// the attempt never commits, so no package row survives.
pub proof fn lemma_file_copy_failure_rolls_back(outcomes: Seq<bool>)
    requires
        outcomes.len() >= 6,
        outcomes[0],
        outcomes[1],
        !outcomes[2],
    ensures
        run(InstallState::Staged, outcomes).rolled_back,
        !run(InstallState::Staged, outcomes).committed,
        run(InstallState::Staged, outcomes).failed_at == Option::Some(
            InstallState::PreInstallRun,
        ),
        action_of(InstallState::PreInstallRun) == Option::Some(InstallAction::InstallFiles),
{
    reveal_with_fuel(run, 9);
    let o1 = outcomes.drop_first();
    let o2 = o1.drop_first();
    assert(o1[0] == outcomes[1] && o2[0] == outcomes[2]);
}

/// The staging directory is dealt with on every path, success or
/// failure: a full attempt either performs the cleanup action on the
/// way (this includes the late failures, whose stage lies past
/// cleanup), fails in the cleanup action itself, or fails earlier and
/// leaves the cleanup owed to the unwind.
pub proof fn lemma_cleanup_on_every_path(outcomes: Seq<bool>)
    requires
        outcomes.len() >= 6,
    ensures
        ({
            let r = run(InstallState::Staged, outcomes);
            &&& (r.committed ==> outcomes[3])
            &&& match r.failed_at {
                Option::Some(s) => cleanup_owed_at(s) || s == InstallState::FilesInstalled || (
                outcomes[3] && (s == InstallState::CleanedUp || s == InstallState::PostInstallRun)),
                Option::None => true,
            }
        }),
{
    reveal_with_fuel(run, 9);
    let o1 = outcomes.drop_first();
    let o2 = o1.drop_first();
    let o3 = o2.drop_first();
    let o4 = o3.drop_first();
    let o5 = o4.drop_first();
    assert(o1[0] == outcomes[1] && o2[0] == outcomes[2] && o3[0] == outcomes[3] && o4[0]
        == outcomes[4] && o5[0] == outcomes[5]);
}

/// A source path and its destination for one copy.
#[derive(Clone, Debug)]
pub struct CopyStep {
    pub from: String,
    pub to: String,
}

/// The program files' copy plan: each declared file is taken from the
/// `program` subtree of the staging directory and placed at its
/// declared path, rooted at `/`.
pub fn program_copy_plan(staging: &String, files: &Vec<PkgFile>) -> (r: Vec<CopyStep>)
    ensures
        r@.len() == files@.len(),
        forall|i: int|
            0 <= i < files@.len() ==> (#[trigger] r@[i]).from@ == staging@ + "/program/"@
                + files@[i].path@ && r@[i].to@ == "/"@ + files@[i].path@,
{
    let mut r: Vec<CopyStep> = Vec::new();
    let mut i: usize = 0;
    while i < files.len()
        invariant
            0 <= i <= files.len(),
            r@.len() == i,
            forall|m: int|
                0 <= m < i ==> (#[trigger] r@[m]).from@ == staging@ + "/program/"@
                    + files@[m].path@ && r@[m].to@ == "/"@ + files@[m].path@,
        decreases files.len() - i,
    {
        let mut from = staging.clone();
        from.append("/program/");
        from.append(files[i].path.as_str());
        let mut to = String::from_str("/");
        to.append(files[i].path.as_str());
        r.push(CopyStep { from, to });
        i = i + 1;
    }
    r
}

/// The lifecycle scripts' copy plan: each script lands under its file
/// name in the package's own scripts directory under the fixed scripts
/// root.
pub fn scripts_copy_plan(scripts_root: &String, pkg_name: &String, scripts: &Vec<PkgScript>) -> (r:
    Vec<CopyStep>)
    ensures
        r@.len() == scripts@.len(),
        forall|i: int|
            0 <= i < scripts@.len() ==> (#[trigger] r@[i]).from@ == scripts@[i].path@ && r@[i].to@
                == scripts_root@ + "/"@ + pkg_name@ + "/scripts/"@ + basename_chars(
                scripts@[i].path@,
            ),
{
    let mut r: Vec<CopyStep> = Vec::new();
    let mut i: usize = 0;
    while i < scripts.len()
        invariant
            0 <= i <= scripts.len(),
            r@.len() == i,
            forall|m: int|
                0 <= m < i ==> (#[trigger] r@[m]).from@ == scripts@[m].path@ && r@[m].to@
                    == scripts_root@ + "/"@ + pkg_name@ + "/scripts/"@ + basename_chars(
                    scripts@[m].path@,
                ),
        decreases scripts.len() - i,
    {
        let from = scripts[i].path.clone();
        let mut to = scripts_root.clone();
        to.append("/");
        to.append(pkg_name.as_str());
        to.append("/scripts/");
        let file_name = basename(scripts[i].path.as_str());
        to.append(file_name.as_str());
        r.push(CopyStep { from, to });
        i = i + 1;
    }
    r
}

/// The outcome of one copy sweep: the first failing destination aborts
/// the whole attempt, naming that path.
pub fn copy_outcome(plan: &Vec<CopyStep>, first_failure: Option<usize>) -> (r: Result<
    (),
    InstallError,
>)
    requires
        match first_failure {
            Option::Some(i) => i < plan@.len(),
            Option::None => true,
        },
    ensures
        match first_failure {
            Option::Some(i) => r matches Result::Err(InstallError::CopyFailed(p)) && p@
                == plan@[i as int].to@,
            Option::None => r is Ok,
        },
{
    match first_failure {
        Option::Some(i) => Result::Err(InstallError::CopyFailed(plan[i].to.clone())),
        Option::None => Result::Ok(()),
    }
}

} // verus!
