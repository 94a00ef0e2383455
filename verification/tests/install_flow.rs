use lpm_core::install::{
    chain_rollback_outcome, copy_outcome, next_action, program_copy_plan, scripts_copy_plan, step,
    InstallAction, InstallError, InstallState, PkgFile, PkgScript, ScriptPhase, Transaction,
};
use lpm_core::migrations::{can_migrate, check_version_set, pragma_user_version_stmt,
    MigrationError};
use lpm_core::orchestrate::{
    plan_install_request, publish_root_id, worker_poll, InstallDecision, WorkerCommand, WorkerRole,
};
use lpm_core::pkg::{PkgToQuery, VersionComparison, VersionStruct};
use lpm_core::resolver::{
    get_pkg_stack, version_satisfies, IndexEntry, PkgIndex, RepositoryIndex, ResolveError,
};

fn ver(major: u64, minor: u64, patch: u64) -> VersionStruct {
    VersionStruct {
        major,
        minor,
        patch,
        condition: VersionComparison::Equal,
    }
}

fn entry(name: &str, version: VersionStruct, deps: &[&str]) -> IndexEntry {
    IndexEntry {
        name: String::from(name),
        version,
        dependencies: deps.iter().map(|d| String::from(*d)).collect(),
    }
}

fn repo(name: &str, address: &str, initialized: bool, entries: Vec<IndexEntry>) -> RepositoryIndex {
    RepositoryIndex {
        name: String::from(name),
        address: String::from(address),
        initialized,
        entries,
    }
}

fn query(text: &str) -> PkgToQuery {
    PkgToQuery::parse(text).unwrap()
}

#[test]
fn no_repositories_is_package_not_found() {
    let r = get_pkg_stack(&query("curl"), &Vec::new());
    assert!(matches!(r, Err(ResolveError::PackageNotFound(n)) if n == "curl"));
}

#[test]
fn root_absent_everywhere_is_package_not_found() {
    let repos = vec![
        repo("core", "https://a.example", true, vec![entry("zlib", ver(1, 3, 0), &[])]),
        repo("extra", "https://b.example", true, Vec::new()),
    ];
    let r = get_pkg_stack(&query("curl"), &repos);
    assert!(matches!(r, Err(ResolveError::PackageNotFound(n)) if n == "curl"));
}

#[test]
fn two_repositories_yield_root_then_dependency() {
    let r1 = repo(
        "r1",
        "https://r1.example",
        true,
        vec![entry("a", ver(1, 0, 0), &["b@=2.0.0"])],
    );
    let r2 = repo(
        "r2",
        "https://r2.example",
        true,
        vec![entry("b", ver(2, 0, 0), &[])],
    );
    let stack = get_pkg_stack(&query("a"), &vec![r1, r2]).unwrap();
    assert_eq!(stack.len(), 2);
    assert_eq!(stack[0].name, "a");
    assert_eq!(stack[0].repository_address, "https://r1.example");
    assert_eq!(stack[1].name, "b");
    assert_eq!(stack[1].version.major, 2);
    // the dependency is bound to the repository whose index declared it
    assert_eq!(stack[1].repository_address, "https://r1.example");
}

#[test]
fn transitive_dependencies_within_one_repository() {
    let r1 = repo(
        "r1",
        "https://r1.example",
        true,
        vec![
            entry("a", ver(1, 0, 0), &["b@=1.0.0"]),
            entry("b", ver(1, 0, 0), &["c@=1.0.0"]),
            entry("c", ver(1, 0, 0), &[]),
        ],
    );
    let stack = get_pkg_stack(&query("a"), &vec![r1]).unwrap();
    let names: Vec<&str> = stack.iter().map(|p| p.name.as_str()).collect();
    assert_eq!(names, ["a", "b", "c"]);
}

#[test]
fn duplicate_name_across_repositories_first_discovered_wins() {
    let r1 = repo(
        "r1",
        "https://r1.example",
        true,
        vec![entry("a", ver(1, 0, 0), &["b@=1.0.0"])],
    );
    let r2 = repo(
        "r2",
        "https://r2.example",
        true,
        vec![
            entry("a", ver(9, 9, 9), &["b@=9.0.0"]),
            entry("b", ver(9, 0, 0), &[]),
        ],
    );
    let repos = vec![r1, r2];
    let first = get_pkg_stack(&query("a"), &repos).unwrap();
    // deterministic and idempotent across repeated runs on the same state
    let second = get_pkg_stack(&query("a"), &repos).unwrap();
    assert_eq!(first.len(), second.len());
    for (x, y) in first.iter().zip(second.iter()) {
        assert_eq!(x.name, y.name);
        assert_eq!(x.version, y.version);
        assert_eq!(x.repository_address, y.repository_address);
    }
    // one entry per name, the first discovery
    assert_eq!(first.len(), 2);
    assert_eq!(first[0].name, "a");
    assert_eq!(first[0].version, ver(1, 0, 0));
    assert_eq!(first[1].name, "b");
    assert_eq!(first[1].version, ver(1, 0, 0));
}

#[test]
fn uninitialized_repository_is_skipped_not_an_error() {
    let dead = repo(
        "dead",
        "https://dead.example",
        false,
        vec![entry("a", ver(5, 0, 0), &["x@=1.0.0"])],
    );
    let live = repo(
        "live",
        "https://live.example",
        true,
        vec![entry("a", ver(1, 0, 0), &[])],
    );
    let stack = get_pkg_stack(&query("a"), &vec![dead, live]).unwrap();
    assert_eq!(stack.len(), 1);
    assert_eq!(stack[0].repository_address, "https://live.example");
    assert_eq!(stack[0].version, ver(1, 0, 0));
}

#[test]
fn malformed_dependency_specifier_is_fatal() {
    let r1 = repo(
        "r1",
        "https://r1.example",
        true,
        vec![entry("a", ver(1, 0, 0), &["@broken@"])],
    );
    let r = get_pkg_stack(&query("a"), &vec![r1]);
    assert!(matches!(r, Err(ResolveError::InvalidPackageName(n)) if n == "@broken@"));
}

#[test]
fn version_constraint_checks() {
    let candidate = ver(1, 2, 3);
    let mut c = ver(1, 2, 3);
    c.condition = VersionComparison::Equal;
    assert!(version_satisfies(&candidate, &c));
    c.condition = VersionComparison::GreaterThanOrEqual;
    assert!(version_satisfies(&candidate, &c));
    c.condition = VersionComparison::GreaterThan;
    assert!(!version_satisfies(&candidate, &c));
    let lower = ver(1, 2, 2);
    c.condition = VersionComparison::LessThan;
    assert!(version_satisfies(&lower, &c));
    let higher = ver(2, 0, 0);
    c.condition = VersionComparison::LessThanOrEqual;
    assert!(!version_satisfies(&higher, &c));
}

#[test]
fn root_version_constraint_is_honoured() {
    let r1 = repo(
        "r1",
        "https://r1.example",
        true,
        vec![entry("a", ver(1, 0, 0), &[])],
    );
    let repos = vec![r1];
    assert!(get_pkg_stack(&query("a@>=2.0.0"), &repos).is_err());
    assert!(get_pkg_stack(&query("a@>=1.0.0"), &repos).is_ok());
}

#[test]
fn pkg_filename_and_urls() {
    let p = PkgIndex {
        name: String::from("curl"),
        version: ver(8, 5, 0),
        repository_address: String::from("https://repo.example"),
    };
    assert_eq!(p.pkg_filename(), "curl-8.5.0.lod");
    assert_eq!(p.pkg_output_path("/tmp/lpm"), "/tmp/lpm/curl-8.5.0.lod");
    assert_eq!(p.pkg_url(), "https://repo.example/curl-8.5.0.lod");
}

#[test]
fn state_machine_advances_in_order_and_commits_last() {
    let mut s = InstallState::Staged;
    let expected = [
        InstallAction::SyncMetadata,
        InstallAction::RunPreInstallScript,
        InstallAction::InstallFiles,
        InstallAction::CleanTempFiles,
        InstallAction::RunPostInstallScript,
        InstallAction::CommitTransaction,
    ];
    for action in expected {
        assert_eq!(next_action(s), Some(action));
        s = step(s, Ok(())).unwrap();
    }
    assert_eq!(s, InstallState::Committed);
    assert_eq!(next_action(s), None);
}

#[test]
fn copy_failure_rolls_back_and_names_the_path() {
    let files = vec![
        PkgFile {
            path: String::from("usr/bin/curl"),
            checksum: String::from("d41d8cd9"),
            checksum_kind: String::from("md5"),
        },
        PkgFile {
            path: String::from("usr/lib/libcurl.so"),
            checksum: String::from("d41d8cd9"),
            checksum_kind: String::from("md5"),
        },
    ];
    let staging = String::from("/tmp/lpm/curl-8.5.0");
    let plan = program_copy_plan(&staging, &files);
    assert_eq!(plan[0].from, "/tmp/lpm/curl-8.5.0/program/usr/bin/curl");
    assert_eq!(plan[0].to, "/usr/bin/curl");
    assert_eq!(plan[1].to, "/usr/lib/libcurl.so");

    // the second copy fails: the whole attempt aborts, naming that path
    let outcome = copy_outcome(&plan, Some(1));
    let err = outcome.unwrap_err();
    assert!(matches!(&err, InstallError::CopyFailed(p) if p == "/usr/lib/libcurl.so"));

    // drive the machine to the files stage, then fail it
    let mut s = InstallState::Staged;
    s = step(s, Ok(())).unwrap();
    s = step(s, Ok(())).unwrap();
    assert_eq!(s, InstallState::PreInstallRun);
    assert_eq!(next_action(s), Some(InstallAction::InstallFiles));
    let fail = step(s, Err(err)).unwrap_err();
    assert_eq!(fail.transaction, Transaction::Rollback);
    // the copy never ran cleanup, so the staging directory is still owed
    assert!(fail.cleanup_owed);
    assert!(matches!(fail.error, InstallError::CopyFailed(p) if p == "/usr/lib/libcurl.so"));
}

#[test]
fn commit_failure_also_rolls_back() {
    let s = InstallState::PostInstallRun;
    let fail = step(s, Err(InstallError::CommitFailed(String::from("disk full")))).unwrap_err();
    assert_eq!(fail.transaction, Transaction::Rollback);
    // cleanup already ran by this stage
    assert!(!fail.cleanup_owed);
}

#[test]
fn rollback_failure_is_chained_never_replacing() {
    let original = InstallError::CopyFailed(String::from("/usr/bin/curl"));
    let chained = chain_rollback_outcome(original.clone(), Err(String::from("rollback refused")));
    assert!(matches!(&chained.error, InstallError::CopyFailed(p) if p == "/usr/bin/curl"));
    assert_eq!(chained.rollback_failure.as_deref(), Some("rollback refused"));

    let clean = chain_rollback_outcome(original, Ok(()));
    assert!(matches!(&clean.error, InstallError::CopyFailed(p) if p == "/usr/bin/curl"));
    assert!(clean.rollback_failure.is_none());
}

#[test]
fn scripts_land_under_their_file_name() {
    let scripts = vec![
        PkgScript {
            path: String::from("/tmp/lpm/curl-8.5.0/scripts/post_install.sh"),
            phase: ScriptPhase::PostInstall,
        },
        PkgScript {
            path: String::from("pre_install.sh"),
            phase: ScriptPhase::PreInstall,
        },
    ];
    let root = String::from("/var/lib/lpm/pkg");
    let name = String::from("curl");
    let plan = scripts_copy_plan(&root, &name, &scripts);
    assert_eq!(plan[0].from, "/tmp/lpm/curl-8.5.0/scripts/post_install.sh");
    assert_eq!(plan[0].to, "/var/lib/lpm/pkg/curl/scripts/post_install.sh");
    assert_eq!(plan[1].from, "pre_install.sh");
    assert_eq!(plan[1].to, "/var/lib/lpm/pkg/curl/scripts/pre_install.sh");
}

#[test]
fn already_installed_package_is_a_no_op() {
    let d = plan_install_request("curl", true);
    assert!(matches!(d, InstallDecision::AlreadyInstalled));
}

#[test]
fn fresh_package_proceeds_to_resolution() {
    let d = plan_install_request("curl@>=8.0.0", false);
    match d {
        InstallDecision::Proceed(q) => {
            assert_eq!(q.name, "curl");
            assert_eq!(
                q.version.unwrap().condition,
                VersionComparison::GreaterThanOrEqual
            );
        }
        other => panic!("expected Proceed, got {:?}", other),
    }
}

#[test]
fn invalid_specifier_is_rejected_by_name() {
    let d = plan_install_request("@nonsense", false);
    assert!(matches!(d, InstallDecision::Reject(n) if n == "@nonsense"));
}

#[test]
fn dependency_worker_waits_for_the_published_root_id() {
    assert_eq!(
        worker_poll(WorkerRole::Dependent, None),
        WorkerCommand::Wait
    );
    assert_eq!(
        worker_poll(WorkerRole::Dependent, Some(42)),
        WorkerCommand::StartInstall(Some(42))
    );
    assert_eq!(
        worker_poll(WorkerRole::Root, None),
        WorkerCommand::StartInstall(None)
    );
}

#[test]
fn root_id_is_published_write_once() {
    assert_eq!(publish_root_id(None, 7), Some(7));
    assert_eq!(publish_root_id(Some(7), 9), Some(7));
}

#[test]
fn migration_version_statement_and_gate() {
    assert!(can_migrate(1, 0));
    assert!(!can_migrate(1, 1));
    assert_eq!(pragma_user_version_stmt(1), "PRAGMA user_version = 1;");
    assert_eq!(pragma_user_version_stmt(42), "PRAGMA user_version = 42;");
    assert!(check_version_set(true).is_ok());
    assert_eq!(
        check_version_set(false).unwrap_err(),
        MigrationError::VersionCouldNotSet
    );
}

#[test]
fn every_stage_failure_rolls_back_with_its_own_error() {
    let cases = [
        (
            InstallState::Staged,
            InstallError::MetadataSyncFailed(String::from("no such table")),
        ),
        (
            InstallState::MetadataSynced,
            InstallError::ScriptFailed(ScriptPhase::PreInstall),
        ),
        (
            InstallState::FilesInstalled,
            InstallError::CleanupFailed(String::from("/tmp/lpm/curl-8.5.0")),
        ),
        (
            InstallState::CleanedUp,
            InstallError::ScriptFailed(ScriptPhase::PostInstall),
        ),
    ];
    for (state, error) in cases {
        let fail = step(state, Err(error.clone())).unwrap_err();
        assert_eq!(fail.transaction, Transaction::Rollback);
        let returned = fail.error;
        assert!(matches!(
            (&returned, &error),
            (InstallError::MetadataSyncFailed(a), InstallError::MetadataSyncFailed(b)) if a == b
        ) || matches!(
            (&returned, &error),
            (InstallError::ScriptFailed(a), InstallError::ScriptFailed(b)) if a == b
        ) || matches!(
            (&returned, &error),
            (InstallError::CleanupFailed(a), InstallError::CleanupFailed(b)) if a == b
        ));
    }
}
