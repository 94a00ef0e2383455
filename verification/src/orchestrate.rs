//! Installation orchestrator decisions: the idempotent pre-check of a
//! repository install, and the synchronization rule under which the
//! workers of one dependency stack share the root package's catalog id.

use vstd::prelude::*;

use crate::pkg::{parse_query, PkgToQuery};

verus! {

/// What a repository install request amounts to, before any work is
/// fanned out.
#[derive(Clone, Debug)]
pub enum InstallDecision {
    /// The specifier does not parse; carries the offending text.
    Reject(String),
    /// A package of this name is already installed: the request is a
    /// no-op that reports success, and the catalog is left unchanged.
    AlreadyInstalled,
    /// Resolve the dependency stack of this query and install it.
    Proceed(PkgToQuery),
}

/// Decides a repository install request: an unparsable specifier is
/// rejected by name, a name already in the catalog short-circuits to a
/// successful no-op, and only otherwise is resolution undertaken.
pub fn plan_install_request(pkg_name: &str, already_installed: bool) -> (r: InstallDecision)
    ensures
        parse_query(pkg_name@) is None ==> (r matches InstallDecision::Reject(n) && n@ == pkg_name@),
        parse_query(pkg_name@) is Some && already_installed ==> r
            == InstallDecision::AlreadyInstalled,
        parse_query(pkg_name@) is Some && !already_installed ==> (r
            matches InstallDecision::Proceed(q) && parse_query(pkg_name@) == Option::Some(q@)),
{
    match PkgToQuery::parse(pkg_name) {
        Option::None => InstallDecision::Reject(String::from_str(pkg_name)),
        Option::Some(q) => {
            if already_installed {
                InstallDecision::AlreadyInstalled
            } else {
                InstallDecision::Proceed(q)
            }
        },
    }
}

/// A worker's place in one dependency stack's fan-out.
#[derive(Clone, Copy, Debug, PartialEq, Eq, Structural)]
pub enum WorkerRole {
    /// Installs the originally requested package and publishes its
    /// catalog row id.
    Root,
    /// Installs one dependency, stamped with the root's id.
    Dependent,
}

/// What a worker may do next.
#[derive(Clone, Copy, Debug, PartialEq, Eq, Structural)]
pub enum WorkerCommand {
    /// Run the install state machine, stamping this source package id.
    StartInstall(Option<i64>),
    /// The shared root identity is not published yet: yield and poll
    /// again.
    Wait,
}

/// The synchronization rule of the fan-out: the root worker starts at
/// once with no back-reference; a dependency worker never begins its
/// state machine before the shared root identity has been published,
/// and when it begins, it carries exactly the published id.
pub fn worker_poll(role: WorkerRole, shared_root_id: Option<i64>) -> (r: WorkerCommand)
    ensures
        role == WorkerRole::Root ==> r == WorkerCommand::StartInstall(Option::<i64>::None),
        role == WorkerRole::Dependent && shared_root_id is None ==> r == WorkerCommand::Wait,
        role == WorkerRole::Dependent && shared_root_id is Some ==> r
            == WorkerCommand::StartInstall(shared_root_id),
{
    match role {
        WorkerRole::Root => WorkerCommand::StartInstall(Option::None),
        WorkerRole::Dependent => match shared_root_id {
            Option::None => WorkerCommand::Wait,
            Option::Some(id) => WorkerCommand::StartInstall(Option::Some(id)),
        },
    }
}

/// Publishes the root worker's catalog row id into the shared slot,
/// write-once: a value already published is never replaced.
pub fn publish_root_id(shared_root_id: Option<i64>, pkg_id: i64) -> (r: Option<i64>)
    ensures
        shared_root_id is None ==> r == Option::Some(pkg_id),
        shared_root_id is Some ==> r == shared_root_id,
{
    match shared_root_id {
        Option::None => Option::Some(pkg_id),
        Option::Some(id) => Option::Some(id),
    }
}

} // verus!
