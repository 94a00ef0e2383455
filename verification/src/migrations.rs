//! Catalog schema versioning decisions: whether a migration is owed,
//! the statement that records the new schema version, and the error
//! raised when recording it is refused.

use vstd::prelude::*;

use crate::digits::{dec_str, u64_to_string};

verus! {

/// A failure of the schema-versioning layer.
#[derive(Clone, Copy, Debug, PartialEq, Eq, Structural)]
pub enum MigrationError {
    /// The catalog refused the statement recording the new version.
    VersionCouldNotSet,
}

/// Whether the catalog, currently at schema version `current`, must
/// still run the migration that raises it to `target`.
pub fn can_migrate(target: i64, current: i64) -> (r: bool)
    ensures
        r == (target > current),
{
    target > current
}

/// The statement recording schema version `version` in the catalog.
pub fn pragma_user_version_stmt(version: u64) -> (r: String)
    ensures
        r@ == "PRAGMA user_version = "@ + dec_str(version as nat) + ";"@,
{
    let mut r = String::from_str("PRAGMA user_version = ");
    let num = u64_to_string(version);
    r.append(num.as_str());
    r.append(";");
    proof {
        assert(r@ =~= "PRAGMA user_version = "@ + dec_str(version as nat) + ";"@);
    }
    r
}

/// Interprets the catalog's answer to the version-recording statement:
/// anything but a plain success is `VersionCouldNotSet`.
pub fn check_version_set(status_ok: bool) -> (r: Result<(), MigrationError>)
    ensures
        status_ok <==> r is Ok,
        !status_ok ==> r == Result::<(), MigrationError>::Err(MigrationError::VersionCouldNotSet),
{
    if status_ok {
        Result::Ok(())
    } else {
        Result::Err(MigrationError::VersionCouldNotSet)
    }
}

} // verus!
