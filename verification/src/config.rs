//! Target descriptors and their validation. A descriptor is supplied from the
//! outside (the configuration file is read and decoded elsewhere); this module
//! states and checks the invariants every descriptor must satisfy, and offers
//! lookup by identity name.
use vstd::prelude::*;

use crate::error::BackupError;
use crate::text::decimal_digits;
use crate::text::render_decimal;
use crate::text::str_eq;

verus! {

use vstd::string::StringExecFns;

/// One backup target: a database living inside a runtime container.
#[derive(Debug, Clone)]
pub struct DatabaseConfig {
    /// Human label identifying the target.
    pub name: String,
    /// Backup subject identifier, used for artifact-name matching.
    pub database_name: String,
    /// Endpoint address of the backup service.
    pub url: String,
    /// Identifier of the container the database lives in.
    pub container_name: String,
    /// Authentication secret sent with the backup trigger.
    pub master_password: String,
    /// Artifact format, one of `zip` or `dump`.
    pub backup_format: String,
    /// Remote directory the artifact is written to.
    pub output_path: String,
    /// Retention window in days for host-stored artifacts.
    pub retention_days: u32,
}

impl DatabaseConfig {
    /// The invariant of a target descriptor: the identifying fields and the
    /// secret are non-empty and the artifact format is a member of the fixed
    /// enumeration.
    pub open spec fn is_valid(self) -> bool {
        &&& self.name@.len() > 0
        &&& self.database_name@.len() > 0
        &&& self.url@.len() > 0
        &&& self.container_name@.len() > 0
        &&& self.master_password@.len() > 0
        &&& (self.backup_format@ == "zip"@ || self.backup_format@ == "dump"@)
    }
}

/// The full set of configured targets.
#[derive(Debug, Clone)]
pub struct Config {
    /// The configured targets, in the order they were supplied.
    pub databases: Vec<DatabaseConfig>,
}

/// Every descriptor in the sequence satisfies the descriptor invariant.
pub open spec fn all_valid(dbs: Seq<DatabaseConfig>) -> bool {
    forall|i: int| 0 <= i < dbs.len() ==> dbs[i].is_valid()
}

/// The message reported for the first failing check of the descriptor at
/// index `i`; the checks run in a fixed order.
pub open spec fn spec_field_error(i: int, db: DatabaseConfig) -> Seq<char> {
    let head = "Database "@ + decimal_digits(i);
    if db.name@.len() == 0 {
        head + ": name cannot be empty"@
    } else if db.database_name@.len() == 0 {
        head + ": database_name cannot be empty"@
    } else if db.url@.len() == 0 {
        head + ": url cannot be empty"@
    } else if db.container_name@.len() == 0 {
        head + ": container_name cannot be empty"@
    } else if db.master_password@.len() == 0 {
        head + ": master_password cannot be empty"@
    } else {
        head + ": backup_format must be 'zip' or 'dump'"@
    }
}

/// The message validation reports: the complaint about an empty target list,
/// or the message for the first invalid descriptor.
pub open spec fn spec_validation_error(dbs: Seq<DatabaseConfig>) -> Seq<char>
    decreases dbs.len(),
{
    if dbs.len() == 0 {
        "No databases configured"@
    } else if !dbs[0].is_valid() {
        spec_field_error(0, dbs[0])
    } else {
        spec_validation_error_from(dbs, 1)
    }
}

/// The message for the first invalid descriptor at index `i` or later.
pub open spec fn spec_validation_error_from(dbs: Seq<DatabaseConfig>, i: int) -> Seq<char>
    decreases dbs.len() - i,
{
    if i < 0 || i >= dbs.len() {
        Seq::empty()
    } else if !dbs[i].is_valid() {
        spec_field_error(i, dbs[i])
    } else {
        spec_validation_error_from(dbs, i + 1)
    }
}

impl Config {
    /// Checks every descriptor against the invariant. Validation succeeds
    /// exactly when at least one target is configured and every target is
    /// valid; otherwise it reports a configuration error naming the first
    /// failing check.
    pub fn validate(&self) -> (r: Result<(), BackupError>)
        ensures
            r is Ok <==> (self.databases@.len() > 0 && all_valid(self.databases@)),
            r matches Err(e) ==> (e matches BackupError::Config(m) && m@ == spec_validation_error(
                self.databases@,
            )),
    {
        if self.databases.len() == 0 {
            return Err(BackupError::Config("No databases configured".to_owned()));
        }
        let ghost dbs = self.databases@;
        let mut i: usize = 0;
        while i < self.databases.len()
            invariant
                dbs == self.databases@,
                dbs.len() > 0,
                i <= dbs.len(),
                forall|k: int| 0 <= k < i ==> dbs[k].is_valid(),
                i < dbs.len() ==> spec_validation_error(dbs) == spec_validation_error_from(
                    dbs,
                    i as int,
                ),
            decreases dbs.len() - i,
        {
            let db = &self.databases[i];
            let head = "Database ".to_owned().concat(render_decimal(i).as_str());
            if db.name.as_str().is_empty() {
                return Err(BackupError::Config(head.concat(": name cannot be empty")));
            }
            if db.database_name.as_str().is_empty() {
                return Err(BackupError::Config(head.concat(": database_name cannot be empty")));
            }
            if db.url.as_str().is_empty() {
                return Err(BackupError::Config(head.concat(": url cannot be empty")));
            }
            if db.container_name.as_str().is_empty() {
                return Err(BackupError::Config(head.concat(": container_name cannot be empty")));
            }
            if db.master_password.as_str().is_empty() {
                return Err(
                    BackupError::Config(head.concat(": master_password cannot be empty")),
                );
            }
            let is_zip = str_eq(db.backup_format.as_str(), "zip");
            let is_dump = str_eq(db.backup_format.as_str(), "dump");
            if !is_zip && !is_dump {
                return Err(
                    BackupError::Config(head.concat(": backup_format must be 'zip' or 'dump'")),
                );
            }
            assert(dbs[i as int].is_valid());
            i = i + 1;
        }
        Ok(())
    }

    /// Finds the first target whose identity name equals `name` exactly
    /// (case-sensitive); returns nothing when no target carries that name.
    pub fn get_database(&self, name: &str) -> (r: Option<&DatabaseConfig>)
        ensures
            match r {
                Some(db) => exists|i: int|
                    {
                        &&& 0 <= i < self.databases@.len()
                        &&& #[trigger] self.databases@[i].name@ == name@
                        &&& *db == self.databases@[i]
                        &&& forall|j: int| 0 <= j < i ==> self.databases@[j].name@ != name@
                    },
                None => forall|i: int|
                    0 <= i < self.databases@.len() ==> self.databases@[i].name@ != name@,
            },
    {
        let mut i: usize = 0;
        while i < self.databases.len()
            invariant
                i <= self.databases@.len(),
                forall|j: int| 0 <= j < i ==> self.databases@[j].name@ != name@,
            decreases self.databases@.len() - i,
        {
            if str_eq(self.databases[i].name.as_str(), name) {
                return Some(&self.databases[i]);
            }
            i = i + 1;
        }
        None
    }

    /// Looks a target up by identity name as `get_database` does, but turns
    /// the absent case into the configuration error the command layer
    /// surfaces for an explicitly named, nonexistent target.
    pub fn require_database(&self, name: &str) -> (r: Result<&DatabaseConfig, BackupError>)
        ensures
            match r {
                Ok(db) => exists|i: int|
                    {
                        &&& 0 <= i < self.databases@.len()
                        &&& #[trigger] self.databases@[i].name@ == name@
                        &&& *db == self.databases@[i]
                        &&& forall|j: int| 0 <= j < i ==> self.databases@[j].name@ != name@
                    },
                Err(e) => {
                    &&& forall|i: int|
                        0 <= i < self.databases@.len() ==> self.databases@[i].name@ != name@
                    &&& e matches BackupError::Config(m) && m@ == "Client '"@ + name@
                        + "' not found"@
                },
            },
    {
        match self.get_database(name) {
            Some(db) => Ok(db),
            None => Err(
                BackupError::Config(
                    "Client '".to_owned().concat(name).concat("' not found"),
                ),
            ),
        }
    }
}

} // verus!
