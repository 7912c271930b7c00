//! Deciding how to initialize the data directory and database.
//!
//! What exists on disk is observed by the caller; the decisions (what to
//! create, what to replace, what to refuse) are made here, and the caller
//! carries them out.

use vstd::prelude::*;
use crate::error::Error;
use crate::path::normalize::{join, join_path};
use crate::text::owned;

verus! {

/// Options for initialization.
#[derive(Debug)]
pub struct InitOptions {
    /// Data directory to initialize.
    pub data_dir: String,
    /// Replace an existing database.
    pub overwrite: bool,
    /// Create a default configuration file.
    pub create_config: bool,
}

impl InitOptions {
    /// Options for `data_dir`, with every flag off.
    pub fn new(data_dir: String) -> (o: Self)
        ensures
            o.data_dir == data_dir,
            !o.overwrite,
            !o.create_config,
    {
        InitOptions { data_dir, overwrite: false, create_config: false }
    }

    /// Sets whether an existing database is replaced.
    pub fn with_overwrite(self, overwrite: bool) -> (o: Self)
        ensures o == (InitOptions { overwrite, ..self }),
    {
        InitOptions { overwrite, ..self }
    }

    /// Sets whether a default configuration file is created.
    pub fn with_create_config(self, create_config: bool) -> (o: Self)
        ensures o == (InitOptions { create_config, ..self }),
    {
        InitOptions { create_config, ..self }
    }
}

/// What initialization did.
#[derive(Debug)]
pub struct InitResult {
    /// Whether the data directory was created.
    pub data_dir_created: bool,
    /// Whether the database was created or recreated.
    pub database_created: bool,
    /// Whether a configuration file was created.
    pub config_created: bool,
    /// The data directory.
    pub data_dir: String,
}

/// The steps initialization takes, in order.
#[derive(Debug)]
pub struct InitPlan {
    /// Create the data directory (and its parents).
    pub create_data_dir: bool,
    /// The database file.
    pub db_path: String,
    /// Remove the existing database first.
    pub remove_database: bool,
    /// The configuration file, with the text to write, when one is created.
    pub write_config: Option<(String, String)>,
    /// What is reported once the steps succeed.
    pub result: InitResult,
}

/// The default configuration file.
pub const DEFAULT_CONFIG_TEMPLATE: &'static str = "# Trop Configuration File
# See documentation for available options

# Port allocation range (default: 49152-65535)
# port_range:
#   min: 49152
#   max: 65535

# Maximum lock wait time in seconds (default: 5)
# maximum_lock_wait_seconds: 5

# Group reservations (example)
# reservations:
#   path: .  # Base path for group reservations
#   services:
#     web:
#       port: 3000
#       env: PORT
#     api:
#       port: 3001
#       env: API_PORT
";

/// The steps that initialize `options.data_dir`, given whether the data
/// directory, the database (`trop.db` in it) and the configuration file
/// (`config.yaml` in it) exist.
///
/// An existing database is refused unless overwriting, and then removed
/// first; the database is always (re)created; a configuration file is
/// written only when asked for and absent.
pub fn plan_init(options: &InitOptions, data_dir_exists: bool, database_exists: bool, config_exists: bool)
    -> (r: Result<InitPlan, Error>)
    ensures
        ({
            let db_path = join_path(options.data_dir@, "trop.db"@);
            &&& (database_exists && !options.overwrite) ==> (r matches Err(Error::Validation { field, message })
                && field@ == "database"@
                && message@ == "Database already exists at "@ + db_path + ". Use --overwrite to replace it."@)
            &&& !(database_exists && !options.overwrite) ==> (r matches Ok(p)
                && p.create_data_dir == !data_dir_exists
                && p.db_path@ == db_path
                && p.remove_database == database_exists
                && (options.create_config && !config_exists ==> (p.write_config matches Some((path, text))
                    && path@ == join_path(options.data_dir@, "config.yaml"@) && text@ == DEFAULT_CONFIG_TEMPLATE@))
                && (!(options.create_config && !config_exists) ==> p.write_config is None)
                && p.result.data_dir_created == !data_dir_exists
                && p.result.database_created
                && p.result.config_created == (options.create_config && !config_exists)
                && p.result.data_dir == options.data_dir)
        }),
{
    let db_path = join(options.data_dir.as_str(), "trop.db");
    if database_exists && !options.overwrite {
        let mut message = owned("Database already exists at ");
        message.push_str(db_path.as_str());
        message.push_str(". Use --overwrite to replace it.");
        return Err(Error::Validation { field: owned("database"), message });
    }
    let write_config = if options.create_config && !config_exists {
        Some((join(options.data_dir.as_str(), "config.yaml"), owned(DEFAULT_CONFIG_TEMPLATE)))
    } else {
        None
    };
    Ok(InitPlan {
        create_data_dir: !data_dir_exists,
        db_path,
        remove_database: database_exists,
        write_config,
        result: InitResult {
            data_dir_created: !data_dir_exists,
            database_created: true,
            config_created: options.create_config && !config_exists,
            data_dir: options.data_dir.clone(),
        },
    })
}

} // verus!
