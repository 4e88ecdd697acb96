//! Service configuration, as plain values. Loading it from the process
//! environment and probing the credentials file live outside the library.

use vstd::prelude::*;

verus! {

/// The settings the service runs with.
#[derive(Debug, Clone)]
pub struct Config {
    pub port: u16,
    pub google_credentials_path: String,
    pub spreadsheet_id: Option<String>,
    pub drive_root_folder_id: Option<String>,
    pub allowed_origins: Vec<String>,
    pub database_url: String,
    pub run_migrations: bool,
}

impl Config {
    /// Whether the spreadsheet mirror is configured at all.
    pub fn has_google_sheets(&self) -> (r: bool)
        ensures
            r == (self.spreadsheet_id is Some),
    {
        self.spreadsheet_id.is_some()
    }
}

} // verus!
