//! Plain data handed between the library and its callers.
use vstd::prelude::*;

use crate::watcher::AUTO_RETENTION_LIMIT;

verus! {

/// An installed title.
#[derive(Clone, Debug)]
pub struct GameInfo {
    pub id: u32,
    pub name: String,
    pub install_dir: String,
    /// Name of the newest snapshot, where there is one.
    pub last_backup: Option<String>,
}

/// One snapshot as listed to the user.
#[derive(Clone, Debug)]
pub struct BackupEntry {
    pub name: String,
    pub path: String,
    pub has_zip: bool,
    pub size_mb: String,
}

/// The catalog identity of a manifest title.
#[derive(Clone, Copy, Debug, PartialEq, Eq, Structural)]
pub struct LudusaviSteam {
    pub id: u32,
}

/// A manifest title: its catalog identity and the templates of its save locations.
#[derive(Clone, Debug)]
pub struct LudusaviGame {
    pub steam: Option<LudusaviSteam>,
    pub files: Option<Vec<String>>,
}

/// A user override of a title's save location, as a Windows-style template.
#[derive(Clone, Debug)]
pub struct CustomGameEntry {
    pub win: String,
}

/// Application settings.
#[derive(Clone, Copy, Debug, PartialEq, Eq, Structural)]
pub struct AppConfig {
    /// Snapshots kept per title.
    pub retention_limit: usize,
}

impl Default for AppConfig {
    fn default() -> (r: AppConfig)
        ensures
            r.retention_limit == AUTO_RETENTION_LIMIT,
    {
        AppConfig { retention_limit: AUTO_RETENTION_LIMIT }
    }
}

/// Settings as stored by the application.
pub struct ConfigService;

impl ConfigService {
    /// The settings in force: those read, or the defaults where none could be read.
    pub fn config_or_default(loaded: Option<AppConfig>) -> (r: AppConfig)
        ensures
            r == match loaded {
                Some(c) => c,
                None => AppConfig { retention_limit: AUTO_RETENTION_LIMIT },
            },
    {
        match loaded {
            Some(c) => c,
            None => AppConfig { retention_limit: AUTO_RETENTION_LIMIT },
        }
    }
}

} // verus!
