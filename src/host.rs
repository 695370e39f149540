//! Reading the host's directories and library root.
use vstd::prelude::*;

use crate::resolver::{HostEnv, HostOs};

verus! {

/// Relies on `directories::BaseDirs::new`, read through `data_local_dir` and `config_dir`:
/// `None` where the system gives no home directory.
#[verifier::external_body]
fn system_base_dirs() -> (r: Option<(String, String)>) {
    match directories::BaseDirs::new() {
        Some(b) => Some((
            b.data_local_dir().to_string_lossy().into_owned(),
            b.config_dir().to_string_lossy().into_owned(),
        )),
        None => None,
    }
}

/// Relies on `directories::UserDirs::new`, read through `home_dir` and `document_dir`:
/// `None` where the system gives no home directory.
#[verifier::external_body]
fn system_user_dirs() -> (r: Option<(String, Option<String>)>) {
    match directories::UserDirs::new() {
        Some(u) => Some((
            u.home_dir().to_string_lossy().into_owned(),
            u.document_dir().map(|d| d.to_string_lossy().into_owned()),
        )),
        None => None,
    }
}

/// Relies on `steamlocate::SteamDir::locate`, read through `path`: the title library's
/// installation directory, where one is found.
#[verifier::external_body]
fn system_steam_root() -> (r: Option<String>) {
    match steamlocate::SteamDir::locate() {
        Ok(d) => Some(d.path().to_string_lossy().into_owned()),
        Err(_) => None,
    }
}

impl HostEnv {
    /// The host's directories for resolution on `os`, from what the system reported: the
    /// local-data and configuration directories, the home and documents directories, and
    /// the library root; `None` where either set of directories is missing.
    pub fn from_parts(
        os: HostOs,
        base: Option<(String, String)>,
        user: Option<(String, Option<String>)>,
        steam_root: Option<String>,
    ) -> (r: Option<HostEnv>)
        ensures
            match (base, user) {
                (Some((l, c)), Some((h, d))) => r == Some(
                    (HostEnv {
                        os,
                        data_local_dir: l,
                        config_dir: c,
                        home_dir: h,
                        document_dir: d,
                        steam_root,
                    }),
                ),
                _ => r is None,
            },
    {
        match (base, user) {
            (Some((data_local_dir, config_dir)), Some((home_dir, document_dir))) => Some(
                HostEnv { os, data_local_dir, config_dir, home_dir, document_dir, steam_root },
            ),
            _ => None,
        }
    }

    /// The host's directories as the system reports them now, for resolution on `os`;
    /// `None` where the system gives no home directory.
    pub fn from_system(os: HostOs) -> (r: Option<HostEnv>)
        ensures
            r matches Some(e) ==> e.os == os,
    {
        HostEnv::from_parts(os, system_base_dirs(), system_user_dirs(), system_steam_root())
    }

    /// The root under which snapshots are kept: the documents directory, or else home.
    pub fn documents_root(&self) -> (r: String)
        ensures
            r@ == match self.document_dir {
                Some(d) => d@,
                None => self.home_dir@,
            },
    {
        match &self.document_dir {
            Some(d) => d.clone(),
            None => self.home_dir.clone(),
        }
    }
}

} // verus!
