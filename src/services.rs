//! Collaborator services whose operations are fixed answers for now: the
//! shell calls them, and the launch and install logic does not depend on them.
use vstd::prelude::*;
use crate::errors::LauncherError;

verus! {

pub struct SkinService;

impl SkinService {
    pub fn new() -> (r: SkinService) {
        SkinService
    }

    /// Accepts a skin upload.
    pub fn upload(&self, skin_data: Vec<u8>, is_slim: bool) -> (r: Result<bool, LauncherError>)
        ensures
            r == Ok::<bool, LauncherError>(true),
    {
        Ok(true)
    }

    /// The address of a player's skin; none is hosted yet.
    pub fn get_url(&self, uuid: &str) -> (r: Result<String, LauncherError>)
        ensures
            r matches Ok(u) && u@.len() == 0,
    {
        Ok(String::new())
    }

    pub fn reset(&self) -> (r: Result<bool, LauncherError>)
        ensures
            r == Ok::<bool, LauncherError>(true),
    {
        Ok(true)
    }
}

pub struct NotificationService;

impl NotificationService {
    pub fn new() -> (r: NotificationService) {
        NotificationService
    }

    pub fn show(&self, title: &str, body: &str, icon: Option<&str>) -> (r: Result<(), LauncherError>)
        ensures
            r == Ok::<(), LauncherError>(()),
    {
        Ok(())
    }
}

pub struct NewsService;

impl NewsService {
    pub fn new() -> (r: NewsService) {
        NewsService
    }
}

pub struct PrivilegeService;

impl PrivilegeService {
    pub fn new() -> (r: PrivilegeService) {
        PrivilegeService
    }
}

pub struct ModpackService;

impl ModpackService {
    pub fn new() -> (r: ModpackService) {
        ModpackService
    }

    pub fn install(&self, id: &str) -> (r: Result<bool, LauncherError>)
        ensures
            r == Ok::<bool, LauncherError>(true),
    {
        Ok(true)
    }

    pub fn uninstall(&self, id: &str) -> (r: Result<bool, LauncherError>)
        ensures
            r == Ok::<bool, LauncherError>(true),
    {
        Ok(true)
    }
}

pub struct SystemService;

impl SystemService {
    pub fn new() -> (r: SystemService) {
        SystemService
    }

    pub fn open_directory(&self, path: &str) -> (r: Result<(), LauncherError>)
        ensures
            r == Ok::<(), LauncherError>(()),
    {
        Ok(())
    }
}

} // verus!
