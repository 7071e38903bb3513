//! The records that the library moves between the codec, the stores and the
//! user interface.
use vstd::prelude::*;
use vstd::string::StringExecFns;

verus! {

/// Where a record stands with respect to the remote store.
#[derive(Clone, Copy, Debug, PartialEq, Eq, Structural)]
pub enum SyncStatus {
    /// Created here and never uploaded.
    Local,
    /// Changed here since the last upload.
    Modified,
    /// Same as the remote copy.
    Synced,
    /// Deleted here; the remote copy goes at the next pass.
    Deleted,
}

/// A stored record: name and content are encrypted blobs.
#[derive(Clone, Debug)]
pub struct Project {
    pub id: String,
    pub encrypted_name: Vec<u8>,
    pub encrypted_content: Vec<u8>,
    pub sort_order: i32,
    pub created_at: String,
    pub updated_at: String,
    pub server_id: Option<String>,
    pub sync_status: SyncStatus,
}

pub struct ProjectView {
    pub id: Seq<char>,
    pub encrypted_name: Seq<u8>,
    pub encrypted_content: Seq<u8>,
    pub sort_order: i32,
    pub created_at: Seq<char>,
    pub updated_at: Seq<char>,
    pub server_id: Option<Seq<char>>,
    pub sync_status: SyncStatus,
}

pub open spec fn opt_str_view(s: Option<String>) -> Option<Seq<char>> {
    match s {
        Some(x) => Some(x@),
        None => None,
    }
}

impl View for Project {
    type V = ProjectView;

    open spec fn view(&self) -> ProjectView {
        ProjectView {
            id: self.id@,
            encrypted_name: self.encrypted_name@,
            encrypted_content: self.encrypted_content@,
            sort_order: self.sort_order,
            created_at: self.created_at@,
            updated_at: self.updated_at@,
            server_id: opt_str_view(self.server_id),
            sync_status: self.sync_status,
        }
    }
}

pub open spec fn views(v: Seq<Project>) -> Seq<ProjectView> {
    v.map_values(|p: Project| p@)
}

pub fn clone_opt_string(s: &Option<String>) -> (r: Option<String>)
    ensures
        opt_str_view(r) == opt_str_view(*s),
{
    match s {
        Some(x) => Some(x.clone()),
        None => None,
    }
}

pub fn clone_bytes(v: &Vec<u8>) -> (r: Vec<u8>)
    ensures
        r@ == v@,
{
    let r = v.clone();
    assert(r@ =~= v@);
    r
}

impl Project {
    /// A field-by-field copy.
    pub fn duplicate(&self) -> (r: Project)
        ensures
            r@ == self@,
    {
        Project {
            id: self.id.clone(),
            encrypted_name: clone_bytes(&self.encrypted_name),
            encrypted_content: clone_bytes(&self.encrypted_content),
            sort_order: self.sort_order,
            created_at: self.created_at.clone(),
            updated_at: self.updated_at.clone(),
            server_id: clone_opt_string(&self.server_id),
            sync_status: self.sync_status,
        }
    }
}

/// A record with its name and content in the clear.
#[derive(Clone, Debug)]
pub struct DecryptedProject {
    pub id: String,
    pub name: String,
    pub content: String,
    pub has_custom_password: bool,
    pub sort_order: i32,
    pub created_at: String,
    pub updated_at: String,
}

/// User preferences.
#[derive(Clone, Debug)]
pub struct AppSettings {
    pub db_path: Option<String>,
    pub auto_lock_minutes: u32,
    pub theme: String,
    pub onboarding_shown: bool,
}

impl Default for AppSettings {
    fn default() -> (r: Self)
        ensures
            r.db_path is None,
            r.auto_lock_minutes == 5,
            r.theme@ == "system"@,
            !r.onboarding_shown,
    {
        AppSettings {
            db_path: None,
            auto_lock_minutes: 5,
            theme: String::from_str("system"),
            onboarding_shown: false,
        }
    }
}

} // verus!
