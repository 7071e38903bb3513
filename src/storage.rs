//! The storage interface shared by the local database and the remote server.
use vstd::prelude::*;
use vstd::string::StringExecFns;
use crate::models::Project;

verus! {

#[derive(Debug)]
pub enum StorageError {
    Database(String),
    NotFound(String),
    Io(String),
}

impl StorageError {
    pub open spec fn message(&self) -> Seq<char> {
        match self {
            StorageError::Database(m) => "Database error: "@ + m@,
            StorageError::NotFound(m) => "Project not found: "@ + m@,
            StorageError::Io(m) => "IO error: "@ + m@,
        }
    }

    /// The error as the user reads it.
    pub fn to_string(&self) -> (r: String)
        ensures
            r@ == self.message(),
    {
        let (prefix, m) = match self {
            StorageError::Database(m) => (String::from_str("Database error: "), m),
            StorageError::NotFound(m) => (String::from_str("Project not found: "), m),
            StorageError::Io(m) => (String::from_str("IO error: "), m),
        };
        let mut r = prefix;
        r.append(m.as_str());
        r
    }
}

/// A project store. The local database and the remote server both provide
/// one; on the remote server the verification-token, setting and reorder
/// operations do nothing.
pub trait StorageProvider: Send + Sync {
    fn init(&self) -> Result<(), StorageError>;

    fn list_projects(&self) -> Result<Vec<Project>, StorageError>;

    fn get_project(&self, id: &str) -> Result<Project, StorageError>;

    /// Stores a new record; returns the id the store keeps it under.
    fn create_project(&self, project: &Project) -> Result<String, StorageError>;

    fn update_project(&self, project: &Project) -> Result<(), StorageError>;

    fn delete_project(&self, id: &str) -> Result<(), StorageError>;

    fn reorder_projects(&self, ids_with_order: &[(String, i32)]) -> Result<(), StorageError>;

    fn get_verification_token(&self) -> Result<Option<Vec<u8>>, StorageError>;

    fn set_verification_token(&self, token: &[u8]) -> Result<(), StorageError>;

    fn get_setting(&self, key: &str) -> Result<Option<String>, StorageError>;

    fn set_setting(&self, key: &str, value: &str) -> Result<(), StorageError>;
}

} // verus!
