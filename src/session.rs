//! The process-wide session credentials: the active master key and the
//! master password, set together by an unlock and cleared together.
use vstd::prelude::*;
use vstd::string::StringExecFns;
use crate::crypto::{wipe_key, KEY_LEN};

verus! {

#[derive(Debug)]
pub struct SessionKeys {
    key: Option<[u8; KEY_LEN]>,
    password: Option<String>,
}

impl SessionKeys {
    pub closed spec fn cached_key(&self) -> Option<Seq<u8>> {
        match self.key {
            Some(k) => Some(k@),
            None => None,
        }
    }

    pub closed spec fn cached_password(&self) -> Option<Seq<char>> {
        match self.password {
            Some(p) => Some(p@),
            None => None,
        }
    }

    /// Both credentials are present, or neither is.
    pub open spec fn wf(&self) -> bool {
        self.cached_key() is Some == self.cached_password() is Some
    }

    /// A locked session.
    pub fn new() -> (r: SessionKeys)
        ensures
            r.wf(),
            r.cached_key() is None,
            r.cached_password() is None,
    {
        SessionKeys { key: None, password: None }
    }

    /// Caches the key and password of an unlock; a key cached before is
    /// wiped first.
    pub fn set(&mut self, key: [u8; KEY_LEN], password: String)
        ensures
            final(self).wf(),
            final(self).cached_key() == Some(key@),
            final(self).cached_password() == Some(password@),
    {
        self.clear();
        self.key = Some(key);
        self.password = Some(password);
    }

    /// Wipes the cached key in place, then drops both credentials.
    pub fn clear(&mut self)
        ensures
            final(self).wf(),
            final(self).cached_key() is None,
            final(self).cached_password() is None,
    {
        if let Some(k) = &mut self.key {
            wipe_key(k);
        }
        self.key = None;
        self.password = None;
    }

    /// A snapshot of the cached key.
    pub fn key(&self) -> (r: Option<[u8; KEY_LEN]>)
        ensures
            match r {
                Some(k) => self.cached_key() == Some(k@),
                None => self.cached_key() is None,
            },
    {
        self.key
    }

    /// The cached key, or the "locked" condition when there is none.
    pub fn get_cached_key(&self) -> (r: Result<[u8; KEY_LEN], String>)
        ensures
            match r {
                Ok(k) => self.cached_key() == Some(k@),
                Err(e) => self.cached_key() is None && e@ == "No cached key. Please unlock first."@,
            },
    {
        match self.key {
            Some(k) => Ok(k),
            None => Err(String::from_str("No cached key. Please unlock first.")),
        }
    }

    /// A snapshot of the cached master password.
    pub fn get_master_password(&self) -> (r: Option<String>)
        ensures
            match r {
                Some(p) => self.cached_password() == Some(p@),
                None => self.cached_password() is None,
            },
    {
        match &self.password {
            Some(p) => Some(p.clone()),
            None => None,
        }
    }
}

} // verus!
