//! Unlock flows: the master-password token, the PIN token kept in the secret
//! store, and what an unlock caches and remembers.
use vstd::prelude::*;
use vstd::string::StringExecFns;
use vstd::utf8::encode_utf8;
use crate::crypto::{
    create_pin_verification_token, create_verification_token, decrypt_result, derive_master_key, is_v1_sealing,
    master_key, pin_token_matches, wipe_key, verification_text, verify_password, verify_pin, CryptoFault, ARGON2_ITERATIONS,
    ARGON2_MEMORY_KB, ARGON2_PARALLELISM, PIN_ARGON2_ITERATIONS, PIN_ARGON2_MEMORY_KB, PIN_ARGON2_PARALLELISM,
};
use crate::keychain::{get, remove, save, SecretCache};
use crate::encoding::{b64_decode, b64_encode, base64_bytes};
use crate::session::SessionKeys;

verus! {

pub open spec fn db_path_slot() -> Seq<char> {
    "db-path"@
}

pub open spec fn master_password_slot() -> Seq<char> {
    "master-password"@
}

pub open spec fn pin_slot() -> Seq<char> {
    "pin-hash"@
}

/// A secret-store PIN entry made for `pin`: the base64 text of a PIN token.
pub open spec fn pin_entry_for(entry: Seq<char>, pin: Seq<u8>) -> bool {
    match base64_bytes(entry) {
        Some(t) => is_v1_sealing(t, verification_text(), pin, PIN_ARGON2_MEMORY_KB, PIN_ARGON2_ITERATIONS, PIN_ARGON2_PARALLELISM),
        None => false,
    }
}

/// Whether a token passes the PIN check: under the PIN costs, or else as a
/// password token.
pub open spec fn token_accepts_pin(token: Seq<u8>, pin: Seq<u8>) -> bool {
    pin_token_matches(token, pin) || decrypt_result(token, pin) == Ok::<Seq<u8>, CryptoFault>(verification_text())
}

/// Whether the stored PIN entry decodes to a token that accepts `pin`.
pub open spec fn pin_accepted(secrets: Map<Seq<char>, Seq<char>>, pin: Seq<u8>) -> bool {
    &&& secrets.contains_key(pin_slot())
    &&& base64_bytes(secrets[pin_slot()]) matches Some(t)
    &&& token_accepts_pin(t, pin)
}

/// The PIN check fails for want of a PIN entry.
pub open spec fn pin_missing(secrets: Map<Seq<char>, Seq<char>>) -> bool {
    !secrets.contains_key(pin_slot())
}

/// The PIN entry decodes, but its token does not accept `pin`.
pub open spec fn pin_rejected(secrets: Map<Seq<char>, Seq<char>>, pin: Seq<u8>) -> bool {
    secrets.contains_key(pin_slot()) && base64_bytes(secrets[pin_slot()]) is Some && !pin_accepted(secrets, pin)
}

/// Outcome of the PIN check against the stored entry.
fn check_pin(secrets: &SecretCache, pin: &str) -> (r: Result<(), String>)
    ensures
        r is Ok <==> pin_accepted(secrets@, encode_utf8(pin@)),
        !secrets@.contains_key(pin_slot()) ==> (r matches Err(e) && e@ == "No PIN configured"@),
        (secrets@.contains_key(pin_slot()) && base64_bytes(secrets@[pin_slot()]) is Some && !pin_accepted(secrets@, encode_utf8(pin@)))
            ==> (r matches Err(e) && e@ == "invalid_pin"@),
{
    let entry = match get(secrets, "pin-hash") {
        Some(e) => e,
        None => return Err(String::from_str("No PIN configured")),
    };
    let token = match b64_decode(entry.as_str()) {
        Ok(t) => t,
        Err(e) => {
            let mut m = String::from_str("Invalid PIN hash: ");
            m.append(e.to_string().as_str());
            return Err(m);
        },
    };
    if !verify_pin(token.as_slice(), pin) && !verify_password(token.as_slice(), pin) {
        return Err(String::from_str("invalid_pin"));
    }
    Ok(())
}

/// The secret store after PIN setup: database path, master password and a
/// new PIN entry.
pub fn setup_pin(secrets: &SecretCache, pin: &str, master_password: &str, db_path: Option<&str>) -> (r: Result<SecretCache, String>)
    ensures
        r is Ok <==> (encode_utf8(pin@).len() <= 0xFFFF_FFFF && db_path is Some),
        r matches Ok(c) ==> {
            &&& c@ == secrets@.insert(db_path_slot(), db_path->Some_0@).insert(master_password_slot(), master_password@).insert(pin_slot(), c@[pin_slot()])
            &&& pin_entry_for(c@[pin_slot()], encode_utf8(pin@))
        },
{
    let token = match create_pin_verification_token(pin) {
        Ok(t) => t,
        Err(e) => return Err(e.to_string()),
    };
    let entry = b64_encode(token.as_slice());
    let path = match db_path {
        Some(p) => p,
        None => return Err(String::from_str("No database path")),
    };
    let c = save(secrets, "db-path", path);
    let c = save(&c, "master-password", master_password);
    let c = save(&c, "pin-hash", entry.as_str());
    Ok(c)
}

/// PIN unlock: the PIN check passes, then the saved master password is read
/// back, its key derived and both cached. The session stays as it was on
/// any failure.
pub fn unlock_with_pin(secrets: &SecretCache, session: &mut SessionKeys, pin: &str) -> (r: Result<String, String>)
    ensures
        r is Ok <==> (pin_accepted(secrets@, encode_utf8(pin@)) && secrets@.contains_key(master_password_slot())
            && master_key(secrets@[master_password_slot()]) is Some),
        pin_missing(secrets@) ==> (r matches Err(e) && e@ == "No PIN configured"@),
        pin_rejected(secrets@, encode_utf8(pin@)) ==> (r matches Err(e) && e@ == "invalid_pin"@),
        (pin_accepted(secrets@, encode_utf8(pin@)) && !secrets@.contains_key(master_password_slot()))
            ==> (r matches Err(e) && e@ == "Master password not found in keychain"@),
        match r {
            Ok(mp) => {
                &&& mp@ == secrets@[master_password_slot()]
                &&& final(session).cached_key() == master_key(mp@)
                &&& final(session).cached_password() == Some(mp@)
            },
            Err(_) => *final(session) == *old(session),
        },
{
    check_pin(secrets, pin)?;
    let master_password = match get(secrets, "master-password") {
        Some(p) => p,
        None => return Err(String::from_str("Master password not found in keychain")),
    };
    let mut key = match derive_master_key(master_password.as_str()) {
        Ok(k) => k,
        Err(e) => return Err(e.to_string()),
    };
    session.set(key, master_password.clone());
    wipe_key(&mut key);
    Ok(master_password)
}

/// The secret store with the PIN entry replaced, once the old PIN passes
/// the check.
pub fn change_pin(secrets: &SecretCache, old_pin: &str, new_pin: &str) -> (r: Result<SecretCache, String>)
    ensures
        r is Ok <==> (pin_accepted(secrets@, encode_utf8(old_pin@)) && encode_utf8(new_pin@).len() <= 0xFFFF_FFFF),
        pin_missing(secrets@) ==> (r matches Err(e) && e@ == "No PIN configured"@),
        pin_rejected(secrets@, encode_utf8(old_pin@)) ==> (r matches Err(e) && e@ == "invalid_pin"@),
        r matches Ok(c) ==> {
            &&& c@ == secrets@.insert(pin_slot(), c@[pin_slot()])
            &&& pin_entry_for(c@[pin_slot()], encode_utf8(new_pin@))
        },
{
    check_pin(secrets, old_pin)?;
    let token = match create_pin_verification_token(new_pin) {
        Ok(t) => t,
        Err(e) => return Err(e.to_string()),
    };
    let entry = b64_encode(token.as_slice());
    Ok(save(secrets, "pin-hash", entry.as_str()))
}

/// PIN independence: after the PIN entry is replaced by one made for a new
/// PIN, the stored master password is exactly as before and the new PIN
/// passes the check.
pub proof fn lemma_pin_change_keeps_master_password(
    before: Map<Seq<char>, Seq<char>>,
    after: Map<Seq<char>, Seq<char>>,
    new_pin: Seq<u8>,
)
    requires
        after == before.insert(pin_slot(), after[pin_slot()]),
        pin_entry_for(after[pin_slot()], new_pin),
    ensures
        after.contains_key(master_password_slot()) == before.contains_key(master_password_slot()),
        before.contains_key(master_password_slot()) ==> after[master_password_slot()] == before[master_password_slot()],
        pin_accepted(after, new_pin),
{
    reveal_strlit("pin-hash");
    reveal_strlit("master-password");
    assert(pin_slot().len() != master_password_slot().len());
}

/// Whether a database path and a master password are both saved.
pub fn has_saved_session(secrets: &SecretCache) -> (r: bool)
    ensures
        r == (secrets@.contains_key(db_path_slot()) && secrets@.contains_key(master_password_slot())),
{
    get(secrets, "db-path").is_some() && get(secrets, "master-password").is_some()
}

/// Whether a PIN entry is saved.
pub fn has_pin(secrets: &SecretCache) -> (r: bool)
    ensures
        r == secrets@.contains_key(pin_slot()),
{
    get(secrets, "pin-hash").is_some()
}

/// The secret store without its session entries: database path, master
/// password and PIN.
pub fn clear_saved_session(secrets: &SecretCache) -> (r: SecretCache)
    ensures
        r@ == secrets@.remove(db_path_slot()).remove(master_password_slot()).remove(pin_slot()),
{
    let c = match remove(secrets, "db-path") {
        Some(c) => c,
        None => secrets.duplicate(),
    };
    let c2 = match remove(&c, "master-password") {
        Some(x) => x,
        None => c.duplicate(),
    };
    let c3 = match remove(&c2, "pin-hash") {
        Some(x) => x,
        None => c2.duplicate(),
    };
    proof {
        assert(c3@ =~= secrets@.remove(db_path_slot()).remove(master_password_slot()).remove(pin_slot()));
    }
    c3
}

/// The secret store after an unlock by password: the database path, if
/// known, and the master password are remembered.
pub fn remember_unlock(secrets: &SecretCache, db_path: Option<&str>, password: &str) -> (r: SecretCache)
    ensures
        r@ == match db_path {
            Some(p) => secrets@.insert(db_path_slot(), p@),
            None => secrets@,
        }.insert(master_password_slot(), password@),
{
    match db_path {
        Some(p) => {
            let c = save(secrets, "db-path", p);
            save(&c, "master-password", password)
        },
        None => save(secrets, "master-password", password),
    }
}

/// Derives the master key of a password and caches both; the session stays
/// as it was on failure.
pub fn cache_master_key(session: &mut SessionKeys, password: &str) -> (r: Result<(), String>)
    ensures
        r is Ok <==> master_key(password@) is Some,
        match r {
            Ok(_) => final(session).cached_key() == master_key(password@) && final(session).cached_password() == Some(password@),
            Err(_) => *final(session) == *old(session),
        },
{
    let mut key = match derive_master_key(password) {
        Ok(k) => k,
        Err(e) => return Err(e.to_string()),
    };
    session.set(key, password.to_string());
    wipe_key(&mut key);
    Ok(())
}

/// Checks a password against the stored token; on a match the master key is
/// derived and cached. `Ok(false)` for a wrong password, with the session
/// unchanged.
pub fn verify_master_password(token: Option<&[u8]>, session: &mut SessionKeys, password: &str) -> (r: Result<bool, String>)
    ensures
        match token {
            None => r matches Err(e) && e@ == "No master password set"@ && *final(session) == *old(session),
            Some(t) => if decrypt_result(t@, encode_utf8(password@)) != Ok::<Seq<u8>, CryptoFault>(verification_text()) {
                r == Ok::<bool, String>(false) && *final(session) == *old(session)
            } else {
                &&& (r is Ok <==> master_key(password@) is Some)
                &&& match r {
                    Ok(b) => b && final(session).cached_key() == master_key(password@) && final(session).cached_password() == Some(password@),
                    Err(_) => *final(session) == *old(session),
                }
            },
        },
{
    let t = match token {
        Some(t) => t,
        None => return Err(String::from_str("No master password set")),
    };
    if !verify_password(t, password) {
        return Ok(false);
    }
    cache_master_key(session, password)?;
    Ok(true)
}

/// The verification token of a first master password; refused when one is
/// already set.
pub fn new_master_token(existing: Option<&[u8]>, password: &str) -> (r: Result<Vec<u8>, String>)
    ensures
        r is Ok <==> (existing is None && encode_utf8(password@).len() <= 0xFFFF_FFFF),
        existing is Some ==> (r matches Err(e) && e@ == "Master password already set"@),
        r matches Ok(t) ==> is_v1_sealing(t@, verification_text(), encode_utf8(password@), ARGON2_MEMORY_KB, ARGON2_ITERATIONS, ARGON2_PARALLELISM),
{
    if existing.is_some() {
        return Err(String::from_str("Master password already set"));
    }
    match create_verification_token(password) {
        Ok(t) => Ok(t),
        Err(e) => Err(e.to_string()),
    }
}

} // verus!
