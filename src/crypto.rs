//! Key derivation and the two ciphertext layouts.
//!
//! Layout one: `salt(16) || nonce(12) || ciphertext`, the key is derived from
//! a password on every call. Layout two: `0x02 || nonce(12) || ciphertext`,
//! the key is a pre-derived master key.
use vstd::prelude::*;
use vstd::utf8::encode_utf8;
use vstd::slice::slice_subrange;
use vstd::string::StringExecFns;
use aes_gcm::aead::{Aead, KeyInit};

verus! {

pub const SALT_LEN: usize = 16;
pub const NONCE_LEN: usize = 12;
pub const KEY_LEN: usize = 32;

#[verifier::external_type_specification]
#[verifier::external_body]
pub struct ExArgon2Error(argon2::Error);

/// What Argon2id (version 0x13, 32-byte output) yields for a password, a
/// salt and the memory, iteration and lane costs.
pub uninterp spec fn argon2id_key(password: Seq<u8>, salt: Seq<u8>, m: u32, t: u32, p: u32) -> Seq<u8>;

/// Cost parameters that `argon2::Params::new` accepts.
pub open spec fn argon2_params_ok(m: u32, t: u32, p: u32) -> bool {
    &&& 1 <= p <= 0xFF_FFFF
    &&& 8 <= m
    &&& 8 * p <= m
    &&& 1 <= t
}

/// Relies on `argon2::Params::new` and `argon2::Argon2::hash_password_into`:
/// with accepted parameters and a 32-byte output they fail only on a password
/// or salt length outside the crate's bounds, and otherwise fill the key.
#[verifier::external_body]
fn argon2id_hash(password: &[u8], salt: &[u8], m: u32, t: u32, p: u32) -> (r: Result<[u8; KEY_LEN], argon2::Error>)
    requires
        argon2_params_ok(m, t, p),
    ensures
        r is Ok <==> (password@.len() <= 0xFFFF_FFFF && 8 <= salt@.len() <= 0xFFFF_FFFF),
        r matches Ok(k) ==> k@ == argon2id_key(password@, salt@, m, t, p),
{
    let params = argon2::Params::new(m, t, p, Some(KEY_LEN))?;
    let hasher = argon2::Argon2::new(argon2::Algorithm::Argon2id, argon2::Version::V0x13, params);
    let mut key = [0u8; KEY_LEN];
    hasher.hash_password_into(password, salt, &mut key)?;
    Ok(key)
}

#[verifier::external_type_specification]
#[verifier::external_body]
pub struct ExAeadError(aes_gcm::Error);

/// The AES-256-GCM ciphertext (tag appended) of a plaintext under a key and
/// a 96-bit nonce, with no associated data.
pub uninterp spec fn gcm_seal(key: Seq<u8>, nonce: Seq<u8>, plaintext: Seq<u8>) -> Seq<u8>;

/// What AES-256-GCM decryption of a ciphertext (tag appended) under a key and
/// a 96-bit nonce yields: the plaintext, or nothing when the tag does not
/// authenticate.
pub uninterp spec fn gcm_open(key: Seq<u8>, nonce: Seq<u8>, ciphertext: Seq<u8>) -> Option<Seq<u8>>;

/// Longest plaintext that AES-GCM accepts (2^36 bytes).
pub const GCM_MAX_PLAINTEXT: u64 = 68_719_476_736;

/// Length of the authentication tag appended to every ciphertext.
pub const TAG_LEN: usize = 16;

/// Relies on `Aead::encrypt` of `aes_gcm::Aes256Gcm`: it refuses plaintexts
/// longer than 2^36 bytes; otherwise it returns the encrypted bytes followed
/// by the 16-byte tag, which decryption under the same key and nonce
/// authenticates and turns back into the plaintext.
#[verifier::external_body]
fn gcm_encrypt(key: &[u8; KEY_LEN], nonce: &[u8], plaintext: &[u8]) -> (r: Result<Vec<u8>, aes_gcm::Error>)
    requires
        nonce@.len() == NONCE_LEN,
    ensures
        r is Ok <==> plaintext@.len() <= GCM_MAX_PLAINTEXT,
        r matches Ok(c) ==> {
            &&& c@ == gcm_seal(key@, nonce@, plaintext@)
            &&& c@.len() == plaintext@.len() + TAG_LEN
            &&& gcm_open(key@, nonce@, c@) == Some(plaintext@)
        },
{
    let cipher = aes_gcm::Aes256Gcm::new(aes_gcm::Key::<aes_gcm::Aes256Gcm>::from_slice(key));
    cipher.encrypt(aes_gcm::Nonce::from_slice(nonce), plaintext)
}

/// Relies on `Aead::decrypt` of `aes_gcm::Aes256Gcm`: the plaintext when the
/// tag authenticates, an error otherwise.
#[verifier::external_body]
fn gcm_decrypt(key: &[u8; KEY_LEN], nonce: &[u8], ciphertext: &[u8]) -> (r: Result<Vec<u8>, aes_gcm::Error>)
    requires
        nonce@.len() == NONCE_LEN,
    ensures
        match r {
            Ok(p) => gcm_open(key@, nonce@, ciphertext@) == Some(p@),
            Err(_) => gcm_open(key@, nonce@, ciphertext@) is None,
        },
{
    let cipher = aes_gcm::Aes256Gcm::new(aes_gcm::Key::<aes_gcm::Aes256Gcm>::from_slice(key));
    cipher.decrypt(aes_gcm::Nonce::from_slice(nonce), ciphertext)
}

/// Relies on `rand::thread_rng` and `RngCore::fill_bytes`: the buffer is
/// overwritten with random bytes and keeps its length.
#[verifier::external_body]
fn fill_random(buf: &mut Vec<u8>)
    ensures
        final(buf)@.len() == old(buf)@.len(),
{
    rand::RngCore::fill_bytes(&mut rand::thread_rng(), buf.as_mut_slice());
}

/// Relies on `zeroize::Zeroize` for byte arrays: every byte is overwritten
/// with zero.
#[verifier::external_body]
pub(crate) fn wipe_key(key: &mut [u8; KEY_LEN])
    ensures
        final(key)@ == Seq::new(KEY_LEN as nat, |i: int| 0u8),
{
    zeroize::Zeroize::zeroize(key);
}

#[derive(Debug)]
pub enum CryptoError {
    EncryptionFailed(String),
    DecryptionFailed(String),
    InvalidFormat,
    KeyDerivationFailed(String),
}

fn derive_key_with_params(password: &[u8], salt: &[u8], m: u32, t: u32, p: u32) -> (r: Result<[u8; KEY_LEN], CryptoError>)
    requires
        argon2_params_ok(m, t, p),
    ensures
        r is Ok <==> (password@.len() <= 0xFFFF_FFFF && 8 <= salt@.len() <= 0xFFFF_FFFF),
        r matches Ok(k) ==> k@ == argon2id_key(password@, salt@, m, t, p),
        r matches Err(e) ==> e is KeyDerivationFailed,
{
    match argon2id_hash(password, salt, m, t, p) {
        Ok(k) => Ok(k),
        Err(e) => Err(CryptoError::KeyDerivationFailed(e.to_string())),
    }
}

impl CryptoError {
    pub open spec fn message(&self) -> Seq<char> {
        match self {
            CryptoError::EncryptionFailed(m) => "Encryption failed: "@ + m@,
            CryptoError::DecryptionFailed(m) => "Decryption failed: "@ + m@,
            CryptoError::InvalidFormat => "Invalid data format"@,
            CryptoError::KeyDerivationFailed(m) => "Key derivation failed: "@ + m@,
        }
    }

    /// The error as the user reads it.
    pub fn to_string(&self) -> (r: String)
        ensures
            r@ == self.message(),
    {
        match self {
            CryptoError::EncryptionFailed(m) => {
                let mut r = String::from_str("Encryption failed: ");
                r.append(m.as_str());
                r
            },
            CryptoError::DecryptionFailed(m) => {
                let mut r = String::from_str("Decryption failed: ");
                r.append(m.as_str());
                r
            },
            CryptoError::InvalidFormat => String::from_str("Invalid data format"),
            CryptoError::KeyDerivationFailed(m) => {
                let mut r = String::from_str("Key derivation failed: ");
                r.append(m.as_str());
                r
            },
        }
    }
}

/// The kind of a `CryptoError`, as contracts speak of it.
pub enum CryptoFault {
    Encryption,
    Decryption,
    Format,
    Derivation,
}

impl CryptoError {
    pub open spec fn fault(&self) -> CryptoFault {
        match self {
            CryptoError::EncryptionFailed(_) => CryptoFault::Encryption,
            CryptoError::DecryptionFailed(_) => CryptoFault::Decryption,
            CryptoError::InvalidFormat => CryptoFault::Format,
            CryptoError::KeyDerivationFailed(_) => CryptoFault::Derivation,
        }
    }
}

/// A byte-producing result seen as plain bytes or the kind of its error.
pub open spec fn outcome(r: Result<Vec<u8>, CryptoError>) -> Result<Seq<u8>, CryptoFault> {
    match r {
        Ok(v) => Ok(v@),
        Err(e) => Err(e.fault()),
    }
}

// Cost profiles: current (interactive unlock), legacy (decrypt-time fallback
// for older data) and PIN.
pub const ARGON2_MEMORY_KB: u32 = 16384;
pub const ARGON2_ITERATIONS: u32 = 1;
pub const ARGON2_PARALLELISM: u32 = 1;

pub const LEGACY_ARGON2_MEMORY_KB: u32 = 65536;
pub const LEGACY_ARGON2_ITERATIONS: u32 = 3;
pub const LEGACY_ARGON2_PARALLELISM: u32 = 4;

pub const PIN_ARGON2_MEMORY_KB: u32 = 4096;
pub const PIN_ARGON2_ITERATIONS: u32 = 1;
pub const PIN_ARGON2_PARALLELISM: u32 = 1;

/// Tag byte that opens every layout-two blob.
pub const FORMAT_V2: u8 = 0x02;

/// Smallest layout-one blob: salt, nonce and one byte of ciphertext.
pub const V1_MIN_LEN: usize = 29;

/// Smallest layout-two blob: tag byte, nonce and one byte of ciphertext.
pub const V2_MIN_LEN: usize = 14;

/// The key that the derivation yields, or nothing when the password or the
/// salt has a length Argon2 refuses.
pub open spec fn derived_key(password: Seq<u8>, salt: Seq<u8>, m: u32, t: u32, p: u32) -> Option<Seq<u8>> {
    if password.len() <= 0xFFFF_FFFF && 8 <= salt.len() <= 0xFFFF_FFFF {
        Some(argon2id_key(password, salt, m, t, p))
    } else {
        None
    }
}

pub open spec fn current_key(password: Seq<u8>, salt: Seq<u8>) -> Option<Seq<u8>> {
    derived_key(password, salt, ARGON2_MEMORY_KB, ARGON2_ITERATIONS, ARGON2_PARALLELISM)
}

pub open spec fn legacy_key(password: Seq<u8>, salt: Seq<u8>) -> Option<Seq<u8>> {
    derived_key(password, salt, LEGACY_ARGON2_MEMORY_KB, LEGACY_ARGON2_ITERATIONS, LEGACY_ARGON2_PARALLELISM)
}

pub open spec fn pin_key(password: Seq<u8>, salt: Seq<u8>) -> Option<Seq<u8>> {
    derived_key(password, salt, PIN_ARGON2_MEMORY_KB, PIN_ARGON2_ITERATIONS, PIN_ARGON2_PARALLELISM)
}

/// The fixed salt of the master key: "access-storage-session-key-salt!".
pub open spec fn master_salt() -> Seq<u8> {
    seq![
        0x61u8, 0x63, 0x63, 0x65, 0x73, 0x73, 0x2d, 0x73, 0x74, 0x6f, 0x72, 0x61, 0x67, 0x65, 0x2d, 0x73,
        0x65, 0x73, 0x73, 0x69, 0x6f, 0x6e, 0x2d, 0x6b, 0x65, 0x79, 0x2d, 0x73, 0x61, 0x6c, 0x74, 0x21,
    ]
}

/// The master key of a password: the same password always gives the same key.
pub open spec fn master_key(password: Seq<char>) -> Option<Seq<u8>> {
    current_key(encode_utf8(password), master_salt())
}

/// The known plaintext of verification tokens: "ACCESS_STORAGE_OK".
pub open spec fn verification_text() -> Seq<u8> {
    seq![
        0x41u8, 0x43, 0x43, 0x45, 0x53, 0x53, 0x5f, 0x53, 0x54, 0x4f, 0x52, 0x41, 0x47, 0x45, 0x5f, 0x4f,
        0x4b,
    ]
}

pub open spec fn v1_salt(blob: Seq<u8>) -> Seq<u8> {
    blob.subrange(0, SALT_LEN as int)
}

pub open spec fn v1_nonce(blob: Seq<u8>) -> Seq<u8> {
    blob.subrange(SALT_LEN as int, (SALT_LEN + NONCE_LEN) as int)
}

pub open spec fn v1_body(blob: Seq<u8>) -> Seq<u8> {
    blob.subrange((SALT_LEN + NONCE_LEN) as int, blob.len() as int)
}

pub open spec fn v2_nonce(blob: Seq<u8>) -> Seq<u8> {
    blob.subrange(1, 1 + NONCE_LEN as int)
}

pub open spec fn v2_body(blob: Seq<u8>) -> Seq<u8> {
    blob.subrange(1 + NONCE_LEN as int, blob.len() as int)
}

/// Opening the body of a layout-one blob with a key, if there is one.
pub open spec fn open_v1_with(blob: Seq<u8>, key: Option<Seq<u8>>) -> Option<Seq<u8>> {
    match key {
        Some(k) => gcm_open(k, v1_nonce(blob), v1_body(blob)),
        None => None,
    }
}

/// `blob` is a layout-one sealing of `plaintext` under the key that the given
/// costs derive from `password` and the blob's own salt.
pub open spec fn is_v1_sealing(blob: Seq<u8>, plaintext: Seq<u8>, password: Seq<u8>, m: u32, t: u32, p: u32) -> bool {
    &&& blob.len() == SALT_LEN + NONCE_LEN + plaintext.len() + TAG_LEN
    &&& match derived_key(password, v1_salt(blob), m, t, p) {
        Some(k) => {
            &&& v1_body(blob) == gcm_seal(k, v1_nonce(blob), plaintext)
            &&& gcm_open(k, v1_nonce(blob), v1_body(blob)) == Some(plaintext)
        },
        None => false,
    }
}

/// `blob` is a layout-two sealing of `plaintext` under `key`.
pub open spec fn is_v2_sealing(blob: Seq<u8>, plaintext: Seq<u8>, key: Seq<u8>) -> bool {
    &&& blob.len() == 1 + NONCE_LEN + plaintext.len() + TAG_LEN
    &&& blob[0] == FORMAT_V2
    &&& v2_body(blob) == gcm_seal(key, v2_nonce(blob), plaintext)
    &&& gcm_open(key, v2_nonce(blob), v2_body(blob)) == Some(plaintext)
}

/// Result of password decryption of a layout-one blob: the current costs
/// first, the legacy costs only when the current key does not authenticate.
pub open spec fn decrypt_result(blob: Seq<u8>, password: Seq<u8>) -> Result<Seq<u8>, CryptoFault> {
    if blob.len() < V1_MIN_LEN {
        Err(CryptoFault::Format)
    } else {
        match open_v1_with(blob, current_key(password, v1_salt(blob))) {
            Some(p) => Ok(p),
            None => match legacy_key(password, v1_salt(blob)) {
                None => Err(CryptoFault::Derivation),
                Some(k) => match gcm_open(k, v1_nonce(blob), v1_body(blob)) {
                    Some(p) => Ok(p),
                    None => Err(CryptoFault::Decryption),
                },
            },
        }
    }
}

/// Result of the strict layout-two probe.
pub open spec fn probe_result(blob: Seq<u8>, key: Seq<u8>) -> Option<Seq<u8>> {
    if blob.len() == 0 || blob[0] != FORMAT_V2 || blob.len() < V2_MIN_LEN {
        None
    } else {
        gcm_open(key, v2_nonce(blob), v2_body(blob))
    }
}

/// Result of decryption with whatever credential is at hand: the tag byte
/// picks the layout; a layout-one blob is first tried with the cached key,
/// then with the password.
pub open spec fn decrypt_auto_result(blob: Seq<u8>, cached: Option<Seq<u8>>, password: Option<Seq<u8>>) -> Result<Seq<u8>, CryptoFault> {
    if blob.len() == 0 {
        Err(CryptoFault::Format)
    } else if blob[0] == FORMAT_V2 {
        match cached {
            None => Err(CryptoFault::Decryption),
            Some(k) => if blob.len() < V2_MIN_LEN {
                Err(CryptoFault::Format)
            } else {
                match gcm_open(k, v2_nonce(blob), v2_body(blob)) {
                    Some(p) => Ok(p),
                    None => Err(CryptoFault::Decryption),
                }
            },
        }
    } else {
        let probe = if blob.len() >= V1_MIN_LEN { open_v1_with(blob, cached) } else { None };
        match probe {
            Some(p) => Ok(p),
            None => match password {
                Some(w) => decrypt_result(blob, w),
                None => Err(CryptoFault::Decryption),
            },
        }
    }
}

/// Whether a PIN token opens to the known plaintext under the PIN costs.
pub open spec fn pin_token_matches(token: Seq<u8>, pin: Seq<u8>) -> bool {
    &&& token.len() >= V1_MIN_LEN
    &&& open_v1_with(token, pin_key(pin, v1_salt(token))) == Some(verification_text())
}

pub open spec fn key_view(key: Option<&[u8; KEY_LEN]>) -> Option<Seq<u8>> {
    match key {
        Some(k) => Some(k@),
        None => None,
    }
}

pub open spec fn password_bytes(password: Option<&str>) -> Option<Seq<u8>> {
    match password {
        Some(w) => Some(encode_utf8(w@)),
        None => None,
    }
}

fn derive_key(password: &[u8], salt: &[u8]) -> (r: Result<[u8; KEY_LEN], CryptoError>)
    ensures
        match r {
            Ok(k) => current_key(password@, salt@) == Some(k@),
            Err(e) => current_key(password@, salt@) is None && e is KeyDerivationFailed,
        },
{
    derive_key_with_params(password, salt, ARGON2_MEMORY_KB, ARGON2_ITERATIONS, ARGON2_PARALLELISM)
}

/// Derives the session master key from a password with the fixed salt and
/// the current costs.
pub fn derive_master_key(password: &str) -> (r: Result<[u8; KEY_LEN], CryptoError>)
    ensures
        match r {
            Ok(k) => master_key(password@) == Some(k@),
            Err(e) => master_key(password@) is None && e is KeyDerivationFailed,
        },
{
    let salt: [u8; 32] = [
        0x61u8, 0x63, 0x63, 0x65, 0x73, 0x73, 0x2d, 0x73, 0x74, 0x6f, 0x72, 0x61, 0x67, 0x65, 0x2d, 0x73,
        0x65, 0x73, 0x73, 0x69, 0x6f, 0x6e, 0x2d, 0x6b, 0x65, 0x79, 0x2d, 0x73, 0x61, 0x6c, 0x74, 0x21,
    ];
    assert(salt@ == master_salt());
    derive_key(password.as_bytes(), salt.as_slice())
}

fn seal_v1(plaintext: &[u8], password: &str, m: u32, t: u32, p: u32) -> (r: Result<Vec<u8>, CryptoError>)
    requires
        argon2_params_ok(m, t, p),
    ensures
        r is Ok <==> (encode_utf8(password@).len() <= 0xFFFF_FFFF && plaintext@.len() <= GCM_MAX_PLAINTEXT),
        match r {
            Ok(b) => is_v1_sealing(b@, plaintext@, encode_utf8(password@), m, t, p),
            Err(e) => if encode_utf8(password@).len() > 0xFFFF_FFFF {
                e is KeyDerivationFailed
            } else {
                e is EncryptionFailed
            },
        },
{
    let mut salt: Vec<u8> = vec![0u8; SALT_LEN];
    let mut nonce: Vec<u8> = vec![0u8; NONCE_LEN];
    fill_random(&mut salt);
    fill_random(&mut nonce);
    let mut key = derive_key_with_params(password.as_bytes(), salt.as_slice(), m, t, p)?;
    let sealed = gcm_encrypt(&key, nonce.as_slice(), plaintext);
    wipe_key(&mut key);
    let body = match sealed {
        Ok(c) => c,
        Err(e) => return Err(CryptoError::EncryptionFailed(e.to_string())),
    };
    let mut out: Vec<u8> = Vec::new();
    out.extend_from_slice(salt.as_slice());
    out.extend_from_slice(nonce.as_slice());
    out.extend_from_slice(body.as_slice());
    proof {
        assert(v1_salt(out@) =~= salt@);
        assert(v1_nonce(out@) =~= nonce@);
        assert(v1_body(out@) =~= body@);
    }
    Ok(out)
}

/// Layout-two encryption under a pre-derived key, with a fresh random nonce.
pub fn encrypt_with_key(plaintext: &[u8], key: &[u8; KEY_LEN]) -> (r: Result<Vec<u8>, CryptoError>)
    ensures
        r is Ok <==> plaintext@.len() <= GCM_MAX_PLAINTEXT,
        match r {
            Ok(b) => is_v2_sealing(b@, plaintext@, key@),
            Err(e) => e is EncryptionFailed,
        },
{
    let mut nonce: Vec<u8> = vec![0u8; NONCE_LEN];
    fill_random(&mut nonce);
    let body = match gcm_encrypt(key, nonce.as_slice(), plaintext) {
        Ok(c) => c,
        Err(e) => return Err(CryptoError::EncryptionFailed(e.to_string())),
    };
    let mut out: Vec<u8> = Vec::new();
    out.push(FORMAT_V2);
    out.extend_from_slice(nonce.as_slice());
    out.extend_from_slice(body.as_slice());
    proof {
        assert(v2_nonce(out@) =~= nonce@);
        assert(v2_body(out@) =~= body@);
    }
    Ok(out)
}

/// Strict layout-two attempt: nothing (not an error) on a wrong tag byte, a
/// short blob or a key that does not authenticate.
pub fn try_decrypt_with_key(data: &[u8], key: &[u8; KEY_LEN]) -> (r: Option<Vec<u8>>)
    ensures
        match r {
            Some(p) => probe_result(data@, key@) == Some(p@),
            None => probe_result(data@, key@) is None,
        },
{
    if data.len() == 0 || data[0] != FORMAT_V2 || data.len() < V2_MIN_LEN {
        return None;
    }
    let nonce = slice_subrange(data, 1, 1 + NONCE_LEN);
    let body = slice_subrange(data, 1 + NONCE_LEN, data.len());
    match gcm_decrypt(key, nonce, body) {
        Ok(p) => Some(p),
        Err(_) => None,
    }
}

/// Decrypts either layout: the tag byte picks it; a layout-one blob is first
/// tried with the cached key (a failure there only moves on), then with the
/// password.
pub fn decrypt_auto(data: &[u8], cached_key: Option<&[u8; KEY_LEN]>, password: Option<&str>) -> (r: Result<Vec<u8>, CryptoError>)
    ensures
        outcome(r) == decrypt_auto_result(data@, key_view(cached_key), password_bytes(password)),
{
    if data.len() == 0 {
        return Err(CryptoError::InvalidFormat);
    }
    if data[0] == FORMAT_V2 {
        let key = match cached_key {
            Some(k) => k,
            None => {
                return Err(CryptoError::DecryptionFailed(String::from_str("V2 format requires cached key")));
            },
        };
        if data.len() < V2_MIN_LEN {
            return Err(CryptoError::InvalidFormat);
        }
        let nonce = slice_subrange(data, 1, 1 + NONCE_LEN);
        let body = slice_subrange(data, 1 + NONCE_LEN, data.len());
        return match gcm_decrypt(key, nonce, body) {
            Ok(p) => Ok(p),
            Err(e) => Err(CryptoError::DecryptionFailed(e.to_string())),
        };
    }
    if let Some(key) = cached_key {
        if data.len() >= V1_MIN_LEN {
            let nonce = slice_subrange(data, SALT_LEN, SALT_LEN + NONCE_LEN);
            let body = slice_subrange(data, SALT_LEN + NONCE_LEN, data.len());
            if let Ok(p) = gcm_decrypt(key, nonce, body) {
                return Ok(p);
            }
        }
    }
    if let Some(w) = password {
        return decrypt(data, w);
    }
    Err(CryptoError::DecryptionFailed(String::from_str("No key or password available")))
}

/// Layout-one encryption: fresh random salt and nonce, a one-time key derived
/// with the current costs and wiped once used.
pub fn encrypt(plaintext: &[u8], password: &str) -> (r: Result<Vec<u8>, CryptoError>)
    ensures
        r is Ok <==> (encode_utf8(password@).len() <= 0xFFFF_FFFF && plaintext@.len() <= GCM_MAX_PLAINTEXT),
        match r {
            Ok(b) => is_v1_sealing(b@, plaintext@, encode_utf8(password@), ARGON2_MEMORY_KB, ARGON2_ITERATIONS, ARGON2_PARALLELISM),
            Err(e) => if encode_utf8(password@).len() > 0xFFFF_FFFF {
                e is KeyDerivationFailed
            } else {
                e is EncryptionFailed
            },
        },
{
    seal_v1(plaintext, password, ARGON2_MEMORY_KB, ARGON2_ITERATIONS, ARGON2_PARALLELISM)
}

/// Layout-one decryption with a password: current costs first, legacy costs
/// only when the current key does not authenticate.
pub fn decrypt(data: &[u8], password: &str) -> (r: Result<Vec<u8>, CryptoError>)
    ensures
        outcome(r) == decrypt_result(data@, encode_utf8(password@)),
{
    if data.len() < V1_MIN_LEN {
        return Err(CryptoError::InvalidFormat);
    }
    let salt = slice_subrange(data, 0, SALT_LEN);
    let nonce = slice_subrange(data, SALT_LEN, SALT_LEN + NONCE_LEN);
    let body = slice_subrange(data, SALT_LEN + NONCE_LEN, data.len());
    let pw = password.as_bytes();
    if let Ok(mut key) = derive_key(pw, salt) {
        let opened = gcm_decrypt(&key, nonce, body);
        wipe_key(&mut key);
        if let Ok(p) = opened {
            return Ok(p);
        }
    }
    let mut key = derive_key_with_params(pw, salt, LEGACY_ARGON2_MEMORY_KB, LEGACY_ARGON2_ITERATIONS, LEGACY_ARGON2_PARALLELISM)?;
    let opened = gcm_decrypt(&key, nonce, body);
    wipe_key(&mut key);
    match opened {
        Ok(p) => Ok(p),
        Err(e) => Err(CryptoError::DecryptionFailed(e.to_string())),
    }
}

fn verification_plaintext() -> (r: Vec<u8>)
    ensures
        r@ == verification_text(),
{
    let r: Vec<u8> = vec![
        0x41u8, 0x43, 0x43, 0x45, 0x53, 0x53, 0x5f, 0x53, 0x54, 0x4f, 0x52, 0x41, 0x47, 0x45, 0x5f, 0x4f,
        0x4b,
    ];
    assert(r@ =~= verification_text());
    r
}

fn bytes_equal(a: &[u8], b: &[u8]) -> (r: bool)
    ensures
        r == (a@ == b@),
{
    if a.len() != b.len() {
        return false;
    }
    let mut i: usize = 0;
    while i < a.len()
        invariant
            a@.len() == b@.len(),
            i <= a@.len(),
            a@.subrange(0, i as int) == b@.subrange(0, i as int),
        decreases a@.len() - i,
    {
        if a[i] != b[i] {
            assert(a@.subrange(0, i as int + 1)[i as int] != b@.subrange(0, i as int + 1)[i as int]);
            return false;
        }
        assert(a@.subrange(0, i as int + 1) =~= a@.subrange(0, i as int).push(a@[i as int]));
        assert(b@.subrange(0, i as int + 1) =~= b@.subrange(0, i as int).push(b@[i as int]));
        i = i + 1;
    }
    assert(a@ =~= a@.subrange(0, i as int));
    assert(b@ =~= b@.subrange(0, i as int));
    true
}

/// A token that proves knowledge of `password`: the known plaintext sealed
/// in layout one.
pub fn create_verification_token(password: &str) -> (r: Result<Vec<u8>, CryptoError>)
    ensures
        r is Ok <==> encode_utf8(password@).len() <= 0xFFFF_FFFF,
        match r {
            Ok(b) => is_v1_sealing(b@, verification_text(), encode_utf8(password@), ARGON2_MEMORY_KB, ARGON2_ITERATIONS, ARGON2_PARALLELISM),
            Err(e) => e is KeyDerivationFailed,
        },
{
    let text = verification_plaintext();
    encrypt(text.as_slice(), password)
}

/// Whether `token` decrypts under `password` to exactly the known plaintext;
/// every decryption failure counts as `false`.
pub fn verify_password(token: &[u8], password: &str) -> (r: bool)
    ensures
        r == (decrypt_result(token@, encode_utf8(password@)) == Ok::<Seq<u8>, CryptoFault>(verification_text())),
{
    match decrypt(token, password) {
        Ok(p) => {
            let text = verification_plaintext();
            bytes_equal(p.as_slice(), text.as_slice())
        },
        Err(_) => false,
    }
}

/// A PIN token: the known plaintext sealed in layout one under the PIN costs.
pub fn create_pin_verification_token(pin: &str) -> (r: Result<Vec<u8>, CryptoError>)
    ensures
        r is Ok <==> encode_utf8(pin@).len() <= 0xFFFF_FFFF,
        match r {
            Ok(b) => is_v1_sealing(b@, verification_text(), encode_utf8(pin@), PIN_ARGON2_MEMORY_KB, PIN_ARGON2_ITERATIONS, PIN_ARGON2_PARALLELISM),
            Err(e) => e is KeyDerivationFailed,
        },
{
    let text = verification_plaintext();
    seal_v1(text.as_slice(), pin, PIN_ARGON2_MEMORY_KB, PIN_ARGON2_ITERATIONS, PIN_ARGON2_PARALLELISM)
}

/// Whether a PIN token opens to the known plaintext under the PIN costs.
pub fn verify_pin(token: &[u8], pin: &str) -> (r: bool)
    ensures
        r == pin_token_matches(token@, encode_utf8(pin@)),
{
    if token.len() < V1_MIN_LEN {
        return false;
    }
    let salt = slice_subrange(token, 0, SALT_LEN);
    let nonce = slice_subrange(token, SALT_LEN, SALT_LEN + NONCE_LEN);
    let body = slice_subrange(token, SALT_LEN + NONCE_LEN, token.len());
    let mut key = match derive_key_with_params(pin.as_bytes(), salt, PIN_ARGON2_MEMORY_KB, PIN_ARGON2_ITERATIONS, PIN_ARGON2_PARALLELISM) {
        Ok(k) => k,
        Err(_) => return false,
    };
    let opened = gcm_decrypt(&key, nonce, body);
    wipe_key(&mut key);
    match opened {
        Ok(p) => {
            let text = verification_plaintext();
            bytes_equal(p.as_slice(), text.as_slice())
        },
        Err(_) => false,
    }
}

/// Round trip: a layout-one blob that `encrypt` made from a plaintext and a
/// password decrypts, under that password, to the plaintext.
pub proof fn lemma_decrypt_after_encrypt(blob: Seq<u8>, plaintext: Seq<u8>, password: Seq<u8>)
    requires
        is_v1_sealing(blob, plaintext, password, ARGON2_MEMORY_KB, ARGON2_ITERATIONS, ARGON2_PARALLELISM),
    ensures
        decrypt_result(blob, password) == Ok::<Seq<u8>, CryptoFault>(plaintext),
{
}

/// A verification token made for a password verifies under that password.
pub proof fn lemma_token_verifies(token: Seq<u8>, password: Seq<u8>)
    requires
        is_v1_sealing(token, verification_text(), password, ARGON2_MEMORY_KB, ARGON2_ITERATIONS, ARGON2_PARALLELISM),
    ensures
        decrypt_result(token, password) == Ok::<Seq<u8>, CryptoFault>(verification_text()),
{
    lemma_decrypt_after_encrypt(token, verification_text(), password);
}

/// A PIN token made for a PIN verifies under that PIN.
pub proof fn lemma_pin_token_verifies(token: Seq<u8>, pin: Seq<u8>)
    requires
        is_v1_sealing(token, verification_text(), pin, PIN_ARGON2_MEMORY_KB, PIN_ARGON2_ITERATIONS, PIN_ARGON2_PARALLELISM),
    ensures
        pin_token_matches(token, pin),
{
}

/// Layout-two round trip: a blob sealed under a key decrypts, through the
/// format dispatch with that key cached and no password, to the plaintext.
pub proof fn lemma_auto_after_encrypt_with_key(blob: Seq<u8>, plaintext: Seq<u8>, key: Seq<u8>)
    requires
        is_v2_sealing(blob, plaintext, key),
    ensures
        decrypt_auto_result(blob, Some(key), None) == Ok::<Seq<u8>, CryptoFault>(plaintext),
{
}

/// A blob sealed under a key passes the strict layout-two probe with that
/// key and yields the plaintext.
pub proof fn lemma_probe_after_encrypt_with_key(blob: Seq<u8>, plaintext: Seq<u8>, key: Seq<u8>)
    requires
        is_v2_sealing(blob, plaintext, key),
    ensures
        probe_result(blob, key) == Some(plaintext),
{
}

/// A layout-one blob decrypts through the format dispatch with no cached key
/// and its password, as long as its first salt byte is not the layout-two
/// tag (with that byte the dispatch takes it for layout two).
pub proof fn lemma_auto_falls_back_to_password(blob: Seq<u8>, plaintext: Seq<u8>, password: Seq<u8>)
    requires
        is_v1_sealing(blob, plaintext, password, ARGON2_MEMORY_KB, ARGON2_ITERATIONS, ARGON2_PARALLELISM),
        blob[0] != FORMAT_V2,
    ensures
        decrypt_auto_result(blob, None, Some(password)) == Ok::<Seq<u8>, CryptoFault>(plaintext),
{
    lemma_decrypt_after_encrypt(blob, plaintext, password);
}

/// A blob sealed under the legacy costs still decrypts with its password once
/// the current-cost key has failed to authenticate it.
pub proof fn lemma_legacy_blob_decrypts(blob: Seq<u8>, plaintext: Seq<u8>, password: Seq<u8>)
    requires
        is_v1_sealing(blob, plaintext, password, LEGACY_ARGON2_MEMORY_KB, LEGACY_ARGON2_ITERATIONS, LEGACY_ARGON2_PARALLELISM),
        open_v1_with(blob, current_key(password, v1_salt(blob))) is None,
    ensures
        decrypt_result(blob, password) == Ok::<Seq<u8>, CryptoFault>(plaintext),
{
}

} // verus!
