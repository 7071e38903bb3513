//! What the project commands decide: which key seals a record, which
//! credential opens it, how a list entry reads, and how a record's status
//! moves on create, edit and delete. Storage calls are left to the caller.
use vstd::prelude::*;
use vstd::string::StringExecFns;
use vstd::utf8::{decode_utf8, encode_utf8, valid_utf8};
use vstd::string::StrSliceExecFns;
use crate::crypto::{
    decrypt_auto, decrypt_auto_result, encrypt, encrypt_with_key, is_v1_sealing, is_v2_sealing, probe_result,
    try_decrypt_with_key, password_bytes, CryptoError, ARGON2_ITERATIONS, ARGON2_MEMORY_KB, ARGON2_PARALLELISM, GCM_MAX_PLAINTEXT,
    KEY_LEN,
};
use crate::keychain::{get, remove, save, SecretCache};
use crate::models::{views, DecryptedProject, Project, ProjectView, SyncStatus};
use crate::session::SessionKeys;

verus! {

#[verifier::external_type_specification]
#[verifier::external_body]
pub struct ExFromUtf8Error(std::string::FromUtf8Error);

/// Relies on `String::from_utf8`: it accepts exactly the valid UTF-8 byte
/// sequences and keeps their characters.
#[verifier::external_body]
fn utf8_text(bytes: Vec<u8>) -> (r: Result<String, std::string::FromUtf8Error>)
    ensures
        r is Ok <==> valid_utf8(bytes@),
        r matches Ok(s) ==> s@ == decode_utf8(bytes@),
{
    String::from_utf8(bytes)
}

/// The text that decrypted bytes hold, if they are valid UTF-8.
pub open spec fn text_of(bytes: Seq<u8>) -> Option<Seq<char>> {
    if valid_utf8(bytes) {
        Some(decode_utf8(bytes))
    } else {
        None
    }
}

fn to_text(bytes: Vec<u8>) -> (r: Result<String, String>)
    ensures
        match r {
            Ok(s) => text_of(bytes@) == Some(s@),
            Err(_) => text_of(bytes@) is None,
        },
{
    match utf8_text(bytes) {
        Ok(s) => Ok(s),
        Err(e) => Err(e.to_string()),
    }
}

/// The secret-store slot of a project's own password.
pub open spec fn project_slot(project_id: Seq<char>) -> Seq<char> {
    "project-password-"@ + project_id
}

/// The secret-store key under which a project's own password is kept.
pub fn kc_key(project_id: &str) -> (r: String)
    ensures
        r@ == project_slot(project_id@),
{
    let mut r = String::from_str("project-password-");
    r.append(project_id);
    r
}

/// One line of the project list.
#[derive(Clone, Debug)]
pub struct ProjectListItem {
    pub id: String,
    pub name: String,
    pub has_custom_password: bool,
    pub password_saved: bool,
    pub sort_order: i32,
    pub created_at: String,
    pub updated_at: String,
}

/// The name shown for a record whose own password is not at hand.
pub open spec fn locked_name() -> Seq<char> {
    "locked_custom_password"@
}

/// What the list shows for a record: its name, whether it has its own
/// password and whether that password is saved; nothing when the decrypted
/// name is not valid UTF-8.
pub open spec fn list_entry(p: ProjectView, key: Seq<u8>, secrets: Map<Seq<char>, Seq<char>>) -> Option<(Seq<char>, bool, bool)> {
    match probe_result(p.encrypted_name, key) {
        Some(n) => match text_of(n) {
            Some(t) => Some((t, false, false)),
            None => None,
        },
        None => if secrets.contains_key(project_slot(p.id)) {
            match decrypt_auto_result(p.encrypted_name, None, Some(encode_utf8(secrets[project_slot(p.id)]))) {
                Ok(n) => match text_of(n) {
                    Some(t) => Some((t, true, true)),
                    None => None,
                },
                Err(_) => Some((locked_name(), true, false)),
            }
        } else {
            Some((locked_name(), true, false))
        },
    }
}

pub open spec fn item_shows(item: ProjectListItem, p: ProjectView, e: (Seq<char>, bool, bool)) -> bool {
    &&& item.id@ == p.id
    &&& item.name@ == e.0
    &&& item.has_custom_password == e.1
    &&& item.password_saved == e.2
    &&& item.sort_order == p.sort_order
    &&& item.created_at@ == p.created_at
    &&& item.updated_at@ == p.updated_at
}

fn list_item(p: &Project, key: &[u8; KEY_LEN], secrets: &SecretCache) -> (r: Result<ProjectListItem, String>)
    ensures
        match r {
            Ok(item) => list_entry(p@, key@, secrets@) matches Some(e) && item_shows(item, p@, e),
            Err(_) => list_entry(p@, key@, secrets@) is None,
        },
{
    let (name, custom, saved) = match try_decrypt_with_key(p.encrypted_name.as_slice(), key) {
        Some(n) => (to_text(n)?, false, false),
        None => match get(secrets, kc_key(p.id.as_str()).as_str()) {
            Some(pw) => match decrypt_auto(p.encrypted_name.as_slice(), None, Some(pw.as_str())) {
                Ok(n) => (to_text(n)?, true, true),
                Err(_) => (String::from_str("locked_custom_password"), true, false),
            },
            None => (String::from_str("locked_custom_password"), true, false),
        },
    };
    Ok(ProjectListItem {
        id: p.id.clone(),
        name,
        has_custom_password: custom,
        password_saved: saved,
        sort_order: p.sort_order,
        created_at: p.created_at.clone(),
        updated_at: p.updated_at.clone(),
    })
}

/// The records the list shows: all but those marked deleted, in order.
pub open spec fn shown_records(s: Seq<ProjectView>) -> Seq<ProjectView>
    decreases s.len(),
{
    if s.len() == 0 {
        Seq::empty()
    } else {
        let rest = shown_records(s.drop_last());
        if s.last().sync_status == SyncStatus::Deleted {
            rest
        } else {
            rest.push(s.last())
        }
    }
}

proof fn lemma_shown_prefix(s: Seq<ProjectView>, k: int)
    requires
        0 <= k <= s.len(),
    ensures
        shown_records(s.subrange(0, k)).len() <= shown_records(s).len(),
        forall|j: int| 0 <= j < shown_records(s.subrange(0, k)).len()
            ==> #[trigger] shown_records(s.subrange(0, k))[j] == shown_records(s)[j],
    decreases s.len() - k,
{
    if k == s.len() {
        assert(s.subrange(0, k) =~= s);
    } else {
        lemma_shown_prefix(s, k + 1);
        let a = s.subrange(0, k);
        let b = s.subrange(0, k + 1);
        assert(b.drop_last() =~= a);
        assert forall|j: int| 0 <= j < shown_records(a).len() implies #[trigger] shown_records(a)[j] == shown_records(s)[j] by {
            assert(shown_records(b)[j] == shown_records(a)[j]);
        }
    }
}

/// The project list, without records marked deleted: names of master-key
/// records open with the cached key, names of records with their own
/// password open with the saved password if there is one, and read
/// "locked_custom_password" otherwise. Fails when a decrypted name is not
/// valid UTF-8.
pub fn list_items(projects: &Vec<Project>, key: &[u8; KEY_LEN], secrets: &SecretCache) -> (r: Result<Vec<ProjectListItem>, String>)
    ensures
        r is Ok <==> forall|i: int| 0 <= i < shown_records(views(projects@)).len()
            ==> (#[trigger] list_entry(shown_records(views(projects@))[i], key@, secrets@)) is Some,
        r matches Ok(items) ==> {
            &&& items@.len() == shown_records(views(projects@)).len()
            &&& forall|i: int| 0 <= i < items@.len() ==>
                (#[trigger] list_entry(shown_records(views(projects@))[i], key@, secrets@) matches Some(e)
                    && item_shows(items@[i], shown_records(views(projects@))[i], e))
        },
{
    let ghost all = views(projects@);
    let mut items: Vec<ProjectListItem> = Vec::new();
    let mut i: usize = 0;
    while i < projects.len()
        invariant
            i <= projects@.len(),
            all == views(projects@),
            items@.len() == shown_records(views(projects@.subrange(0, i as int))).len(),
            forall|j: int| 0 <= j < items@.len() ==>
                (#[trigger] list_entry(shown_records(views(projects@.subrange(0, i as int)))[j], key@, secrets@) matches Some(e)
                    && item_shows(items@[j], shown_records(views(projects@.subrange(0, i as int)))[j], e)),
        decreases projects@.len() - i,
    {
        let ghost pre = views(projects@.subrange(0, i as int));
        let ghost next = views(projects@.subrange(0, i as int + 1));
        proof {
            assert(next.drop_last() =~= pre);
            assert(next.last() == projects@[i as int]@);
            assert(views(projects@.subrange(0, i as int + 1)) =~= all.subrange(0, i as int + 1));
            lemma_shown_prefix(all, i as int + 1);
        }
        if projects[i].sync_status != SyncStatus::Deleted {
            let item = match list_item(&projects[i], key, secrets) {
                Ok(item) => item,
                Err(e) => {
                    proof {
                        let k = shown_records(pre).len() as int;
                        assert(shown_records(next)[k] == projects@[i as int]@);
                        assert(shown_records(all)[k] == projects@[i as int]@);
                    }
                    return Err(e);
                },
            };
            items.push(item);
            proof {
                assert forall|j: int| 0 <= j < items@.len() implies
                    (#[trigger] list_entry(shown_records(next)[j], key@, secrets@) matches Some(e)
                        && item_shows(items@[j], shown_records(next)[j], e)) by {
                    if j < items@.len() - 1 {
                        assert(shown_records(next)[j] == shown_records(pre)[j]);
                    }
                }
            }
        }
        i = i + 1;
    }
    proof {
        assert(projects@.subrange(0, i as int) =~= projects@);
    }
    Ok(items)
}

/// A decrypted record as the user sees it.
pub open spec fn decrypted_shows(d: DecryptedProject, p: ProjectView, name: Seq<char>, content: Seq<char>, custom: bool) -> bool {
    &&& d.id@ == p.id
    &&& d.name@ == name
    &&& d.content@ == content
    &&& d.has_custom_password == custom
    &&& d.sort_order == p.sort_order
    &&& d.created_at@ == p.created_at
    &&& d.updated_at@ == p.updated_at
}

/// Name and content of a master-key record: the name by the strict
/// layout-two probe, the content by format dispatch with the cached key and
/// master password.
pub open spec fn cached_open(p: ProjectView, key: Seq<u8>, master_password: Option<Seq<u8>>) -> Option<(Seq<char>, Seq<char>)> {
    match probe_result(p.encrypted_name, key) {
        Some(n) => match decrypt_auto_result(p.encrypted_content, Some(key), master_password) {
            Ok(c) => match (text_of(n), text_of(c)) {
                (Some(a), Some(b)) => Some((a, b)),
                _ => None,
            },
            Err(_) => None,
        },
        None => None,
    }
}

/// Name and content of a record opened with its own password.
pub open spec fn password_open(p: ProjectView, password: Seq<char>) -> Option<(Seq<char>, Seq<char>)> {
    match (
        decrypt_auto_result(p.encrypted_name, None, Some(encode_utf8(password))),
        decrypt_auto_result(p.encrypted_content, None, Some(encode_utf8(password))),
    ) {
        (Ok(n), Ok(c)) => match (text_of(n), text_of(c)) {
            (Some(a), Some(b)) => Some((a, b)),
            _ => None,
        },
        _ => None,
    }
}

/// The password a record is opened with: the one given, else the saved one.
pub open spec fn chosen_password(secrets: Map<Seq<char>, Seq<char>>, id: Seq<char>, password: Seq<char>) -> Option<Seq<char>> {
    if password.len() > 0 {
        Some(password)
    } else if secrets.contains_key(project_slot(id)) {
        Some(secrets[project_slot(id)])
    } else {
        None
    }
}

/// Outcome of opening a record, with the secret store to write back if the
/// given password is to be remembered.
#[derive(Debug)]
pub struct OpenedProject {
    pub project: Result<DecryptedProject, String>,
    pub secrets: Option<SecretCache>,
}

fn decrypted(p: &Project, name: String, content: String, custom: bool) -> (d: DecryptedProject)
    ensures
        decrypted_shows(d, p@, name@, content@, custom),
{
    DecryptedProject {
        id: p.id.clone(),
        name,
        content,
        has_custom_password: custom,
        sort_order: p.sort_order,
        created_at: p.created_at.clone(),
        updated_at: p.updated_at.clone(),
    }
}

fn open_with_key(p: &Project, key: &[u8; KEY_LEN], name: Vec<u8>, master_password: Option<&str>) -> (r: Result<DecryptedProject, String>)
    requires
        probe_result(p@.encrypted_name, key@) == Some(name@),
    ensures
        match r {
            Ok(d) => cached_open(p@, key@, password_bytes(master_password)) matches Some(x) && decrypted_shows(d, p@, x.0, x.1, false),
            Err(_) => cached_open(p@, key@, password_bytes(master_password)) is None,
        },
{
    let content = match decrypt_auto(p.encrypted_content.as_slice(), Some(key), master_password) {
        Ok(c) => c,
        Err(e) => return Err(e.to_string()),
    };
    let name = to_text(name)?;
    let content = to_text(content)?;
    Ok(decrypted(p, name, content, false))
}

fn open_with_password(p: &Project, password: &str) -> (r: Result<DecryptedProject, String>)
    ensures
        match r {
            Ok(d) => password_open(p@, password@) matches Some(x) && decrypted_shows(d, p@, x.0, x.1, true),
            Err(_) => password_open(p@, password@) is None,
        },
{
    let name = match decrypt_auto(p.encrypted_name.as_slice(), None, Some(password)) {
        Ok(n) => n,
        Err(e) => return Err(e.to_string()),
    };
    let content = match decrypt_auto(p.encrypted_content.as_slice(), None, Some(password)) {
        Ok(c) => c,
        Err(e) => return Err(e.to_string()),
    };
    let name = to_text(name)?;
    let content = to_text(content)?;
    Ok(decrypted(p, name, content, true))
}

/// Opens a record: with the cached key when the name opens under it, else
/// with the given password (which is then remembered) or the saved one.
pub fn open_project(project: &Project, cached_key: Option<&[u8; KEY_LEN]>, master_password: Option<&str>, password: &str, secrets: &SecretCache) -> (r: OpenedProject)
    ensures
        match cached_key {
            Some(k) if probe_result(project@.encrypted_name, k@) is Some => {
                &&& r.secrets is None
                &&& match r.project {
                    Ok(d) => cached_open(project@, k@, password_bytes(master_password)) matches Some(x) && decrypted_shows(d, project@, x.0, x.1, false),
                    Err(_) => cached_open(project@, k@, password_bytes(master_password)) is None,
                }
            },
            _ => {
                &&& (password@.len() > 0 ==> (r.secrets matches Some(c) && c@ == secrets@.insert(project_slot(project@.id), password@)))
                &&& (password@.len() == 0 ==> r.secrets is None)
                &&& match r.project {
                    Ok(d) => chosen_password(secrets@, project@.id, password@) matches Some(w)
                        && password_open(project@, w) matches Some(x) && decrypted_shows(d, project@, x.0, x.1, true),
                    Err(_) => (chosen_password(secrets@, project@.id, password@) matches Some(w) ==> password_open(project@, w) is None),
                }
            },
        },
{
    if let Some(key) = cached_key {
        if let Some(name) = try_decrypt_with_key(project.encrypted_name.as_slice(), key) {
            return OpenedProject { project: open_with_key(project, key, name, master_password), secrets: None };
        }
    }
    let slot = kc_key(project.id.as_str());
    if password.unicode_len() > 0 {
        let remembered = save(secrets, slot.as_str(), password);
        OpenedProject { project: open_with_password(project, password), secrets: Some(remembered) }
    } else {
        match get(secrets, slot.as_str()) {
            Some(pw) => OpenedProject { project: open_with_password(project, pw.as_str()), secrets: None },
            None => OpenedProject { project: Err(String::from_str("No saved password for this project")), secrets: None },
        }
    }
}

/// Name and content sealed for storage: layout one under the record's own
/// password, or layout two under the master key.
pub open spec fn fields_sealed(a: Seq<u8>, b: Seq<u8>, name: Seq<char>, content: Seq<char>, password: Seq<char>, has_custom: bool, key: Seq<u8>) -> bool {
    if has_custom {
        &&& is_v1_sealing(a, encode_utf8(name), encode_utf8(password), ARGON2_MEMORY_KB, ARGON2_ITERATIONS, ARGON2_PARALLELISM)
        &&& is_v1_sealing(b, encode_utf8(content), encode_utf8(password), ARGON2_MEMORY_KB, ARGON2_ITERATIONS, ARGON2_PARALLELISM)
    } else {
        &&& is_v2_sealing(a, encode_utf8(name), key)
        &&& is_v2_sealing(b, encode_utf8(content), key)
    }
}

/// Whether sealing can succeed: the texts fit AES-GCM and the password fits
/// Argon2.
pub open spec fn sealable(name: Seq<char>, content: Seq<char>, password: Seq<char>, has_custom: bool) -> bool {
    &&& encode_utf8(name).len() <= GCM_MAX_PLAINTEXT
    &&& encode_utf8(content).len() <= GCM_MAX_PLAINTEXT
    &&& (has_custom ==> encode_utf8(password).len() <= 0xFFFF_FFFF)
}

/// Seals a record's name and content.
pub fn seal_fields(name: &str, content: &str, password: &str, has_custom: bool, key: &[u8; KEY_LEN]) -> (r: Result<(Vec<u8>, Vec<u8>), CryptoError>)
    ensures
        r is Ok <==> sealable(name@, content@, password@, has_custom),
        r matches Ok((a, b)) ==> fields_sealed(a@, b@, name@, content@, password@, has_custom, key@),
{
    if has_custom {
        let a = encrypt(name.as_bytes(), password)?;
        let b = encrypt(content.as_bytes(), password)?;
        Ok((a, b))
    } else {
        let a = encrypt_with_key(name.as_bytes(), key)?;
        let b = encrypt_with_key(content.as_bytes(), key)?;
        Ok((a, b))
    }
}

/// The largest sort position, -1 for none.
pub open spec fn max_order(s: Seq<ProjectView>) -> int
    decreases s.len(),
{
    if s.len() == 0 {
        -1
    } else {
        let rest = max_order(s.drop_last());
        if s.last().sort_order > rest { s.last().sort_order as int } else { rest }
    }
}

/// The sort position of a new record: one past the largest; nothing when the
/// largest is already `i32::MAX`.
pub fn next_sort_order(projects: &Vec<Project>) -> (r: Option<i32>)
    ensures
        match r {
            Some(o) => o == max_order(views(projects@)) + 1,
            None => max_order(views(projects@)) == i32::MAX,
        },
{
    let mut best: i32 = -1;
    let mut i: usize = 0;
    while i < projects.len()
        invariant
            i <= projects@.len(),
            best == max_order(views(projects@.subrange(0, i as int))),
        decreases projects@.len() - i,
    {
        proof {
            assert(views(projects@.subrange(0, i as int + 1)).drop_last() =~= views(projects@.subrange(0, i as int)));
            assert(views(projects@.subrange(0, i as int + 1)).last() == projects@[i as int]@);
        }
        if projects[i].sort_order > best {
            best = projects[i].sort_order;
        }
        i = i + 1;
    }
    assert(projects@.subrange(0, i as int) =~= projects@);
    if best == i32::MAX {
        None
    } else {
        Some(best + 1)
    }
}

/// A record as first stored: status local, no remote id.
pub fn new_local_project(id: String, encrypted_name: Vec<u8>, encrypted_content: Vec<u8>, sort_order: i32, now: String) -> (r: Project)
    ensures
        r@.id == id@,
        r@.encrypted_name == encrypted_name@,
        r@.encrypted_content == encrypted_content@,
        r@.sort_order == sort_order,
        r@.created_at == now@,
        r@.updated_at == now@,
        r@.server_id is None,
        r@.sync_status == SyncStatus::Local,
{
    Project {
        id,
        encrypted_name,
        encrypted_content,
        sort_order,
        created_at: now.clone(),
        updated_at: now,
        server_id: None,
        sync_status: SyncStatus::Local,
    }
}

/// The status after a local edit: a record never uploaded stays local,
/// any other becomes modified.
pub fn edited_status(status: SyncStatus) -> (r: SyncStatus)
    ensures
        r == if status == SyncStatus::Local { SyncStatus::Local } else { SyncStatus::Modified },
{
    match status {
        SyncStatus::Local => SyncStatus::Local,
        _ => SyncStatus::Modified,
    }
}

/// A new or edited record, with the secret store to write back if the
/// record's own password was saved or dropped.
#[derive(Debug)]
pub struct PreparedProject {
    pub project: Project,
    pub secrets: Option<SecretCache>,
}

/// The secret store after sealing: the record's own password remembered, or
/// its slot dropped when the record goes under the master key.
pub open spec fn slot_updated(before: Map<Seq<char>, Seq<char>>, after: Option<SecretCache>, id: Seq<char>, password: Seq<char>, has_custom: bool) -> bool {
    if has_custom {
        after matches Some(c) && c@ == before.insert(project_slot(id), password)
    } else {
        match after {
            Some(c) => before.contains_key(project_slot(id)) && c@ == before.remove(project_slot(id)),
            None => !before.contains_key(project_slot(id)),
        }
    }
}

/// A prepared new record: sealed, one past the largest sort position,
/// created and updated at the same time, status local with no remote id,
/// its password slot updated.
pub open spec fn new_record_prepared(
    n: PreparedProject,
    existing: Seq<Project>,
    secrets: Map<Seq<char>, Seq<char>>,
    key: Seq<u8>,
    name: Seq<char>,
    content: Seq<char>,
    password: Seq<char>,
    has_custom: bool,
) -> bool {
    &&& fields_sealed(n.project@.encrypted_name, n.project@.encrypted_content, name, content, password, has_custom, key)
    &&& n.project@.sort_order == max_order(views(existing)) + 1
    &&& n.project@.updated_at == n.project@.created_at
    &&& n.project@.server_id is None
    &&& n.project@.sync_status == SyncStatus::Local
    &&& slot_updated(secrets, n.secrets, n.project@.id, password, has_custom)
}

/// A new record from its name and content: sealed, placed after the others,
/// status local; its own password, if any, is remembered.
pub fn prepare_new_project(
    existing: &Vec<Project>,
    secrets: &SecretCache,
    key: &[u8; KEY_LEN],
    id: String,
    now: String,
    name: &str,
    content: &str,
    password: &str,
    has_custom_password: bool,
) -> (r: Result<PreparedProject, String>)
    ensures
        r is Ok <==> (sealable(name@, content@, password@, has_custom_password) && max_order(views(existing@)) < i32::MAX),
        r matches Ok(n) ==> {
            &&& n.project@.id == id@
            &&& n.project@.created_at == now@
            &&& new_record_prepared(n, existing@, secrets@, key@, name@, content@, password@, has_custom_password)
        },
{
    let slot = kc_key(id.as_str());
    let updated = if has_custom_password {
        Some(save(secrets, slot.as_str(), password))
    } else {
        remove(secrets, slot.as_str())
    };
    let (a, b) = match seal_fields(name, content, password, has_custom_password, key) {
        Ok(x) => x,
        Err(e) => return Err(e.to_string()),
    };
    let order = match next_sort_order(existing) {
        Some(o) => o,
        None => return Err(String::from_str("No sort position left for a new project")),
    };
    Ok(PreparedProject { project: new_local_project(id, a, b, order, now), secrets: updated })
}

/// The password an edit seals with: the record's own (given or saved), or
/// the given text when the record goes under the master key.
pub open spec fn update_password(secrets: Map<Seq<char>, Seq<char>>, id: Seq<char>, password: Seq<char>, has_custom: bool) -> Option<Seq<char>> {
    if has_custom { chosen_password(secrets, id, password) } else { Some(password) }
}

pub open spec fn update_possible(
    existing: ProjectView,
    secrets: Map<Seq<char>, Seq<char>>,
    name: Seq<char>,
    content: Seq<char>,
    password: Seq<char>,
    has_custom: bool,
) -> bool {
    match update_password(secrets, existing.id, password, has_custom) {
        Some(w) => sealable(name, content, w, has_custom),
        None => false,
    }
}

/// A prepared edit: resealed, status moved by `edited_status`, id, sort
/// position, creation time and remote id kept, password slot updated unless
/// the saved password was used.
pub open spec fn update_prepared(
    n: PreparedProject,
    existing: ProjectView,
    secrets: Map<Seq<char>, Seq<char>>,
    key: Seq<u8>,
    name: Seq<char>,
    content: Seq<char>,
    password: Seq<char>,
    has_custom: bool,
) -> bool {
    let w = update_password(secrets, existing.id, password, has_custom)->Some_0;
    &&& n.project@.id == existing.id
    &&& fields_sealed(n.project@.encrypted_name, n.project@.encrypted_content, name, content, w, has_custom, key)
    &&& n.project@.sort_order == existing.sort_order
    &&& n.project@.created_at == existing.created_at
    &&& n.project@.server_id == existing.server_id
    &&& n.project@.sync_status == (if existing.sync_status == SyncStatus::Local { SyncStatus::Local } else { SyncStatus::Modified })
    &&& if has_custom && password.len() == 0 {
        n.secrets is None
    } else {
        slot_updated(secrets, n.secrets, existing.id, password, has_custom)
    }
}

/// The record after an edit: new name, content and update time, status
/// moved by `edited_status`, everything else kept. A record with its own
/// password is sealed under the password given, else under the saved one.
pub fn prepare_update(
    existing: &Project,
    secrets: &SecretCache,
    key: &[u8; KEY_LEN],
    now: String,
    name: &str,
    content: &str,
    password: &str,
    has_custom_password: bool,
) -> (r: Result<PreparedProject, String>)
    ensures
        r is Ok <==> update_possible(existing@, secrets@, name@, content@, password@, has_custom_password),
        r matches Ok(n) ==> n.project@.updated_at == now@ && update_prepared(n, existing@, secrets@, key@, name@, content@, password@, has_custom_password),
{
    let slot = kc_key(existing.id.as_str());
    let (pw, updated) = if has_custom_password {
        if password.unicode_len() == 0 {
            match get(secrets, slot.as_str()) {
                Some(saved) => (saved, None),
                None => return Err(String::from_str("No password available for this project")),
            }
        } else {
            (password.to_string(), Some(save(secrets, slot.as_str(), password)))
        }
    } else {
        (password.to_string(), remove(secrets, slot.as_str()))
    };
    let (a, b) = match seal_fields(name, content, pw.as_str(), has_custom_password, key) {
        Ok(x) => x,
        Err(e) => return Err(e.to_string()),
    };
    let mut project = existing.duplicate();
    project.encrypted_name = a;
    project.encrypted_content = b;
    project.updated_at = now;
    project.sync_status = edited_status(existing.sync_status);
    Ok(PreparedProject { project, secrets: updated })
}

/// Relies on `uuid::Uuid::new_v4` and its text form: a fresh random
/// identifier.
#[verifier::external_body]
fn new_project_id() -> (r: String) {
    uuid::Uuid::new_v4().to_string()
}

/// Relies on `chrono::Utc::now` and `DateTime::to_rfc3339`: the current UTC
/// time as RFC 3339 text.
#[verifier::external_body]
fn timestamp_now() -> (r: String) {
    chrono::Utc::now().to_rfc3339()
}

pub open spec fn locked_message() -> Seq<char> {
    "No cached key. Please unlock first."@
}

/// Creates a record under a fresh random id and the current time; fails with
/// the "locked" message when no master key is cached.
pub fn create_project(
    existing: &Vec<Project>,
    secrets: &SecretCache,
    session: &SessionKeys,
    name: &str,
    content: &str,
    password: &str,
    has_custom_password: bool,
) -> (r: Result<PreparedProject, String>)
    ensures
        match session.cached_key() {
            None => r matches Err(e) && e@ == locked_message(),
            Some(k) => {
                &&& r is Ok <==> (sealable(name@, content@, password@, has_custom_password) && max_order(views(existing@)) < i32::MAX)
                &&& r matches Ok(n) ==> new_record_prepared(n, existing@, secrets@, k, name@, content@, password@, has_custom_password)
            },
        },
{
    let key = session.get_cached_key()?;
    let id = new_project_id();
    let now = timestamp_now();
    prepare_new_project(existing, secrets, &key, id, now, name, content, password, has_custom_password)
}

/// Edits a record at the current time; fails with the "locked" message when
/// no master key is cached.
pub fn update_project(
    existing: &Project,
    secrets: &SecretCache,
    session: &SessionKeys,
    name: &str,
    content: &str,
    password: &str,
    has_custom_password: bool,
) -> (r: Result<PreparedProject, String>)
    ensures
        match session.cached_key() {
            None => r matches Err(e) && e@ == locked_message(),
            Some(k) => {
                &&& r is Ok <==> update_possible(existing@, secrets@, name@, content@, password@, has_custom_password)
                &&& r matches Ok(n) ==> update_prepared(n, existing@, secrets@, k, name@, content@, password@, has_custom_password)
            },
        },
{
    let key = session.get_cached_key()?;
    let now = timestamp_now();
    prepare_update(existing, secrets, &key, now, name, content, password, has_custom_password)
}

/// What a local delete request does with a record.
#[derive(Debug)]
pub enum DeleteAction {
    /// Never synced: remove the row now.
    RemoveNow,
    /// Keep the row, marked deleted, for the next pass to remove.
    MarkDeleted(Project),
}

/// A record never synced (status local) goes at once; any other is marked
/// deleted and left for the next pass.
pub fn plan_delete(p: &Project) -> (r: DeleteAction)
    ensures
        match r {
            DeleteAction::RemoveNow => p@.sync_status == SyncStatus::Local,
            DeleteAction::MarkDeleted(q) => p@.sync_status != SyncStatus::Local
                && q@ == ProjectView { sync_status: SyncStatus::Deleted, ..p@ },
        },
{
    match p.sync_status {
        SyncStatus::Local => DeleteAction::RemoveNow,
        _ => {
            let mut q = p.duplicate();
            q.sync_status = SyncStatus::Deleted;
            DeleteAction::MarkDeleted(q)
        },
    }
}

/// Sort positions from a display order: the record at index i gets i.
pub fn reorder_pairs(ids: &Vec<String>) -> (r: Vec<(String, i32)>)
    requires
        ids@.len() <= i32::MAX,
    ensures
        r@.len() == ids@.len(),
        forall|i: int| 0 <= i < ids@.len() ==> (#[trigger] r@[i]).0@ == ids@[i]@ && r@[i].1 == i,
{
    let mut out: Vec<(String, i32)> = Vec::new();
    let mut i: usize = 0;
    while i < ids.len()
        invariant
            i <= ids@.len(),
            ids@.len() <= i32::MAX,
            out@.len() == i,
            forall|j: int| 0 <= j < i ==> (#[trigger] out@[j]).0@ == ids@[j]@ && out@[j].1 == j,
        decreases ids@.len() - i,
    {
        out.push((ids[i].clone(), i as i32));
        i = i + 1;
    }
    out
}

} // verus!
