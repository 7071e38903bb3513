//! The remote server's record shape and its conversion to and from local
//! records: blobs travel as base64 text, and a record listed by the server is
//! synced under its server id.
use vstd::prelude::*;
use vstd::string::StringExecFns;
use crate::encoding::{b64_decode, b64_encode, base64_bytes, base64_text};
use crate::models::{Project, ProjectView, SyncStatus};
use crate::storage::StorageError;

verus! {

/// A record as the server lists it.
#[derive(Clone, Debug)]
pub struct ServerProject {
    pub id: i64,
    pub user_id: i64,
    pub encrypted_name: String,
    pub encrypted_content: String,
    pub sort_order: i32,
    pub created_at: String,
    pub updated_at: String,
}

/// The body of a create or update request.
#[derive(Clone, Debug)]
pub struct ProjectPayload {
    pub encrypted_name: String,
    pub encrypted_content: String,
    pub sort_order: i32,
}

pub open spec fn digit_char(d: int) -> char {
    if d == 0 { '0' } else if d == 1 { '1' } else if d == 2 { '2' } else if d == 3 { '3' } else if d == 4 { '4' }
    else if d == 5 { '5' } else if d == 6 { '6' } else if d == 7 { '7' } else if d == 8 { '8' } else { '9' }
}

/// The decimal digits of `n`, without leading zeros.
pub open spec fn digits_of(n: nat) -> Seq<char>
    decreases n,
{
    if n < 10 {
        seq![digit_char(n as int)]
    } else {
        digits_of(n / 10) + seq![digit_char((n % 10) as int)]
    }
}

/// The decimal text of an integer, with a leading '-' when it is negative.
pub open spec fn decimal_text(n: int) -> Seq<char> {
    if n < 0 {
        seq!['-'] + digits_of((-n) as nat)
    } else {
        digits_of(n as nat)
    }
}

fn digit_str(d: u64) -> (r: &'static str)
    requires
        d < 10,
    ensures
        r@ == seq![digit_char(d as int)],
{
    proof {
        reveal_strlit("0");
        reveal_strlit("1");
        reveal_strlit("2");
        reveal_strlit("3");
        reveal_strlit("4");
        reveal_strlit("5");
        reveal_strlit("6");
        reveal_strlit("7");
        reveal_strlit("8");
        reveal_strlit("9");
    }
    let r = if d == 0 { "0" } else if d == 1 { "1" } else if d == 2 { "2" } else if d == 3 { "3" } else if d == 4 { "4" }
    else if d == 5 { "5" } else if d == 6 { "6" } else if d == 7 { "7" } else if d == 8 { "8" } else { "9" };
    assert(r@ =~= seq![digit_char(d as int)]);
    r
}

fn digits(m: u64) -> (r: String)
    ensures
        r@ == digits_of(m as nat),
    decreases m,
{
    if m < 10 {
        String::from_str(digit_str(m))
    } else {
        let mut r = digits(m / 10);
        r.append(digit_str(m % 10));
        r
    }
}

/// The decimal text of a server id.
pub fn decimal_i64(n: i64) -> (r: String)
    ensures
        r@ == decimal_text(n as int),
{
    if n < 0 {
        let m: u64 = ((-(n + 1)) as u64) + 1;
        let mut r = String::from_str("-");
        proof {
            reveal_strlit("-");
        }
        r.append(digits(m).as_str());
        assert(r@ =~= decimal_text(n as int));
        r
    } else {
        digits(n as u64)
    }
}

/// `p` is the local form of listed server record `sp`: blobs decoded, the
/// decimal text of the server id as both id and remote id, status synced.
pub open spec fn listed_as(p: ProjectView, sp: ServerProject) -> bool {
    &&& p.id == decimal_text(sp.id as int)
    &&& p.server_id == Some(p.id)
    &&& Some(p.encrypted_name) == base64_bytes(sp.encrypted_name@)
    &&& Some(p.encrypted_content) == base64_bytes(sp.encrypted_content@)
    &&& p.sort_order == sp.sort_order
    &&& p.created_at == sp.created_at@
    &&& p.updated_at == sp.updated_at@
    &&& p.sync_status == SyncStatus::Synced
}

fn decode_blob(text: &String) -> (r: Result<Vec<u8>, StorageError>)
    ensures
        match r {
            Ok(b) => base64_bytes(text@) == Some(b@),
            Err(e) => base64_bytes(text@) is None && e is Io,
        },
{
    match b64_decode(text.as_str()) {
        Ok(b) => Ok(b),
        Err(e) => Err(StorageError::Io(e.to_string())),
    }
}

/// A listed server record as a local record: blobs decoded, id and remote id
/// both the server id, status synced. Fails when a blob is not base64.
pub fn project_from_server(sp: &ServerProject) -> (r: Result<Project, StorageError>)
    ensures
        r is Ok <==> (base64_bytes(sp.encrypted_name@) is Some && base64_bytes(sp.encrypted_content@) is Some),
        r matches Err(e) ==> e is Io,
        r matches Ok(p) ==> listed_as(p@, *sp),
{
    let name = decode_blob(&sp.encrypted_name)?;
    let content = decode_blob(&sp.encrypted_content)?;
    let id = decimal_i64(sp.id);
    Ok(Project {
        id: id.clone(),
        encrypted_name: name,
        encrypted_content: content,
        sort_order: sp.sort_order,
        created_at: sp.created_at.clone(),
        updated_at: sp.updated_at.clone(),
        server_id: Some(id),
        sync_status: SyncStatus::Synced,
    })
}

/// Every listed server record as a local record, in listing order.
pub fn projects_from_server(list: &Vec<ServerProject>) -> (r: Result<Vec<Project>, StorageError>)
    ensures
        r is Ok <==> forall|i: int| 0 <= i < list@.len() ==>
            base64_bytes((#[trigger] list@[i]).encrypted_name@) is Some && base64_bytes(list@[i].encrypted_content@) is Some,
        r matches Ok(v) ==> {
            &&& v@.len() == list@.len()
            &&& forall|i: int| 0 <= i < v@.len() ==> listed_as((#[trigger] v@[i])@, list@[i])
        },
{
    let mut out: Vec<Project> = Vec::new();
    let mut i: usize = 0;
    while i < list.len()
        invariant
            i <= list@.len(),
            out@.len() == i,
            forall|j: int| 0 <= j < i ==>
                base64_bytes((#[trigger] list@[j]).encrypted_name@) is Some && base64_bytes(list@[j].encrypted_content@) is Some,
            forall|j: int| 0 <= j < i ==> listed_as((#[trigger] out@[j])@, list@[j]),
        decreases list@.len() - i,
    {
        let p = project_from_server(&list[i])?;
        out.push(p);
        i = i + 1;
    }
    Ok(out)
}

/// The request body for a record: blobs as base64 text, sort position.
pub fn project_payload(p: &Project) -> (r: ProjectPayload)
    ensures
        r.encrypted_name@ == base64_text(p@.encrypted_name),
        r.encrypted_content@ == base64_text(p@.encrypted_content),
        base64_bytes(r.encrypted_name@) == Some(p@.encrypted_name),
        base64_bytes(r.encrypted_content@) == Some(p@.encrypted_content),
        r.sort_order == p@.sort_order,
{
    ProjectPayload {
        encrypted_name: b64_encode(p.encrypted_name.as_slice()),
        encrypted_content: b64_encode(p.encrypted_content.as_slice()),
        sort_order: p.sort_order,
    }
}

} // verus!
