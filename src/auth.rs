//! Server sign-in results and the server's URL layout.
use vstd::prelude::*;
use vstd::string::{StrSliceExecFns, StringExecFns};

verus! {

/// What a sign-in or registration returns.
#[derive(Clone, Debug)]
pub struct LoginResult {
    pub token: String,
    pub user_id: i64,
    pub email: String,
}

/// `s` without its trailing slashes.
pub open spec fn trimmed(s: Seq<char>) -> Seq<char>
    decreases s.len(),
{
    if s.len() > 0 && s.last() == '/' {
        trimmed(s.drop_last())
    } else {
        s
    }
}

/// A server base URL without its trailing slashes.
pub fn trim_base_url(base_url: &str) -> (r: String)
    ensures
        r@ == trimmed(base_url@),
{
    let mut end: usize = base_url.unicode_len();
    assert(base_url@.subrange(0, end as int) =~= base_url@);
    while end > 0 && base_url.get_char(end - 1) == '/'
        invariant
            end <= base_url@.len(),
            trimmed(base_url@) == trimmed(base_url@.subrange(0, end as int)),
        decreases end,
    {
        proof {
            assert(base_url@.subrange(0, end as int).drop_last() =~= base_url@.subrange(0, end - 1));
        }
        end = end - 1;
    }
    base_url.substring_char(0, end).to_string()
}

/// The URL of an API path on a server: `{base}/api{path}`.
pub fn api_url(base_url: &str, path: &str) -> (r: String)
    ensures
        r@ == trimmed(base_url@) + "/api"@ + path@,
{
    let mut r = trim_base_url(base_url);
    r.append("/api");
    r.append(path);
    r
}

} // verus!
