use vstd::prelude::*;

verus! {

use vstd::string::StringExecFns;
use crate::errors::SyncError;

/// The access-token string of a credential-exchange response: present
/// exactly when the body is a JSON object with a string `access_token`
/// field beside an integer `expires_at` field.
pub uninterp spec fn json_access_token(text: Seq<char>) -> Option<Seq<char>>;

/// Relies on serde_json (from_str, Value::get, as_i64, as_str): the
/// `access_token` string of the JSON object in `text`, provided an
/// integer `expires_at` stands beside it, mirroring the fields the
/// exchange endpoint owes. The answer is a function of the text alone.
#[verifier::external_body]
fn extract_access_token(text: &str) -> (r: Option<String>)
    ensures
        r.deep_view() == json_access_token(text@),
{
    let root: serde_json::Value = match serde_json::from_str(text) {
        Ok(v) => v,
        Err(_) => return None,
    };
    if root.get("expires_at").and_then(|v| v.as_i64()).is_none() {
        return None;
    }
    root.get("access_token").and_then(|v| v.as_str()).map(|s| s.to_owned())
}

/// The form fields of the credential exchange: the caller's identifier,
/// secret and refresh credential, with the grant type fixed to refresh
/// semantics.
pub fn token_request_form(client_id: &str, client_secret: &str, refresh_token: &str) -> (form: Vec<
    (String, String),
>)
    ensures
        form@.len() == 4,
        form@[0].0@ == "client_id"@ && form@[0].1@ == client_id@,
        form@[1].0@ == "client_secret"@ && form@[1].1@ == client_secret@,
        form@[2].0@ == "refresh_token"@ && form@[2].1@ == refresh_token@,
        form@[3].0@ == "grant_type"@ && form@[3].1@ == "refresh_token"@,
{
    vec![
        (String::from_str("client_id"), String::from_str(client_id)),
        (String::from_str("client_secret"), String::from_str(client_secret)),
        (String::from_str("refresh_token"), String::from_str(refresh_token)),
        (String::from_str("grant_type"), String::from_str("refresh_token")),
    ]
}

/// Read the access credential out of a successful exchange response.
/// A body without the expected credential-bearing structure is an `Auth`
/// error: the run cannot continue without a credential.
pub fn parse_token_response(body: &str) -> (r: Result<String, SyncError>)
    ensures
        match r {
            Ok(t) => json_access_token(body@) == Some(t@),
            Err(e) => e == SyncError::Auth && json_access_token(body@) is None,
        },
{
    match extract_access_token(body) {
        Some(t) => Ok(t),
        None => Err(SyncError::Auth),
    }
}

} // verus!
