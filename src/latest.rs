//! The latest version, as the version service reports it.

use vstd::prelude::*;

use crate::error::InstallError;
use crate::manifest::{is_success, text_reply, Fetched};
use crate::version::{normalize_version, normalized};

verus! {

/// The string member `key` of the JSON object that `text` holds; `None` when
/// `text` is no JSON object or the member is missing or not a string.
pub uninterp spec fn json_string_member(text: Seq<char>, key: Seq<char>) -> Option<Seq<char>>;

/// Relies on `serde_json::from_str` into a `serde_json::Value`, then
/// `Value::get` and `Value::as_str`: the string member `key` of the object
/// in `text`, if there is one.
#[verifier::external_body]
fn string_member(text: &str, key: &str) -> (r: Option<String>)
    ensures
        r is None <==> json_string_member(text@, key@) is None,
        r is Some ==> r->Some_0@ == json_string_member(text@, key@)->Some_0,
{
    let value: serde_json::Value = serde_json::from_str(text).ok()?;
    value.get(key)?.as_str().map(|s| s.to_string())
}

/// The characters of an optional string.
pub open spec fn opt_view(o: Option<String>) -> Option<Seq<char>> {
    match o {
        Some(s) => Some(s@),
        None => None,
    }
}

/// The member of the version service's reply that names the latest version.
pub open spec fn version_key() -> Seq<char> {
    "clientVersionUpload"@
}

/// The version that a reported member gives: its canonical form, or a
/// `NetworkError` when the member is missing or empty.
pub open spec fn version_of_member(member: Option<Seq<char>>) -> Result<Seq<char>, InstallError> {
    match member {
        Some(s) => if s.len() > 0 {
            Ok(normalized(s))
        } else {
            Err(InstallError::NetworkError)
        },
        None => Err(InstallError::NetworkError),
    }
}

/// The canonical version that a reported member names.
pub fn version_from_member(member: Option<String>) -> (r: Result<String, InstallError>)
    ensures
        r is Ok <==> version_of_member(opt_view(member)) is Ok,
        r is Ok ==> r->Ok_0@ == version_of_member(opt_view(member))->Ok_0,
        r is Err ==> r->Err_0 == version_of_member(opt_view(member))->Err_0,
{
    match member {
        Some(s) => {
            if s.as_str().unicode_len() > 0 {
                Ok(normalize_version(s.as_str()))
            } else {
                Err(InstallError::NetworkError)
            }
        },
        None => Err(InstallError::NetworkError),
    }
}

/// The version that a reply of the version service gives: `None` for a
/// transport failure, else the status and the body.
pub open spec fn latest_outcome(reply: Option<(u16, Seq<char>)>) -> Result<Seq<char>, InstallError> {
    match reply {
        None => Err(InstallError::NetworkError),
        Some((status, body)) => if !is_success(status) {
            Err(InstallError::NetworkError)
        } else {
            version_of_member(json_string_member(body, version_key()))
        },
    }
}

/// The latest version that a reply of the version service names: a transport
/// failure, a status outside 2xx or a body without the member give a
/// `NetworkError`.
pub fn latest_version_from_reply(reply: &Fetched<String>) -> (r: Result<String, InstallError>)
    ensures
        r is Ok <==> latest_outcome(text_reply(reply)) is Ok,
        r is Ok ==> r->Ok_0@ == latest_outcome(text_reply(reply))->Ok_0,
        r is Err ==> r->Err_0 == latest_outcome(text_reply(reply))->Err_0,
{
    match reply {
        Fetched::Failed => Err(InstallError::NetworkError),
        Fetched::Reply(status, body) => {
            if *status < 200 || *status >= 300 {
                return Err(InstallError::NetworkError);
            }
            let key = "clientVersionUpload";
            proof {
                assert(key@ == version_key());
            }
            let member = string_member(body.as_str(), key);
            proof {
                assert(opt_view(member) == json_string_member(body@, version_key()));
            }
            version_from_member(member)
        },
    }
}

} // verus!
