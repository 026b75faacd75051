//! Instance identifiers: text forms of UUIDs, held as 128-bit values.
use vstd::prelude::*;
use vstd::string::StringExecFns;

verus! {

/// Value of a UUID text, `None` where the text is not a UUID.
pub uninterp spec fn uuid_parse(s: Seq<char>) -> Option<u128>;

/// Message of the UUID parser's error for a text that is not a UUID.
pub uninterp spec fn uuid_error_text(s: Seq<char>) -> Seq<char>;

/// Relies on uuid::Uuid::parse_str, which accepts the simple (32 characters),
/// hyphenated (36), braced (38) and URN (45) forms and fails on any other text; on
/// Uuid::as_u128 for the value; and on the `Display` of uuid::Error for the message,
/// which depends on the text alone.
#[verifier::external_body]
fn parse_uuid(s: &str) -> (r: Result<u128, String>)
    ensures
        match r {
            Ok(v) => uuid_parse(s@) == Some(v),
            Err(e) => uuid_parse(s@) is None && e@ == uuid_error_text(s@),
        },
        !(s@.len() == 32 || s@.len() == 36 || s@.len() == 38 || s@.len() == 45) ==> r is Err,
{
    uuid::Uuid::parse_str(s).map(|u| u.as_u128()).map_err(|e| e.to_string())
}

/// Prefix of the message for an instance id that is not a UUID.
pub open spec fn invalid_id_prefix() -> Seq<char> {
    "invalid instance_id: "@
}

/// Value of an instance id, or `invalid instance_id: ` followed by the parser's
/// message where the id is not a UUID.
pub fn parse_instance_id(instance_id: &str) -> (r: Result<u128, String>)
    ensures
        match r {
            Ok(v) => uuid_parse(instance_id@) == Some(v),
            Err(m) => uuid_parse(instance_id@) is None && m@ == invalid_id_prefix()
                + uuid_error_text(instance_id@),
        },
        !(instance_id@.len() == 32 || instance_id@.len() == 36 || instance_id@.len() == 38
            || instance_id@.len() == 45) ==> r is Err,
{
    match parse_uuid(instance_id) {
        Ok(v) => Ok(v),
        Err(e) => {
            let m = String::from_str("invalid instance_id: ").concat(e.as_str());
            proof {
                reveal_strlit("invalid instance_id: ");
            }
            Err(m)
        },
    }
}

/// Id of the instance to shut down; an error where `instance_id` is not a UUID.
pub fn close_server(instance_id: String) -> (r: Result<u128, String>)
    ensures
        match r {
            Ok(v) => uuid_parse(instance_id@) == Some(v),
            Err(m) => uuid_parse(instance_id@) is None && m@ == invalid_id_prefix()
                + uuid_error_text(instance_id@),
        },
        !(instance_id@.len() == 32 || instance_id@.len() == 36 || instance_id@.len() == 38
            || instance_id@.len() == 45) ==> r is Err,
{
    parse_instance_id(instance_id.as_str())
}

/// Whether `instance_id` names one of the `running` instances; false where it is not
/// a UUID.
pub fn is_easytier_running(instance_id: &str, running: &Vec<u128>) -> (r: bool)
    ensures
        r == match uuid_parse(instance_id@) {
            Some(v) => running@.contains(v),
            None => false,
        },
{
    match parse_uuid(instance_id) {
        Err(_) => false,
        Ok(v) => {
            let mut i: usize = 0;
            while i < running.len()
                invariant
                    i <= running.len(),
                    uuid_parse(instance_id@) == Some(v),
                    forall|j: int| 0 <= j < i ==> running@[j] != v,
                decreases running.len() - i,
            {
                if running[i] == v {
                    return true;
                }
                i = i + 1;
            }
            false
        },
    }
}

} // verus!
