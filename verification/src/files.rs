//! The computable edge of the resumable file-upload protocol: the
//! upload address and the extraction of the uploaded file's URI from
//! the service's reply.  The transfer itself is plain I/O and lives
//! with the caller.

use vstd::prelude::*;

use crate::json::get_field;
use crate::json::JsonValue;
use crate::json::Jx;
use crate::request::base_url_text;
use crate::strutil::str_concat;

verus! {

/// The address an upload is started at.
pub open spec fn upload_url_text(api_version: Seq<char>, api_key: Seq<char>) -> Seq<char> {
    base_url_text() + "/upload/"@ + api_version + "/files?key="@ + api_key
}

/// Builds the address an upload is started at.
pub fn upload_url(api_version: &str, api_key: &str) -> (r: String)
    ensures
        r@ == upload_url_text(api_version@, api_key@),
{
    let mut url = str_concat(
        "https://generativelanguage.googleapis.com".to_owned(),
        "/upload/",
    );
    url = str_concat(url, api_version);
    url = str_concat(url, "/files?key=");
    url = str_concat(url, api_key);
    proof {
        assert(url@ =~= upload_url_text(api_version@, api_key@));
    }
    url
}

/// The URI under `file.uri` of an upload reply, when it is a string.
pub open spec fn file_uri_of(j: Jx) -> Option<Seq<char>> {
    match get_field(j, "file"@) {
        Some(fj) => match get_field(fj, "uri"@) {
            Some(Jx::Str(u)) => Some(u),
            _ => None,
        },
        None => None,
    }
}

/// Extracts the uploaded file's URI from the service's reply.
pub fn extract_file_uri(v: &JsonValue) -> (r: Option<String>)
    ensures
        crate::strutil::opt_text(r) == file_uri_of(v.deep()),
{
    match v.get("file") {
        Some(fj) => match fj.get("uri") {
            Some(JsonValue::Str(u)) => Some(u.clone()),
            _ => None,
        },
        None => None,
    }
}

} // verus!
