//! The upload half of the pipeline: building the upload URL and turning the
//! endpoint's HTTP answer into an artifact URL or a failure.
//!
//! The endpoint answers a JSON body shaped as
//! `{"data": {"success": bool, "message": ..., "profileUrl": ..., "url": ...}}`;
//! a profile URL takes precedence over the generic URL, and a success status
//! whose body carries neither is still a failure.

use vstd::prelude::*;

use crate::TransferError;
use crate::text_io::json_bool_at;
use crate::text_io::json_bool_lookup;
use crate::text_io::json_string_at;
use crate::text_io::json_string_lookup;
use crate::text_io::url_encode;
use crate::text_io::url_encoded;

verus! {

/// The decoded upload response body.
#[derive(Debug)]
pub struct UploadResponse {
    pub data: UploadResponseData,
}

/// The `data` object of an upload response. `profile_url` is the field the
/// endpoint calls `profileUrl`.
#[derive(Debug)]
pub struct UploadResponseData {
    pub success: bool,
    pub message: Option<String>,
    pub profile_url: Option<String>,
    pub url: Option<String>,
}

/// The view of an optional string.
pub open spec fn opt_str_view(o: Option<String>) -> Option<Seq<char>> {
    match o {
        Some(s) => Some(s@),
        None => None,
    }
}

impl UploadResponseData {
    /// URL resolution precedence: the profile URL when present, else the
    /// generic URL when present, else nothing.
    pub fn resolve_url(&self) -> (r: Option<String>)
        ensures
            self.profile_url matches Some(p) ==> (r matches Some(u) && u@ == p@),
            self.profile_url is None ==> (self.url matches Some(q) ==> (r matches Some(u) && u@
                == q@)),
            self.profile_url is None && self.url is None ==> r is None,
    {
        match &self.profile_url {
            Some(p) => Some(p.clone()),
            None => match &self.url {
                Some(q) => Some(q.clone()),
                None => None,
            },
        }
    }
}

/// The upload URL for a target domain and session: both identifiers
/// percent-encoded into the fixed endpoint's query string.
pub open spec fn upload_url_spec(domain: Seq<char>, session: Seq<char>) -> Seq<char> {
    "https://backend-analytics.soly.vn/foxia/upload-profile-v2?domain="@ + url_encoded(domain)
        + "&sessionId="@ + url_encoded(session)
}

/// Builds the upload URL for a target domain and session identifier.
pub fn build_upload_url(domain: &str, session_id: &str) -> (r: String)
    ensures
        r@ == upload_url_spec(domain@, session_id@),
{
    let enc_domain = url_encode(domain);
    let enc_session = url_encode(session_id);
    let url = String::from_str("https://backend-analytics.soly.vn/foxia/upload-profile-v2?domain=");
    let url = url.concat(enc_domain.as_str());
    let url = url.concat("&sessionId=");
    url.concat(enc_session.as_str())
}

/// Decodes an upload response body. `None` exactly when the text is not a
/// JSON document carrying a boolean `data.success`; otherwise every field of
/// the `data` object, each optional field `None` when absent or not a string.
pub fn parse_upload_response(body: &str) -> (r: Option<UploadResponse>)
    ensures
        (r is Some) == (json_bool_at(body@, "/data/success"@) is Some),
        r matches Some(resp) ==> {
            &&& json_bool_at(body@, "/data/success"@) == Some(resp.data.success)
            &&& json_string_at(body@, "/data/message"@) == opt_str_view(resp.data.message)
            &&& json_string_at(body@, "/data/profileUrl"@) == opt_str_view(resp.data.profile_url)
            &&& json_string_at(body@, "/data/url"@) == opt_str_view(resp.data.url)
        },
{
    let success = match json_bool_lookup(body, "/data/success") {
        Some(b) => b,
        None => {
            return None;
        },
    };
    let message = json_string_lookup(body, "/data/message");
    let profile_url = json_string_lookup(body, "/data/profileUrl");
    let url = json_string_lookup(body, "/data/url");
    Some(UploadResponse { data: UploadResponseData { success, message, profile_url, url } })
}

/// Turns the endpoint's HTTP status and body into the artifact URL or the
/// owed failure. A non-success status fails with that status and the raw
/// body, before any parsing; a success status with an undecodable body fails
/// with the raw body; a decoded body yields the profile URL, else the
/// generic URL, else the missing-URL failure.
pub fn interpret_upload_response(status: u16, body: &str) -> (r: Result<String, TransferError>)
    ensures
        !(200 <= status < 300) ==> (r matches Err(e) && e matches TransferError::HttpStatus {
            status: s,
            body: b,
        } && s == status && b@ == body@),
        (200 <= status < 300 && json_bool_at(body@, "/data/success"@) is None) ==> (r matches Err(
            e,
        ) && e matches TransferError::InvalidResponse { body: b } && b@ == body@),
        (200 <= status < 300 && json_bool_at(body@, "/data/success"@) is Some) ==> ({
            let p = json_string_at(body@, "/data/profileUrl"@);
            let q = json_string_at(body@, "/data/url"@);
            &&& p is Some ==> (r matches Ok(u) && Some(u@) == p)
            &&& (p is None && q is Some) ==> (r matches Ok(u) && Some(u@) == q)
            &&& (p is None && q is None) ==> r == Err::<String, TransferError>(
                TransferError::MissingUrl,
            )
        }),
{
    if status < 200 || status >= 300 {
        return Err(TransferError::HttpStatus { status, body: body.to_owned() });
    }
    match parse_upload_response(body) {
        None => Err(TransferError::InvalidResponse { body: body.to_owned() }),
        Some(resp) => match resp.data.resolve_url() {
            Some(u) => Ok(u),
            None => Err(TransferError::MissingUrl),
        },
    }
}

} // verus!
