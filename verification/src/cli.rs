//! The Mish command-line uploader: which endpoint a file goes to, the request
//! that records the uploaded blob in a Mish state, and how replies are read.
use vstd::prelude::*;
use crate::json::json_quote;

verus! {

/// What the uploader is asked to do.
#[derive(Clone, Debug, PartialEq, Eq)]
pub enum Operation {
    /// Upload a file as a blob and link it from a Mish state.
    UploadFile { file_path: String, mish_state_name: String, path: String },
}

/// How a blob is uploaded.
#[derive(Clone, Copy, Debug, PartialEq, Eq, Structural)]
pub enum BlobFormat {
    /// Parsed as JSON and stored as DAG-JSON.
    DagJson,
    /// Stored as raw bytes.
    Raw,
}

/// Result of `std::path::Path::ends_with` on these texts: whether the last
/// whole components of the path are those of `child`.
pub uninterp spec fn path_ends_with(path: Seq<char>, child: Seq<char>) -> bool;

/// `Path::new(path).ends_with(child)`: compares whole path components, so its
/// result is named here rather than stated.
#[verifier::external_body]
fn path_has_suffix(path: &str, child: &str) -> (r: bool)
    ensures
        r == path_ends_with(path@, child@),
{
    std::path::Path::new(path).ends_with(child)
}

/// Result of `serde_json::from_str::<String>`: the string that a JSON text
/// stands for, or `None` when it is no JSON string.
pub uninterp spec fn json_string_value(text: Seq<char>) -> Option<Seq<char>>;

/// `serde_json::from_str::<String>`: reads a JSON text as a string.
#[verifier::external_body]
fn parse_json_string(text: &str) -> (r: Option<String>)
    ensures
        r is Some <==> json_string_value(text@) is Some,
        r matches Some(s) ==> json_string_value(text@) == Some(s@),
{
    serde_json::from_str::<String>(text).ok()
}

/// The server the uploader talks to when none is given.
pub fn default_server_url() -> (r: &'static str)
    ensures
        r@ == "http://localhost:3000"@,
{
    "http://localhost:3000"
}

/// How a file is uploaded: as DAG-JSON when its path ends with the component
/// `.json` (whole components are compared, so `data.json` is uploaded raw),
/// raw otherwise.
pub fn blob_format(file_path: &str) -> (r: BlobFormat)
    ensures
        (r == BlobFormat::DagJson) == path_ends_with(file_path@, ".json"@),
{
    if path_has_suffix(file_path, ".json") {
        BlobFormat::DagJson
    } else {
        BlobFormat::Raw
    }
}

/// The server path that takes blobs of this format.
pub open spec fn blob_endpoint_spec(format: BlobFormat) -> Seq<char> {
    match format {
        BlobFormat::DagJson => "/api/mish/blob.dag-json"@,
        BlobFormat::Raw => "/api/mish/blob.raw"@,
    }
}

/// The server path that takes blobs of this format.
pub fn blob_endpoint(format: BlobFormat) -> (r: &'static str)
    ensures
        r@ == blob_endpoint_spec(format),
{
    match format {
        BlobFormat::DagJson => "/api/mish/blob.dag-json",
        BlobFormat::Raw => "/api/mish/blob.raw",
    }
}

/// The server path that updates Mish states.
pub fn state_endpoint() -> (r: &'static str)
    ensures
        r@ == "/api/mish/state"@,
{
    "/api/mish/state"
}

/// An HTTP status in the success range 200 to 299.
pub fn is_success(status: u16) -> (r: bool)
    ensures
        r == (200 <= status <= 299),
{
    200 <= status && status <= 299
}

/// Why an upload step failed.
#[derive(Clone, Copy, Debug, PartialEq, Eq, Structural)]
pub enum UploadError {
    /// The server answered the blob upload with this status.
    BlobRejected(u16),
    /// The blob upload succeeded but its reply is no JSON string.
    MalformedCid,
    /// The server answered the state update with this status.
    StateRejected(u16),
}

/// Reads the server's reply to a blob upload: on a success status the body
/// is the blob's CID as a JSON string.
pub fn uploaded_cid(status: u16, body: &str) -> (r: Result<String, UploadError>)
    ensures
        !(200 <= status <= 299) ==> r == Err::<String, UploadError>(UploadError::BlobRejected(status)),
        200 <= status <= 299 ==> match json_string_value(body@) {
            Some(cid) => r matches Ok(c) && c@ == cid,
            None => r == Err::<String, UploadError>(UploadError::MalformedCid),
        },
{
    if !is_success(status) {
        return Err(UploadError::BlobRejected(status));
    }
    match parse_json_string(body) {
        Some(cid) => Ok(cid),
        None => Err(UploadError::MalformedCid),
    }
}

/// The JSON body that links the uploaded blob from a Mish state: an object
/// with the keys in sorted order, `content` holding the link `{"/": cid}`.
pub open spec fn state_update_body_spec(
    mish_state_name: Seq<char>,
    path: Seq<char>,
    cid: Seq<char>,
) -> Seq<char> {
    "{\"content\":{\"/\":"@ + crate::json::json_string(cid) + "},\"mish_state_name\":"@ + crate::json::json_string(
        mish_state_name,
    ) + ",\"path\":"@ + crate::json::json_string(path) + "}"@
}

/// The JSON body that links the uploaded blob `cid` from `path` of the Mish
/// state named `mish_state_name`.
pub fn state_update_body(mish_state_name: &str, path: &str, cid: &str) -> (r: String)
    ensures
        r@ == state_update_body_spec(mish_state_name@, path@, cid@),
{
    let mut body = String::from_str("{\"content\":{\"/\":");
    body.append(json_quote(cid).as_str());
    body.append("},\"mish_state_name\":");
    body.append(json_quote(mish_state_name).as_str());
    body.append(",\"path\":");
    body.append(json_quote(path).as_str());
    body.append("}");
    body
}

/// Reads the server's reply to a state update.
pub fn state_update_result(status: u16) -> (r: Result<(), UploadError>)
    ensures
        r is Ok <==> 200 <= status <= 299,
        r is Err ==> r == Err::<(), UploadError>(UploadError::StateRejected(status)),
{
    if is_success(status) {
        Ok(())
    } else {
        Err(UploadError::StateRejected(status))
    }
}

} // verus!
