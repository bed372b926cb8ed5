//! Saving Mish states and IPLD blobs: what the editors send to the server and
//! what the server reads back out of it.
use vstd::prelude::*;
use crate::hexcodec::{decode_hex, encode_hex, HexError};

verus! {

/// Request to save the state of a named Mish state; the state's bytes travel
/// as lowercase hex text.
#[derive(Clone, Debug, PartialEq, Eq)]
pub struct SetMishState {
    pub name: String,
    pub state: String,
}

/// The settings of a Mish button: its label and the action it triggers.
#[derive(Clone, Debug, PartialEq, Eq)]
pub struct MishButtonValue {
    pub label: String,
    pub action: String,
}

/// A named Mish state and its value.
#[derive(Debug, PartialEq, Eq)]
pub struct MishState {
    pub name: String,
    pub state: crate::json::JsonValue,
}

/// Request to store an IPLD blob; its content travels as hex text.
#[derive(Clone, Debug, PartialEq, Eq)]
pub struct SetIpldBlob {
    pub content: String,
}

/// The request that saves `state` (the bytes an editor produced) under `name`.
pub fn set_mish_state_request(name: String, state: &[u8]) -> (r: SetMishState)
    ensures
        r.name@ == name@,
        r.state@ == crate::hexcodec::hex_text(state@),
{
    SetMishState { name, state: encode_hex(state) }
}

/// On the server: the state bytes that a save request carries. Text that is
/// not valid hex is refused.
pub fn requested_state_bytes(request: &SetMishState) -> (r: Result<Vec<u8>, HexError>)
    ensures
        r is Ok <==> crate::hexcodec::hex_decoded(request.state@) is Some,
        r matches Ok(v) ==> crate::hexcodec::hex_decoded(request.state@) == Some(v@),
{
    decode_hex(request.state.as_str())
}

/// The request that stores a blob edited as DAG-JSON: its bytes as hex text.
pub fn set_ipld_blob_request(content: &[u8]) -> (r: SetIpldBlob)
    ensures
        r.content@ == crate::hexcodec::hex_text(content@),
{
    SetIpldBlob { content: encode_hex(content) }
}

/// The text that the raw blob editor starts with: the blob as hex.
pub fn raw_blob_editor_text(blob: &[u8]) -> (r: String)
    ensures
        r@ == crate::hexcodec::hex_text(blob@),
{
    encode_hex(blob)
}

/// On the server: the blob bytes that a store request carries. Text that is
/// not valid hex is refused.
pub fn requested_blob_bytes(request: &SetIpldBlob) -> (r: Result<Vec<u8>, HexError>)
    ensures
        r is Ok <==> crate::hexcodec::hex_decoded(request.content@) is Some,
        r matches Ok(v) ==> crate::hexcodec::hex_decoded(request.content@) == Some(v@),
{
    decode_hex(request.content.as_str())
}

/// The multicodec code of raw bytes.
pub const RAW_CODEC: u64 = 0x55;

/// The multicodec code of DAG-JSON.
pub const DAG_JSON_CODEC: u64 = 0x0129;

/// How the blob page lets a blob be edited, by the codec of its CID.
#[derive(Clone, Copy, Debug, PartialEq, Eq, Structural)]
pub enum BlobEditor {
    /// Raw bytes, edited as hex text.
    Hex,
    /// DAG-JSON, edited as JSON; its links are listed.
    Json,
    /// No editor for this codec.
    Unsupported,
}

/// The editor for a blob whose CID has this codec.
pub fn blob_editor_for(codec: u64) -> (r: BlobEditor)
    ensures
        r == (if codec == RAW_CODEC {
            BlobEditor::Hex
        } else if codec == DAG_JSON_CODEC {
            BlobEditor::Json
        } else {
            BlobEditor::Unsupported
        }),
{
    if codec == RAW_CODEC {
        BlobEditor::Hex
    } else if codec == DAG_JSON_CODEC {
        BlobEditor::Json
    } else {
        BlobEditor::Unsupported
    }
}

} // verus!
