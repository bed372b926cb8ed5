use iron_nest::hexcodec::HexError;
use iron_nest::mish::{
    raw_blob_editor_text, requested_blob_bytes, requested_state_bytes, set_ipld_blob_request,
    set_mish_state_request, SetIpldBlob, SetMishState,
};

#[test]
fn saved_state_reads_back() {
    let request = set_mish_state_request("fish_tank".to_string(), b"true");
    assert_eq!(request.name, "fish_tank");
    assert_eq!(request.state, "74727565");
    assert_eq!(requested_state_bytes(&request), Ok(b"true".to_vec()));
}

#[test]
fn malformed_state_is_refused() {
    let request = SetMishState { name: "n".to_string(), state: "7".to_string() };
    assert_eq!(requested_state_bytes(&request), Err(HexError::OddLength));
    let request = SetMishState { name: "n".to_string(), state: "true".to_string() };
    assert_eq!(
        requested_state_bytes(&request),
        Err(HexError::InvalidHexCharacter { c: 't', index: 0 })
    );
}

#[test]
fn blob_requests() {
    let request = set_ipld_blob_request(&[0xde, 0xad, 0xbe, 0xef]);
    assert_eq!(request.content, "deadbeef");
    assert_eq!(requested_blob_bytes(&request), Ok(vec![0xde, 0xad, 0xbe, 0xef]));
    assert_eq!(raw_blob_editor_text(&[0, 1, 255]), "0001ff");
    let edited = SetIpldBlob { content: "CAFE".to_string() };
    assert_eq!(requested_blob_bytes(&edited), Ok(vec![0xca, 0xfe]));
}
