//! The Roku keypress endpoint: which TV a device id means, the request sent to
//! it, and the reply.
use vstd::prelude::*;

verus! {

/// The address of the Roku TV with this device id: device 1 is the one at
/// 192.168.0.220, every other id means the one at 10.0.0.217.
pub open spec fn roku_ip_spec(device_id: i64) -> Seq<char> {
    if device_id == 1 {
        "192.168.0.220"@
    } else {
        "10.0.0.217"@
    }
}

/// Device 1, and only it, is the TV at 192.168.0.220; every other device id
/// is the TV at 10.0.0.217.
pub proof fn law_roku_ip_by_device(device_id: i64)
    ensures
        roku_ip_spec(device_id) == "192.168.0.220"@ <==> device_id == 1,
        device_id != 1 ==> roku_ip_spec(device_id) == "10.0.0.217"@,
{
    reveal_strlit("192.168.0.220");
    reveal_strlit("10.0.0.217");
    assert("192.168.0.220"@.len() != "10.0.0.217"@.len());
}

/// The address of the Roku TV with this device id.
pub fn roku_ip(device_id: i64) -> (r: &'static str)
    ensures
        r@ == roku_ip_spec(device_id),
{
    if device_id == 1 {
        "192.168.0.220"
    } else {
        "10.0.0.217"
    }
}

/// The URL that presses `key` on the Roku TV with this device id.
pub fn keypress_url(device_id: i64, key: &str) -> (r: String)
    ensures
        r@ == "http://"@ + roku_ip_spec(device_id) + ":8060/keypress/"@ + key@,
{
    let mut url = String::from_str("http://");
    url.append(roku_ip(device_id));
    url.append(":8060/keypress/");
    url.append(key);
    url
}

/// The HTTP status of a keypress that could not be sent.
pub const INTERNAL_SERVER_ERROR: u16 = 500;

/// The endpoint's reply: the pressed key when the request went out, an
/// internal server error when it did not.
pub fn keypress_reply(sent: bool, key: &str) -> (r: Result<String, u16>)
    ensures
        sent ==> (r matches Ok(s) && s@ == "Key pressed: "@ + key@),
        !sent ==> r == Err::<String, u16>(INTERNAL_SERVER_ERROR),
{
    if sent {
        let mut reply = String::from_str("Key pressed: ");
        reply.append(key);
        Ok(reply)
    } else {
        Err(INTERNAL_SERVER_ERROR)
    }
}

} // verus!
