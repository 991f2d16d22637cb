//! The binary BLE command protocol: fixed-format command/response
//! envelopes discriminated by a short leading tag, with raw 6-byte device
//! addresses. Some responses carry a variable-length list of fixed-size
//! sub-records whose count is encoded by a length byte earlier in the
//! same response. Building and parsing envelopes is pure and lives here;
//! the radio I/O does not.

use vstd::prelude::*;

verus! {

/// A raw 6-byte Bluetooth device address.
#[derive(Clone, Copy, Debug, PartialEq, Eq)]
pub struct MacAddress {
    pub octets: [u8; 6],
}

/// First tag byte of every response envelope of this vocabulary.
pub const RESPONSE_TAG: u8 = 0x09;

/// Second tag byte of a paired-device-list response.
pub const LIST_RESPONSE_KIND: u8 = 0x01;

/// Second tag byte of a per-device status response.
pub const STATUS_RESPONSE_KIND: u8 = 0x02;

/// Command tag: list the peripheral's paired devices.
pub const CMD_LIST_DEVICES: u8 = 0x01;

/// Command tag: report the connection status of one address.
pub const CMD_DEVICE_STATUS: u8 = 0x02;

/// Command tag: disconnect one address.
pub const CMD_DISCONNECT_DEVICE: u8 = 0x03;

/// Command tag: connect one address.
pub const CMD_CONNECT_DEVICE: u8 = 0x04;

/// Why a response envelope was rejected. A malformed envelope aborts the
/// whole BLE operation - BLE operations are atomic end to end.
#[derive(Clone, Copy, PartialEq, Eq, Structural, Debug)]
pub enum ParseError {
    /// The envelope ends before its fixed header does.
    TooShort,
    /// The leading discriminator is not the expected one.
    UnexpectedTag,
    /// The length byte contradicts the envelope size or the sub-record
    /// size.
    BadLength,
}

/// The bytes of a command that carries one address: the tag followed by
/// the six raw address octets.
pub open spec fn spec_address_command(tag: u8, a: MacAddress) -> Seq<u8> {
    seq![
        tag,
        a.octets@[0],
        a.octets@[1],
        a.octets@[2],
        a.octets@[3],
        a.octets@[4],
        a.octets@[5],
    ]
}

/// The list-paired-devices command: its tag alone.
pub fn list_devices_command() -> (r: Vec<u8>)
    ensures
        r@ == seq![CMD_LIST_DEVICES],
{
    let mut out: Vec<u8> = Vec::new();
    out.push(CMD_LIST_DEVICES);
    proof {
        assert(out@ =~= seq![CMD_LIST_DEVICES]);
    }
    out
}

/// A command carrying one address.
fn address_command(tag: u8, a: &MacAddress) -> (r: Vec<u8>)
    ensures
        r@ == spec_address_command(tag, *a),
{
    let mut out: Vec<u8> = Vec::new();
    out.push(tag);
    out.push(a.octets[0]);
    out.push(a.octets[1]);
    out.push(a.octets[2]);
    out.push(a.octets[3]);
    out.push(a.octets[4]);
    out.push(a.octets[5]);
    proof {
        assert(out@ =~= spec_address_command(tag, *a));
    }
    out
}

/// The status command for one address.
pub fn status_command(a: &MacAddress) -> (r: Vec<u8>)
    ensures
        r@ == spec_address_command(CMD_DEVICE_STATUS, *a),
{
    address_command(CMD_DEVICE_STATUS, a)
}

/// The disconnect command for one address.
pub fn disconnect_command(a: &MacAddress) -> (r: Vec<u8>)
    ensures
        r@ == spec_address_command(CMD_DISCONNECT_DEVICE, *a),
{
    address_command(CMD_DISCONNECT_DEVICE, a)
}

/// The connect command for one address.
pub fn connect_command(a: &MacAddress) -> (r: Vec<u8>)
    ensures
        r@ == spec_address_command(CMD_CONNECT_DEVICE, *a),
{
    address_command(CMD_CONNECT_DEVICE, a)
}

/// A well-formed device-list response: `[RESPONSE_TAG,
/// LIST_RESPONSE_KIND, data_length, status, addresses...]`, where
/// `data_length` counts the status byte and the addresses, so the address
/// count is `(data_length - 1) / 6`.
pub open spec fn device_list_response_valid(r: Seq<u8>) -> bool {
    &&& r.len() >= 4
    &&& r[0] == RESPONSE_TAG
    &&& r[1] == LIST_RESPONSE_KIND
    &&& r[2] >= 1
    &&& (r[2] - 1) % 6 == 0
    &&& r.len() == 3 + r[2]
}

/// Parses a device-list response into its raw 6-byte addresses, in wire
/// order. Rejected envelopes name what was wrong: `TooShort` when the
/// fixed header is cut off, `UnexpectedTag` when the discriminator is
/// another response's, `BadLength` when the length byte contradicts the
/// envelope size or does not cover whole addresses.
pub fn parse_device_list(resp: &Vec<u8>) -> (r: Result<Vec<MacAddress>, ParseError>)
    ensures
        match r {
            Ok(addrs) => {
                &&& device_list_response_valid(resp@)
                &&& addrs@.len() == (resp@[2] - 1) / 6
                &&& forall|i: int|
                    0 <= i < addrs@.len() ==> (#[trigger] addrs@[i]).octets@ == resp@.subrange(
                        4 + 6 * i,
                        10 + 6 * i,
                    )
            },
            Err(e) => {
                &&& !device_list_response_valid(resp@)
                &&& (e == ParseError::TooShort <==> resp@.len() < 4)
                &&& (e == ParseError::UnexpectedTag <==> resp@.len() >= 4 && !(resp@[0]
                    == RESPONSE_TAG && resp@[1] == LIST_RESPONSE_KIND))
                &&& (e == ParseError::BadLength <==> resp@.len() >= 4 && resp@[0] == RESPONSE_TAG
                    && resp@[1] == LIST_RESPONSE_KIND && !(resp@[2] >= 1 && (resp@[2] - 1) % 6 == 0
                    && resp@.len() == 3 + resp@[2]))
            },
        },
{
    if resp.len() < 4 {
        return Err(ParseError::TooShort);
    }
    if resp[0] != RESPONSE_TAG || resp[1] != LIST_RESPONSE_KIND {
        return Err(ParseError::UnexpectedTag);
    }
    let data_length: usize = resp[2] as usize;
    if data_length < 1 || (data_length - 1) % 6 != 0 || resp.len() != 3 + data_length {
        return Err(ParseError::BadLength);
    }
    let count: usize = (data_length - 1) / 6;
    let mut addrs: Vec<MacAddress> = Vec::new();
    let mut i: usize = 0;
    while i < count
        invariant
            count == (resp@[2] - 1) / 6,
            resp@.len() == 3 + resp@[2],
            resp@[2] >= 1,
            (resp@[2] - 1) % 6 == 0,
            i <= count,
            addrs@.len() == i,
            forall|k: int|
                0 <= k < i ==> (#[trigger] addrs@[k]).octets@ == resp@.subrange(
                    4 + 6 * k,
                    10 + 6 * k,
                ),
        decreases count - i,
    {
        proof {
            assert(6 * (i as int) + 6 <= 6 * (count as int)) by (nonlinear_arith)
                requires
                    i < count,
            ;
        }
        let base: usize = 4 + 6 * i;
        let a = MacAddress {
            octets: [
                resp[base],
                resp[base + 1],
                resp[base + 2],
                resp[base + 3],
                resp[base + 4],
                resp[base + 5],
            ],
        };
        proof {
            assert(a.octets@ =~= resp@.subrange(4 + 6 * (i as int), 10 + 6 * (i as int)));
        }
        addrs.push(a);
        i = i + 1;
    }
    Ok(addrs)
}

/// A well-formed status response: `[RESPONSE_TAG, STATUS_RESPONSE_KIND,
/// 1, status]`; a nonzero status byte means the address is currently
/// connected.
pub open spec fn status_response_valid(r: Seq<u8>) -> bool {
    &&& r.len() == 4
    &&& r[0] == RESPONSE_TAG
    &&& r[1] == STATUS_RESPONSE_KIND
    &&& r[2] == 1
}

/// Parses a per-device status response: whether the queried address is
/// currently connected.
pub fn parse_status_response(resp: &Vec<u8>) -> (r: Result<bool, ParseError>)
    ensures
        match r {
            Ok(connected) => {
                &&& status_response_valid(resp@)
                &&& connected == (resp@[3] != 0)
            },
            Err(e) => {
                &&& !status_response_valid(resp@)
                &&& (e == ParseError::TooShort <==> resp@.len() < 4)
                &&& (e == ParseError::UnexpectedTag <==> resp@.len() >= 4 && !(resp@[0]
                    == RESPONSE_TAG && resp@[1] == STATUS_RESPONSE_KIND))
                &&& (e == ParseError::BadLength <==> resp@.len() >= 4 && resp@[0] == RESPONSE_TAG
                    && resp@[1] == STATUS_RESPONSE_KIND && !(resp@[2] == 1 && resp@.len() == 4))
            },
        },
{
    if resp.len() < 4 {
        return Err(ParseError::TooShort);
    }
    if resp[0] != RESPONSE_TAG || resp[1] != STATUS_RESPONSE_KIND {
        return Err(ParseError::UnexpectedTag);
    }
    if resp[2] != 1 || resp.len() != 4 {
        return Err(ParseError::BadLength);
    }
    Ok(resp[3] != 0)
}

} // verus!
