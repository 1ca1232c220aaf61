//! Decoding of the fixed-offset status and firmware response frames.

use vstd::prelude::*;
use crate::codec::FRAME_LEN;

verus! {

/// A decoded device status report.
///
/// The liquid temperature is kept in tenths of a degree so that the record
/// holds exact integers; a reading of 24.5 degrees is stored as 245.
#[derive(Clone, Copy, Debug, PartialEq, Eq, Structural)]
pub struct Status {
    pub liquid_temp_tenths: u16,
    pub pump_speed: u32,
    pub pump_rate: u8,
    pub fan_speed: u32,
    pub fan_rate: u8,
    pub firmware_major: u8,
    pub firmware_minor: u8,
    pub firmware_patch: u8,
}

impl Status {
    /// The zeroed record used when the device gives no usable response.
    pub open spec fn spec_unavailable() -> Status {
        Status {
            liquid_temp_tenths: 0,
            pump_speed: 0,
            pump_rate: 0,
            fan_speed: 0,
            fan_rate: 0,
            firmware_major: 0,
            firmware_minor: 0,
            firmware_patch: 0,
        }
    }

    pub fn unavailable() -> (r: Status)
        ensures
            r == Status::spec_unavailable(),
    {
        Status {
            liquid_temp_tenths: 0,
            pump_speed: 0,
            pump_rate: 0,
            fan_speed: 0,
            fan_rate: 0,
            firmware_major: 0,
            firmware_minor: 0,
            firmware_patch: 0,
        }
    }
}

/// Field extraction from a full 64-byte status response and a full 64-byte
/// firmware response, purely positional.
pub open spec fn spec_decode_status(status_resp: Seq<u8>, firmware_resp: Seq<u8>) -> Status
    recommends
        status_resp.len() == FRAME_LEN,
        firmware_resp.len() == FRAME_LEN,
{
    Status {
        liquid_temp_tenths: (status_resp[15] * 10 + status_resp[16]) as u16,
        pump_speed: (status_resp[18] * 256 + status_resp[17]) as u32,
        pump_rate: status_resp[19],
        fan_speed: (status_resp[24] * 256 + status_resp[23]) as u32,
        fan_rate: status_resp[25],
        firmware_major: firmware_resp[17],
        firmware_minor: firmware_resp[18],
        firmware_patch: firmware_resp[19],
    }
}

/// Decodes the two response frames read back from the device.
///
/// A response that is not exactly 64 bytes marks the status as unavailable:
/// the zeroed record is returned, never an error.
pub fn decode_status(status_resp: &Vec<u8>, firmware_resp: &Vec<u8>) -> (r: Status)
    ensures
        status_resp@.len() == FRAME_LEN && firmware_resp@.len() == FRAME_LEN ==> r
            == spec_decode_status(status_resp@, firmware_resp@),
        !(status_resp@.len() == FRAME_LEN && firmware_resp@.len() == FRAME_LEN) ==> r
            == Status::spec_unavailable(),
{
    if status_resp.len() != FRAME_LEN || firmware_resp.len() != FRAME_LEN {
        return Status::unavailable();
    }
    let temp_whole = status_resp[15] as u16;
    let temp_frac = status_resp[16] as u16;
    Status {
        liquid_temp_tenths: temp_whole * 10 + temp_frac,
        pump_speed: (status_resp[18] as u32) * 256 + (status_resp[17] as u32),
        pump_rate: status_resp[19],
        fan_speed: (status_resp[24] as u32) * 256 + (status_resp[23] as u32),
        fan_rate: status_resp[25],
        firmware_major: firmware_resp[17],
        firmware_minor: firmware_resp[18],
        firmware_patch: firmware_resp[19],
    }
}

} // verus!
