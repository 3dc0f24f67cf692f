//! Request and response bodies of the HTTP API.
use crate::text::concat2;
use vstd::prelude::*;

verus! {

pub struct ToggleRequest {
    pub on: bool,
}

pub struct BlindPositionRequest {
    pub position: u8,
}

pub struct ErrorResponse {
    pub error: String,
}

impl ErrorResponse {
    /// The answer for an unknown device key.
    pub fn device_not_found(key: &str) -> (r: ErrorResponse)
        ensures
            r.error@ == "Device not found: "@ + key@,
    {
        ErrorResponse { error: concat2("Device not found: ", key) }
    }
}

} // verus!
