//! The metadata prober's reading of a probe response: the size of the resource and
//! whether the server serves byte ranges.

use crate::text::{parse_u64, parsed_u64};
use vstd::prelude::*;

verus! {

/// The status that a server gives to a ranged request it has honoured.
pub const PARTIAL_CONTENT: u16 = 206;

/// Whether a response status is a success: one of the 2xx class.
pub open spec fn spec_is_success(status: u16) -> bool {
    200 <= status < 300
}

/// Whether a response status is a success: one of the 2xx class.
pub fn is_success(status: u16) -> (r: bool)
    ensures
        r == spec_is_success(status),
{
    200 <= status && status < 300
}

/// What the probe found out.
#[derive(Clone, Copy, Debug, PartialEq, Eq, Structural)]
pub struct SizeProbe {
    /// The size of the resource in bytes.
    pub total_size: u64,
    /// Whether the server serves ranges counted in bytes.
    pub supports_ranges: bool,
}

/// Why a probe gave no answer.
#[derive(Clone, Copy, Debug, PartialEq, Eq, Structural)]
pub enum ProbeError {
    /// The request failed before a response came.
    RequestFailed,
    /// The response has this status, which is no success.
    Status(u16),
    /// The response states no length.
    MissingLength,
    /// The length that the response states is not a number of bytes.
    InvalidLength,
}

/// The parts of a probe's response that count: the status, and the values of the
/// length header and of the header that names the range unit, where they are there.
#[derive(Clone, Debug, PartialEq, Eq)]
pub struct ProbeResponse {
    pub status: u16,
    pub content_length: Option<Vec<u8>>,
    pub accept_ranges: Option<Vec<u8>>,
}

/// How a probe ended.
#[derive(Clone, Debug, PartialEq, Eq)]
pub enum ProbeReply {
    /// The request failed before a response came.
    Failed,
    /// A response came.
    Response(ProbeResponse),
}

/// The name of the byte unit: `bytes`.
pub open spec fn byte_unit() -> Seq<u8> {
    seq![98u8, 121u8, 116u8, 101u8, 115u8]
}

/// Whether the server names exactly the byte unit. No header, or any other value, is
/// taken as no support.
pub open spec fn advertises_bytes(accept_ranges: Option<Vec<u8>>) -> bool {
    accept_ranges is Some && accept_ranges->Some_0@ == byte_unit()
}

/// What a response says of the resource.
pub open spec fn read_response(response: ProbeResponse) -> Result<SizeProbe, ProbeError> {
    if !spec_is_success(response.status) {
        Err(ProbeError::Status(response.status))
    } else if response.content_length is None {
        Err(ProbeError::MissingLength)
    } else if parsed_u64(response.content_length->Some_0@) is None {
        Err(ProbeError::InvalidLength)
    } else {
        Ok(
            SizeProbe {
                total_size: parsed_u64(response.content_length->Some_0@)->Some_0,
                supports_ranges: advertises_bytes(response.accept_ranges),
            },
        )
    }
}

/// What a probe says of the resource.
pub open spec fn read_reply(reply: ProbeReply) -> Result<SizeProbe, ProbeError> {
    match reply {
        ProbeReply::Failed => Err(ProbeError::RequestFailed),
        ProbeReply::Response(response) => read_response(response),
    }
}

/// Whether `value` is exactly the name of the byte unit.
pub fn is_byte_unit(value: &[u8]) -> (r: bool)
    ensures
        r == (value@ == byte_unit()),
{
    if value.len() != 5 {
        return false;
    }
    let r = value[0] == 98u8 && value[1] == 121u8 && value[2] == 116u8 && value[3] == 101u8
        && value[4] == 115u8;
    proof {
        if r {
            assert(value@ =~= byte_unit());
        }
    }
    r
}

/// Reads a probe's response: a status that is no success, a missing length and a
/// length that is no number are errors, in this order; else the size is the length,
/// and ranges are supported only where the server names exactly the byte unit.
pub fn interpret_response(response: &ProbeResponse) -> (r: Result<SizeProbe, ProbeError>)
    ensures
        r == read_response(*response),
{
    if !is_success(response.status) {
        return Err(ProbeError::Status(response.status));
    }
    let total_size: u64 = match &response.content_length {
        None => {
            return Err(ProbeError::MissingLength);
        },
        Some(text) => match parse_u64(text.as_slice()) {
            None => {
                return Err(ProbeError::InvalidLength);
            },
            Some(n) => n,
        },
    };
    let supports_ranges = match &response.accept_ranges {
        None => false,
        Some(unit) => is_byte_unit(unit.as_slice()),
    };
    Ok(SizeProbe { total_size, supports_ranges })
}

/// Reads the outcome of a probe.
pub fn interpret_probe(reply: &ProbeReply) -> (r: Result<SizeProbe, ProbeError>)
    ensures
        r == read_reply(*reply),
{
    match reply {
        ProbeReply::Failed => Err(ProbeError::RequestFailed),
        ProbeReply::Response(response) => interpret_response(response),
    }
}

} // verus!
