//! Decisions of the native-application bridge: request validation and the
//! stable error kinds reported to the applications.
use vstd::prelude::*;

use crate::device::Error;
use crate::text::chars_of;

verus! {

/// Timeout for control commands sent through the bridge, in milliseconds.
pub const CONTROL_TIMEOUT_MS: u64 = 5000;

/// Discovery duration when a request names none, in milliseconds.
pub const DEFAULT_DISCOVERY_MS: u64 = 2000;

/// Longest discovery duration a request may ask for, in milliseconds.
pub const MAX_DISCOVERY_MS: u64 = 10000;

/// Whether a requested discovery duration is accepted: `1..=10000` ms.
pub fn discovery_timeout_is_valid(timeout_ms: u64) -> (r: bool)
    ensures
        r == (1 <= timeout_ms <= MAX_DISCOVERY_MS),
{
    1 <= timeout_ms && timeout_ms <= MAX_DISCOVERY_MS
}

/// Whether a character is Unicode white space, as `char::is_whitespace`
/// decides (the `White_Space` property).
pub open spec fn is_white_space(c: char) -> bool {
    let u = c as u32;
    (0x9 <= u && u <= 0xd) || u == 0x20 || u == 0x85 || u == 0xa0 || u == 0x1680 || (0x2000 <= u
        && u <= 0x200a) || u == 0x2028 || u == 0x2029 || u == 0x202f || u == 0x205f || u == 0x3000
}

/// Whether a host text is empty once surrounding white space is trimmed.
pub fn host_is_blank(host: &str) -> (r: bool)
    ensures
        r == (forall|i: int| 0 <= i < host@.len() ==> is_white_space(#[trigger] host@[i])),
{
    let chars = chars_of(host);
    let mut i: usize = 0;
    while i < chars.len()
        invariant
            i <= chars.len(),
            chars@ == host@,
            forall|j: int| 0 <= j < i ==> is_white_space(#[trigger] host@[j]),
        decreases chars.len() - i,
    {
        let u = chars[i] as u32;
        let white = (0x9 <= u && u <= 0xd) || u == 0x20 || u == 0x85 || u == 0xa0 || u == 0x1680
            || (0x2000 <= u && u <= 0x200a) || u == 0x2028 || u == 0x2029 || u == 0x202f || u
            == 0x205f || u == 0x3000;
        if !white {
            assert(!is_white_space(host@[i as int]));
            return false;
        }
        i = i + 1;
    }
    true
}

/// The stable kind under which the bridge reports an error.
pub open spec fn kind_of(e: Error) -> Seq<char> {
    match e {
        Error::Discovery(_) => "discovery"@,
        Error::UnsupportedModel(_) => "unsupported_model"@,
        Error::DeviceNotFound => "device_not_found"@,
        Error::AmbiguousDevice { .. } => "ambiguous_device"@,
        Error::Network { .. } => "network"@,
        Error::Protocol { .. } => "protocol"@,
        Error::Rejected { .. } => "rejected"@,
        Error::UnsupportedSource(_) => "unsupported_source"@,
        Error::InvalidVolume { .. } => "invalid_volume"@,
        Error::VerificationTimeout { .. } => "verification_timeout"@,
        Error::Serialization(_) => "serialization"@,
        Error::UnsupportedCapability(_) => "unsupported_capability"@,
        Error::InvalidEqPreset { .. } => "invalid_equalizer"@,
    }
}

/// The stable kind under which the bridge reports an error.
pub fn error_kind(error: &Error) -> (k: &'static str)
    ensures
        k@ == kind_of(*error),
{
    match error {
        Error::Discovery(_) => "discovery",
        Error::UnsupportedModel(_) => "unsupported_model",
        Error::DeviceNotFound => "device_not_found",
        Error::AmbiguousDevice { .. } => "ambiguous_device",
        Error::Network { .. } => "network",
        Error::Protocol { .. } => "protocol",
        Error::Rejected { .. } => "rejected",
        Error::UnsupportedSource(_) => "unsupported_source",
        Error::InvalidVolume { .. } => "invalid_volume",
        Error::VerificationTimeout { .. } => "verification_timeout",
        Error::Serialization(_) => "serialization",
        Error::UnsupportedCapability(_) => "unsupported_capability",
        Error::InvalidEqPreset { .. } => "invalid_equalizer",
    }
}

} // verus!
