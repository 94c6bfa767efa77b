//! Identifiers of the transforms that the worker knows how to execute.
use vstd::prelude::*;

verus! {

/// Test transform that emits a fixed list of strings at the start of a bundle.
pub const CREATE_URN: &'static str = "beam:transform:create:v1";

/// Test transform that records every call it receives.
pub const RECORDING_URN: &'static str = "beam:transform:recording:v1";

/// Test transform that partitions its input.
pub const PARTITION_URN: &'static str = "beam:transform:partition:v1";

/// Emits a single empty element per bundle.
pub const IMPULSE_URN: &'static str = "beam:transform:impulse:v1";

/// Groups the elements of a bundle by key.
pub const GROUP_BY_KEY_URN: &'static str = "beam:transform:group_by_key:v1";

/// Reads elements from the data channel.
pub const DATA_INPUT_URN: &'static str = "beam:runner:source:v1";

/// Applies a user function to every element.
pub const PAR_DO_URN: &'static str = "beam:transform:pardo:v1";

/// Merges several collections into one.
pub const FLATTEN_URN: &'static str = "beam:transform:flatten:v1";

/// The encoded impulse element: minimum timestamp, one global window,
/// the "first and last firing" pane, and an empty payload.
pub const IMPULSE_BUFFER: [u8; 14] = [
    0x7f, 0xdf, 0x3b, 0x64, 0x5a, 0x1c, 0xac, 0x09, 0x00, 0x00, 0x00, 0x01, 0x0f, 0x00,
];

} // verus!
