//! Marshaling and compatibility layer for a plugin crossing the versioned
//! C-ABI boundary of the mIRC host: version-number correction, one-time
//! capability negotiation, and bounded string marshaling between the host's
//! narrow code page and UTF-16 buffers.

use vstd::prelude::*;

pub mod capability;
pub mod marshal;
pub mod text;
pub mod version;

verus! {

/// Result of a command handler: a status code for the host together with the
/// text to place in the host's data and parameter buffers.
pub struct MircResult {
    pub code: i32,
    pub data: Option<String>,
    pub parms: Option<String>,
}

} // verus!
