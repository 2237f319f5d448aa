//! Fixed sizes and intervals of the bring-up sequence.

use vstd::prelude::*;

verus! {

/// Time for which the caller suspends between two looks at the IP
/// configuration, in milliseconds.
pub const POLL_INTERVAL_MS: u64 = 100;

/// Capacity in bytes of the buffer that receives the response.
pub const RESPONSE_BUFFER_SIZE: usize = 4096;

/// Size in bytes of the buffer for incoming TLS records.
pub const TLS_READ_BUFFER_SIZE: usize = 4096;

/// Size in bytes of the buffer for outgoing TLS records.
pub const TLS_WRITE_BUFFER_SIZE: usize = 4096;

} // verus!
