use vstd::prelude::*;

verus! {

/// Schema version attached to every published result.
pub const PROTOCOL: &'static str = "3.0.0";

/// Minimum number of seconds between the end of one cycle and the start of the next.
pub const UPDATE_INTERVAL: u64 = 300;

} // verus!
