//! Port allocation: given the availability of the requested port and
//! the ten ports after it, picks the port a launch should bind.

use vstd::prelude::*;

verus! {

/// How many consecutive ports a search probes: the requested port and
/// ten more.
pub const PORT_SEARCH_WIDTH: usize = 11;

/// The smallest index at or after `i` marked free, if any.
pub open spec fn first_free_from(free: Seq<bool>, i: int) -> Option<int>
    decreases free.len() - i,
{
    if i < 0 || i >= free.len() {
        None
    } else if free[i] {
        Some(i)
    } else {
        first_free_from(free, i + 1)
    }
}

/// Picks the port to bind: the first free port at or after the
/// requested one within the search window, or the requested port
/// unchanged when the whole window is occupied (an accepted, documented
/// degradation: the caller will then fail at bind time with a clear
/// error).
///
/// `free[i]` reports whether port `start_port + i` could be bound.
pub fn find_available_port(start_port: u16, free: &Vec<bool>) -> (port: u16)
    requires
        free.len() == PORT_SEARCH_WIDTH,
        start_port + PORT_SEARCH_WIDTH - 1 <= u16::MAX,
    ensures
        match first_free_from(free@, 0) {
            Some(i) => port == start_port + i,
            None => port == start_port,
        },
        (forall|i: int| 0 <= i < free@.len() ==> !free@[i]) ==> port == start_port,
        free@[0] ==> port == start_port,
        !free@[0] && free@[1] ==> port == start_port + 1,
{
    let mut k: usize = 0;
    while k < PORT_SEARCH_WIDTH
        invariant
            k <= PORT_SEARCH_WIDTH,
            free.len() == PORT_SEARCH_WIDTH,
            start_port + PORT_SEARCH_WIDTH - 1 <= u16::MAX,
            first_free_from(free@, 0) == first_free_from(free@, k as int),
            forall|i: int| 0 <= i < k ==> !free@[i],
        decreases PORT_SEARCH_WIDTH - k,
    {
        if free[k] {
            return start_port + (k as u16);
        }
        k += 1;
    }
    start_port
}

} // verus!
