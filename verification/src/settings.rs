//! Checks on the settings given on the command line.
use vstd::prelude::*;

verus! {

/// The port a `--port` argument names: it must lie in `0..=65535`, else
/// the argument is refused.
pub fn checked_port(port: i64) -> (r: Option<u16>)
    ensures
        0 <= port <= u16::MAX ==> r == Some(port as u16),
        !(0 <= port <= u16::MAX) ==> r is None,
{
    if port > 65535 || port < 0 {
        None
    } else {
        Some(port as u16)
    }
}

} // verus!
