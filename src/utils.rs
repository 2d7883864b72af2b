//! Host network facts. Both are fixed placeholders until discovery exists.

use vstd::prelude::*;

verus! {

/// The default gateway's address (a fixed placeholder).
pub fn get_gateway() -> (r: Option<String>)
    ensures
        r is Some && r->Some_0@ == "192.168.1.1"@,
{
    Some(String::from_str("192.168.1.1"))
}

/// This host's link-layer address (a fixed placeholder).
pub fn get_mac_address() -> (r: Option<String>)
    ensures
        r is Some && r->Some_0@ == "00:11:22:33:44:55"@,
{
    Some(String::from_str("00:11:22:33:44:55"))
}

} // verus!
