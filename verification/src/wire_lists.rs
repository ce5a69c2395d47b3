use vstd::prelude::*;

use crate::fixtures::{WireConformanceTransport, WireHostPlatform, WireHostRouteSecurityMode, WireHostRouteRejectionReason, WireConformanceMode};

verus! {

/// Whether a list holds this value.
pub fn contains_transport(list: &Vec<WireConformanceTransport>, value: WireConformanceTransport) -> (found: bool)
    ensures
        found == list@.contains(value),
{
    let mut i: usize = 0;
    while i < list.len()
        invariant
            i <= list@.len(),
            forall|k: int| 0 <= k < i ==> list@[k] != value,
        decreases list@.len() - i,
    {
        if list[i] == value {
            assert(list@[i as int] == value);
            return true;
        }
        i = i + 1;
    }
    false
}

/// Whether a list holds this value.
pub fn contains_platform(list: &Vec<WireHostPlatform>, value: WireHostPlatform) -> (found: bool)
    ensures
        found == list@.contains(value),
{
    let mut i: usize = 0;
    while i < list.len()
        invariant
            i <= list@.len(),
            forall|k: int| 0 <= k < i ==> list@[k] != value,
        decreases list@.len() - i,
    {
        if list[i] == value {
            assert(list@[i as int] == value);
            return true;
        }
        i = i + 1;
    }
    false
}

/// Whether a list holds this value.
pub fn contains_security_mode(list: &Vec<WireHostRouteSecurityMode>, value: WireHostRouteSecurityMode) -> (found: bool)
    ensures
        found == list@.contains(value),
{
    let mut i: usize = 0;
    while i < list.len()
        invariant
            i <= list@.len(),
            forall|k: int| 0 <= k < i ==> list@[k] != value,
        decreases list@.len() - i,
    {
        if list[i] == value {
            assert(list@[i as int] == value);
            return true;
        }
        i = i + 1;
    }
    false
}

/// Whether a list holds this value.
pub fn contains_reason(list: &Vec<WireHostRouteRejectionReason>, value: WireHostRouteRejectionReason) -> (found: bool)
    ensures
        found == list@.contains(value),
{
    let mut i: usize = 0;
    while i < list.len()
        invariant
            i <= list@.len(),
            forall|k: int| 0 <= k < i ==> list@[k] != value,
        decreases list@.len() - i,
    {
        if list[i] == value {
            assert(list@[i as int] == value);
            return true;
        }
        i = i + 1;
    }
    false
}

/// Whether a list holds this value.
pub fn contains_mode(list: &Vec<WireConformanceMode>, value: WireConformanceMode) -> (found: bool)
    ensures
        found == list@.contains(value),
{
    let mut i: usize = 0;
    while i < list.len()
        invariant
            i <= list@.len(),
            forall|k: int| 0 <= k < i ==> list@[k] != value,
        decreases list@.len() - i,
    {
        if list[i] == value {
            assert(list@[i as int] == value);
            return true;
        }
        i = i + 1;
    }
    false
}

} // verus!
