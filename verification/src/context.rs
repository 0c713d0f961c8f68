use vstd::prelude::*;
use crate::state::device::gateway::Gateway;

verus! {

/// What the environment hands to the worker so that units of work can
/// reach the physical transports.
pub struct Context {
    pub gateway: Gateway,
}

} // verus!
