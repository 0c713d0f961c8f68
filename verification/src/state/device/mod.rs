use vstd::prelude::*;
use crate::state::device::light::Light;

pub mod gateway;
pub mod light;

verus! {

/// A device record held by the inventory.
#[derive(Debug, Clone, Copy)]
pub enum Device {
    Light(Light),
}

} // verus!
