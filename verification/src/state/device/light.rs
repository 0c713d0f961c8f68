use vstd::prelude::*;
use crate::control::io::{Parameter, ToMessage, Value};
use crate::failure::Failure;

verus! {

/// Lowest brightness a light can be set to.
pub const MIN: u8 = 0;

/// Highest brightness a light can be set to.
pub const MAX: u8 = 100;

/// A dimmable light: a switch and a brightness in percent.
#[derive(Debug, Clone, Copy)]
pub struct Light {
    is_on: bool,
    brightness: u8,
}

/// The brightness that a request for `brightness` results in: the request
/// itself, cut off at `MAX`.
pub open spec fn clamp_brightness(brightness: u8) -> u8 {
    if brightness >= MAX { MAX } else { brightness }
}

impl Light {
    pub closed spec fn spec_is_on(&self) -> bool {
        self.is_on
    }

    pub closed spec fn spec_brightness(&self) -> u8 {
        self.brightness
    }

    pub fn new(is_on: bool, brightness: u8) -> (light: Light)
        ensures
            light.spec_is_on() == is_on,
            light.spec_brightness() == brightness,
    {
        Light { is_on, brightness }
    }

    pub fn is_on(&self) -> (on: bool)
        ensures
            on == self.spec_is_on(),
    {
        self.is_on
    }

    pub fn brightness(&self) -> (level: u8)
        ensures
            level == self.spec_brightness(),
    {
        self.brightness
    }

    pub fn set_brightness(&mut self, brightness: u8)
        ensures
            final(self).spec_brightness() == clamp_brightness(brightness),
            final(self).spec_brightness() <= MAX,
            final(self).spec_is_on() == old(self).spec_is_on(),
    {
        if brightness >= 100 {
            self.brightness = 100;
        } else {
            self.brightness = brightness;
        }
    }

    pub fn set_is_on(&mut self, is_on: bool)
        ensures
            final(self).spec_is_on() == is_on,
            final(self).spec_brightness() == old(self).spec_brightness(),
    {
        self.is_on = is_on;
    }
}

impl ToMessage for Light {
    /// A light is sent as its switch, then its brightness.
    fn to_message(&self) -> (encoded: Result<Vec<Parameter>, Failure>)
        ensures
            encoded matches Ok(parameters) && parameters@ == seq![
                (Parameter { name: "is_on", value: Value::Bool(self.spec_is_on()) }),
                (Parameter { name: "brightness", value: Value::U8(self.spec_brightness()) }),
            ],
    {
        let mut parameters: Vec<Parameter> = Vec::new();
        parameters.push(Parameter { name: "is_on", value: Value::Bool(self.is_on) });
        parameters.push(Parameter { name: "brightness", value: Value::U8(self.brightness) });
        Ok(parameters)
    }
}

} // verus!
