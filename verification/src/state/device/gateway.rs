use vstd::prelude::*;

verus! {

/// A physical channel through which a device is reached.
pub enum Gateway {
    Web { address: String },
    Serial { port: String },
    Usb { bus: u8, device: u8 },
}

/// The kind of channel, without its address.
#[derive(Debug, Clone, Copy, PartialEq, Eq, Structural)]
pub enum Transport {
    Web,
    Serial,
    Usb,
}

impl Gateway {
    pub open spec fn spec_transport(&self) -> Transport {
        match self {
            Gateway::Web { .. } => Transport::Web,
            Gateway::Serial { .. } => Transport::Serial,
            Gateway::Usb { .. } => Transport::Usb,
        }
    }

    /// The kind of channel this gateway leads through.
    pub fn transport(&self) -> (kind: Transport)
        ensures
            kind == self.spec_transport(),
    {
        match self {
            Gateway::Web { .. } => Transport::Web,
            Gateway::Serial { .. } => Transport::Serial,
            Gateway::Usb { .. } => Transport::Usb,
        }
    }
}

} // verus!
