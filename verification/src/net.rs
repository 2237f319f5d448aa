//! What the bring-up sequence reads of the IP stack, as plain values.

use vstd::prelude::*;

verus! {

/// An IPv4 address, most significant octet first.
#[derive(Clone, Copy, Debug, PartialEq, Eq)]
pub struct Ipv4Address(pub u8, pub u8, pub u8, pub u8);

/// The address a stack was given, with its routing information.
#[derive(Clone, Copy, Debug, PartialEq, Eq)]
pub struct Ipv4Config {
    /// Address of the interface.
    pub address: Ipv4Address,
    /// Number of leading bits of the address that name the subnet.
    pub prefix_len: u8,
    /// Default gateway, if the network named one.
    pub gateway: Option<Ipv4Address>,
}

/// Whether the IP stack has a usable address yet.
#[derive(Clone, Copy, Debug, PartialEq, Eq)]
pub enum IpConfigState {
    /// Address negotiation has not finished.
    Unconfigured,
    /// The stack holds this configuration.
    Configured(Ipv4Config),
}

impl IpConfigState {
    /// True for [`IpConfigState::Configured`].
    pub fn is_configured(&self) -> (up: bool)
        ensures
            up == (*self is Configured),
    {
        match self {
            IpConfigState::Configured(_) => true,
            IpConfigState::Unconfigured => false,
        }
    }
}

} // verus!
