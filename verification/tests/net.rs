use firmware_rs::net::{IpConfigState, Ipv4Address, Ipv4Config};

#[test]
fn unconfigured_state_is_not_configured() {
    assert!(!IpConfigState::Unconfigured.is_configured());
}

#[test]
fn configured_state_is_configured() {
    let config = Ipv4Config { address: Ipv4Address(172, 16, 0, 9), prefix_len: 12, gateway: None };
    assert!(IpConfigState::Configured(config).is_configured());
}
