use wg_p2p::addr::{AddrParseError, IpAddr};
use wg_p2p::ip_settings::{
    apply_device_config, DeviceAction, IpConfigExt, IpEntry, IpSettings, IpV4Config, Ipv4Config,
    Ipv6Config,
};

fn entry(a: [u8; 4], prefix: u32) -> IpEntry {
    IpEntry { address: Ok(IpAddr::V4(a)), prefix }
}

fn settings() -> IpSettings {
    IpSettings {
        addresses: vec![entry([10, 0, 0, 2], 24), IpEntry { address: Err(AddrParseError), prefix: 8 }, entry([10, 0, 1, 2], 300)],
        routes: vec![entry([192, 168, 0, 0], 16)],
        gateway: Some(Ok(IpAddr::V4([10, 0, 0, 1]))),
    }
}

#[test]
fn getters_read_entries_and_stop_past_the_end() {
    let c = Ipv4Config(settings());
    assert_eq!(c.get_num_addresses(), 3);
    assert!(matches!(c.get_address(0), Ok(Some(IpAddr::V4([10, 0, 0, 2])))));
    assert!(matches!(c.get_address(1), Err(AddrParseError)));
    assert!(matches!(c.get_address(3), Ok(None)));
    assert_eq!(c.get_prefix(0), Some(24));
    assert_eq!(c.get_prefix(2), Some(44));
    assert_eq!(c.get_prefix(3), None);
    assert_eq!(c.get_num_routes(), 1);
    assert!(matches!(c.get_route_dst(0), Ok(Some(IpAddr::V4([192, 168, 0, 0])))));
    assert!(matches!(c.get_route_dst(1), Ok(None)));
    assert_eq!(c.get_route_prefix(0), Some(16));
    assert!(matches!(c.get_gateway(), Ok(Some(IpAddr::V4([10, 0, 0, 1])))));
}

#[test]
fn device_actions_add_parsed_addresses_then_routes() {
    let actions = apply_device_config(&Ipv6Config(settings()));
    assert_eq!(actions.len(), 3);
    assert!(matches!(actions[0], DeviceAction::AddAddr { addr: IpAddr::V4([10, 0, 0, 2]), prefix: 24 }));
    assert!(matches!(actions[1], DeviceAction::AddAddr { addr: IpAddr::V4([10, 0, 1, 2]), prefix: 44 }));
    assert!(matches!(
        actions[2],
        DeviceAction::AddRoute { dst: IpAddr::V4([192, 168, 0, 0]), prefix: 16, gateway: Some(IpAddr::V4([10, 0, 0, 1])) }
    ));
}

#[test]
fn unreadable_gateway_counts_as_none() {
    let mut s = settings();
    s.gateway = Some(Err(AddrParseError));
    s.addresses = vec![];
    let actions = apply_device_config(&IpV4Config(s));
    assert_eq!(actions.len(), 1);
    assert!(matches!(actions[0], DeviceAction::AddRoute { gateway: None, .. }));
}

#[test]
fn empty_settings_add_nothing() {
    let s = IpSettings { addresses: vec![], routes: vec![], gateway: None };
    assert!(apply_device_config(&Ipv4Config(s)).is_empty());
}
