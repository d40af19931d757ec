use wg_p2p::plugin_config::{config_entries, ipv4_config_entries, ipv6_config_entries, DictValue};

#[test]
fn config_names_device_and_both_families() {
    let e = config_entries("wg3");
    assert_eq!(e.len(), 3);
    assert_eq!(e[0].0, "tundev");
    assert!(matches!(&e[0].1, DictValue::Str(d) if d == "wg3"));
    assert_eq!(e[1].0, "has-ip4");
    assert!(matches!(e[1].1, DictValue::Bool(true)));
    assert_eq!(e[2].0, "has-ip6");
    assert!(matches!(e[2].1, DictValue::Bool(true)));
}

#[test]
fn ipv4_config_is_ten_zero_zero_one_slash_24() {
    let e = ipv4_config_entries();
    assert_eq!(e.len(), 2);
    assert_eq!(e[0].0, "address");
    assert!(matches!(e[0].1, DictValue::U32Bytes([10, 0, 0, 1])));
    assert_eq!(e[1].0, "prefix");
    assert!(matches!(e[1].1, DictValue::U32(24)));
}

#[test]
fn ipv6_config_is_empty() {
    assert!(ipv6_config_entries().is_empty());
}
