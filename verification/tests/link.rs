use wg_p2p::addr::{IpAddr, SocketAddr};
use wg_p2p::link::{FamilyIdError, Link, ReplyAttr};
use wg_p2p::nlmsg::{AttrValue, ExtraHeader, NlOp};
use wg_p2p::wireguard::Peer;

fn bytes_of(op: &NlOp) -> (u16, Vec<u8>) {
    match op {
        NlOp::Put(t, AttrValue::Bytes(b)) => (*t, b.clone()),
        _ => panic!("not a byte attribute"),
    }
}

#[test]
fn ipv6_address_is_sent_in_network_order() {
    let a = IpAddr::V6([0x2001, 0xdb8, 0, 0, 0, 0, 0, 0x1]);
    assert_eq!(
        a.to_bytes(),
        vec![0x20, 0x01, 0x0d, 0xb8, 0, 0, 0, 0, 0, 0, 0, 0, 0, 0, 0, 0x01]
    );
    assert_eq!(IpAddr::V4([192, 0, 2, 1]).to_bytes(), vec![192, 0, 2, 1]);
    assert_eq!(a.family(), 10);
    assert_eq!(IpAddr::V4([1, 2, 3, 4]).family(), 2);
}

#[test]
fn create_request_names_the_link_and_its_kind() {
    let r = Link::create_request("wireguard", &Some("wg5".to_string()));
    assert_eq!(r.msg_type, 16);
    assert_eq!(r.flags, 0x705);
    assert!(matches!(r.header, ExtraHeader::Ifinfo(h) if h.ifi_index == 0 && h.ifi_flags == 0));
    assert_eq!(r.ops.len(), 2);
    assert!(matches!(&r.ops[0], NlOp::Put(3, AttrValue::Str(n)) if n == "wg5"));
    assert_eq!(
        bytes_of(&r.ops[1]),
        (18, vec![0x0d, 0, 1, 0, b'w', b'i', b'r', b'e', b'g', b'u', b'a', b'r', b'd', 0, 0, 0])
    );
    let unnamed = Link::create_request("wireguard", &None);
    assert_eq!(unnamed.ops.len(), 1);
}

#[test]
fn delete_request_names_the_link() {
    let link = Link { name: "wg1".to_string() };
    let r = link.delete_request();
    assert_eq!(r.msg_type, 16);
    assert_eq!(r.flags, 0x705);
    assert_eq!(r.ops.len(), 1);
    assert!(matches!(&r.ops[0], NlOp::Put(3, AttrValue::Str(n)) if n == "wg1"));
}

#[test]
fn route_through_gateway_on_ipv6_has_link_scope() {
    let dst = IpAddr::V6([0xfd00, 0, 0, 0, 0, 0, 0, 0]);
    let gw = IpAddr::V6([0xfe80, 0, 0, 0, 0, 0, 0, 1]);
    let r = Link::add_route_request(7, dst, 64, Some(gw));
    assert_eq!(r.msg_type, 24);
    assert_eq!(r.flags, 0x01 | 0x400 | 0x04);
    match r.header {
        ExtraHeader::Rt(h) => {
            assert_eq!(h.rtm_family, 10);
            assert_eq!(h.rtm_dst_len, 64);
            assert_eq!(h.rtm_scope, 253);
            assert_eq!(h.rtm_table, 254);
            assert_eq!(h.rtm_protocol, 4);
            assert_eq!(h.rtm_type, 1);
        },
        _ => panic!("not a route header"),
    }
    assert_eq!(r.ops.len(), 3);
    assert_eq!(bytes_of(&r.ops[0]), (1, dst.to_bytes()));
    assert!(matches!(r.ops[1], NlOp::Put(4, AttrValue::U32(7))));
    assert_eq!(bytes_of(&r.ops[2]), (5, gw.to_bytes()));
}

#[test]
fn route_without_gateway_has_universe_scope() {
    let r = Link::add_route_request(3, IpAddr::V4([10, 1, 0, 0]), 16, None);
    match r.header {
        ExtraHeader::Rt(h) => {
            assert_eq!(h.rtm_family, 2);
            assert_eq!(h.rtm_scope, 0);
        },
        _ => panic!("not a route header"),
    }
    assert_eq!(r.ops.len(), 2);
    let v4gw = Link::add_route_request(3, IpAddr::V4([10, 1, 0, 0]), 16, Some(IpAddr::V4([10, 0, 0, 1])));
    assert!(matches!(v4gw.header, ExtraHeader::Rt(h) if h.rtm_scope == 0));
}

#[test]
fn ipv4_address_is_also_the_local_address() {
    let a = IpAddr::V4([10, 0, 0, 2]);
    let r = Link::add_addr_request(9, a, 24);
    assert_eq!(r.msg_type, 20);
    assert_eq!(r.flags, 0x01 | 0x400 | 0x200 | 0x04);
    match r.header {
        ExtraHeader::Ifaddr(h) => {
            assert_eq!(h.ifa_family, 2);
            assert_eq!(h.ifa_prefixlen, 24);
            assert_eq!(h.ifa_flags, 0x80);
            assert_eq!(h.ifa_scope, 0);
            assert_eq!(h.ifa_index, 9);
        },
        _ => panic!("not an address header"),
    }
    assert_eq!(r.ops.len(), 2);
    assert_eq!(bytes_of(&r.ops[0]), (1, vec![10, 0, 0, 2]));
    assert_eq!(bytes_of(&r.ops[1]), (2, vec![10, 0, 0, 2]));
    let r6 = Link::add_addr_request(9, IpAddr::V6([0xfd00, 0, 0, 0, 0, 0, 0, 2]), 64);
    assert_eq!(r6.ops.len(), 1);
}

#[test]
fn set_up_and_down() {
    let up = Link::set_up_request(4, true);
    assert_eq!(up.msg_type, 16);
    assert_eq!(up.flags, 0x05);
    assert!(matches!(up.header, ExtraHeader::Ifinfo(h)
        if h.ifi_family == 0 && h.ifi_index == 4 && h.ifi_flags == 1 && h.ifi_change == 1));
    let down = Link::set_up_request(4, false);
    assert!(matches!(down.header, ExtraHeader::Ifinfo(h) if h.ifi_flags == 0 && h.ifi_change == 1));
    assert!(up.ops.is_empty());
}

#[test]
fn family_lookup_request() {
    let r = Link::family_id_request("wireguard");
    assert_eq!(r.msg_type, 0x10);
    assert_eq!(r.flags, 0x05);
    assert!(matches!(r.header, ExtraHeader::Genl(h) if h.cmd == 3 && h.version == 1 && h.reserved == 0));
    assert!(matches!(&r.ops[0], NlOp::Put(2, AttrValue::StrZ(n)) if n == "wireguard"));
}

#[test]
fn family_id_from_reply_attributes() {
    let name = ReplyAttr { atype: 2, payload_len: 10, value: 0x6977 };
    let id = ReplyAttr { atype: 1, payload_len: 2, value: 27 };
    assert!(matches!(Link::family_id_from_reply(&vec![name, id]), Ok(27)));
    assert!(matches!(Link::family_id_from_reply(&vec![name]), Err(FamilyIdError::NotSupported)));
    assert!(matches!(Link::family_id_from_reply(&vec![]), Err(FamilyIdError::NotSupported)));
    let short = ReplyAttr { atype: 1, payload_len: 1, value: 5 };
    assert!(matches!(
        Link::family_id_from_reply(&vec![id, short]),
        Err(FamilyIdError::InvalidAttribute)
    ));
    let later = ReplyAttr { atype: 1, payload_len: 4, value: 31 };
    assert!(matches!(Link::family_id_from_reply(&vec![id, later]), Ok(31)));
}

#[test]
fn wireguard_request_lists_device_then_peers() {
    let link = Link { name: "wg0".to_string() };
    let peer = Peer {
        public_key: [7u8; 32],
        endpoint: Some(SocketAddr::V4([192, 0, 2, 1], 51820)),
        psk: None,
        keepalive: Some(25),
        allowed_ips: vec![(IpAddr::V4([0, 0, 0, 0]), 0), (IpAddr::V6([0; 8]), 0)],
    };
    let r = link.set_wireguard_request(21, [1u8; 32], 51820, Some(0x42), &[peer]);
    assert_eq!(r.msg_type, 21);
    assert_eq!(r.flags, 0x05);
    assert!(matches!(r.header, ExtraHeader::Genl(h) if h.cmd == 1 && h.version == 1));
    let ops = &r.ops;
    assert!(matches!(&ops[0], NlOp::Put(2, AttrValue::StrZ(n)) if n == "wg0"));
    assert_eq!(bytes_of(&ops[1]), (3, vec![1u8; 32]));
    assert!(matches!(ops[2], NlOp::Put(6, AttrValue::U16(51820))));
    assert!(matches!(ops[3], NlOp::Put(7, AttrValue::U32(0x42))));
    assert!(matches!(ops[4], NlOp::Put(5, AttrValue::U32(1))));
    assert!(matches!(ops[5], NlOp::NestStart(8)));
    assert!(matches!(ops[6], NlOp::NestStart(0)));
    assert_eq!(bytes_of(&ops[7]), (1, vec![7u8; 32]));
    assert!(matches!(ops[8], NlOp::Put(4, AttrValue::Endpoint(SocketAddr::V4([192, 0, 2, 1], 51820)))));
    assert!(matches!(ops[9], NlOp::Put(5, AttrValue::U16(25))));
    assert!(matches!(ops[10], NlOp::NestStart(9)));
    assert!(matches!(ops[11], NlOp::NestStart(0)));
    assert!(matches!(ops[12], NlOp::Put(1, AttrValue::U16(2))));
    assert_eq!(bytes_of(&ops[13]), (2, vec![0, 0, 0, 0]));
    assert!(matches!(ops[14], NlOp::Put(3, AttrValue::U8(0))));
    assert!(matches!(ops[15], NlOp::NestEnd));
    assert!(matches!(ops[16], NlOp::NestStart(1)));
    assert!(matches!(ops[17], NlOp::Put(1, AttrValue::U16(10))));
    assert_eq!(bytes_of(&ops[18]), (2, vec![0u8; 16]));
    assert!(matches!(ops[19], NlOp::Put(3, AttrValue::U8(0))));
    assert!(matches!(ops[20], NlOp::NestEnd));
    assert!(matches!(ops[21], NlOp::NestEnd));
    assert!(matches!(ops[22], NlOp::NestEnd));
    assert!(matches!(ops[23], NlOp::NestEnd));
    assert_eq!(ops.len(), 24);
}

#[test]
fn wireguard_request_nests_balance() {
    let link = Link { name: "wg9".to_string() };
    let peers: Vec<Peer> = (0..3)
        .map(|i| Peer {
            public_key: [i as u8; 32],
            endpoint: None,
            psk: Some([9u8; 32]),
            keepalive: None,
            allowed_ips: vec![(IpAddr::V4([10, 0, i as u8, 0]), 24)],
        })
        .collect();
    let r = link.set_wireguard_request(30, [0u8; 32], 1, None, &peers);
    let mut depth: i64 = 0;
    for op in &r.ops {
        match op {
            NlOp::NestStart(_) => depth += 1,
            NlOp::NestEnd => depth -= 1,
            NlOp::Put(_, _) => {},
        }
        assert!(depth >= 0);
    }
    assert_eq!(depth, 0);
    assert!(matches!(&r.ops[7], NlOp::Put(2, AttrValue::Bytes(b)) if b == &vec![9u8; 32]));
}
