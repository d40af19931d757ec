//! The generic netlink request that configures a WireGuard device: its
//! private key, listen port, firewall mark and peers.
use vstd::prelude::*;

use crate::addr::{IpAddr, SocketAddr};
use crate::link::Link;
use crate::nlmsg::{
    attr_values, lemma_attr_values_concat, lemma_attr_values_nest, lemma_attr_values_one,
    balanced, lemma_balanced_concat, lemma_balanced_nest, lemma_flat_balanced, nest, ops_view,
    push_op, AttrData, AttrValue, ExtraHeader, Genlmsghdr, NlOp, Op, Request, NLM_F_ACK,
    NLM_F_REQUEST,
};

verus! {

/// The name of the WireGuard generic netlink family.
pub const WG_GENL_NAME: &'static str = "wireguard";

/// The version of the WireGuard generic netlink family.
pub const WG_GENL_VERSION: u8 = 1;

/// `WG_CMD_SET_DEVICE`.
pub const WG_CMD_SET_DEVICE: u8 = 1;

/// `WGDEVICE_F_REPLACE_PEERS`.
pub const WGDEVICE_F_REPLACE_PEERS: u32 = 1;

/// `WGDEVICE_A_IFNAME`.
pub const WGDEVICE_A_IFNAME: u16 = 2;

/// `WGDEVICE_A_PRIVATE_KEY`.
pub const WGDEVICE_A_PRIVATE_KEY: u16 = 3;

/// `WGDEVICE_A_FLAGS`.
pub const WGDEVICE_A_FLAGS: u16 = 5;

/// `WGDEVICE_A_LISTEN_PORT`.
pub const WGDEVICE_A_LISTEN_PORT: u16 = 6;

/// `WGDEVICE_A_FWMARK`.
pub const WGDEVICE_A_FWMARK: u16 = 7;

/// `WGDEVICE_A_PEERS`.
pub const WGDEVICE_A_PEERS: u16 = 8;

/// `WGPEER_A_PUBLIC_KEY`.
pub const WGPEER_A_PUBLIC_KEY: u16 = 1;

/// `WGPEER_A_PRESHARED_KEY`.
pub const WGPEER_A_PRESHARED_KEY: u16 = 2;

/// `WGPEER_A_ENDPOINT`.
pub const WGPEER_A_ENDPOINT: u16 = 4;

/// `WGPEER_A_PERSISTENT_KEEPALIVE_INTERVAL`.
pub const WGPEER_A_PERSISTENT_KEEPALIVE_INTERVAL: u16 = 5;

/// `WGPEER_A_ALLOWEDIPS`.
pub const WGPEER_A_ALLOWEDIPS: u16 = 9;

/// `WGALLOWEDIP_A_FAMILY`.
pub const WGALLOWEDIP_A_FAMILY: u16 = 1;

/// `WGALLOWEDIP_A_IPADDR`.
pub const WGALLOWEDIP_A_IPADDR: u16 = 2;

/// `WGALLOWEDIP_A_CIDR_MASK`.
pub const WGALLOWEDIP_A_CIDR_MASK: u16 = 3;

/// A WireGuard peer.
pub struct Peer {
    pub public_key: [u8; 32],
    pub endpoint: Option<SocketAddr>,
    pub psk: Option<[u8; 32]>,
    pub keepalive: Option<u16>,
    pub allowed_ips: Vec<(IpAddr, u8)>,
}

/// The nest that describes the allowed IP `ip`/`cidr` at position `j`.
pub open spec fn allowed_ip_ops(j: int, ip: IpAddr, cidr: u8) -> Seq<Op> {
    nest(
        j as u16,
        seq![
            Op::Put(WGALLOWEDIP_A_FAMILY, AttrData::U16(ip.spec_family() as u16)),
            Op::Put(WGALLOWEDIP_A_IPADDR, AttrData::Bytes(ip.octets())),
            Op::Put(WGALLOWEDIP_A_CIDR_MASK, AttrData::U8(cidr)),
        ],
    )
}

/// The nests of a list of allowed IPs, one after the other.
pub open spec fn allowed_ips_ops(ips: Seq<(IpAddr, u8)>) -> Seq<Op>
    decreases ips.len(),
{
    if ips.len() == 0 {
        Seq::empty()
    } else {
        allowed_ips_ops(ips.drop_last()) + allowed_ip_ops(
            ips.len() - 1,
            ips.last().0,
            ips.last().1,
        )
    }
}

/// The attributes of a peer before its allowed IPs.
pub open spec fn peer_head_ops(p: Peer) -> Seq<Op> {
    seq![Op::Put(WGPEER_A_PUBLIC_KEY, AttrData::Bytes(p.public_key@))] + (match p.psk {
        Some(k) => seq![Op::Put(WGPEER_A_PRESHARED_KEY, AttrData::Bytes(k@))],
        None => Seq::<Op>::empty(),
    }) + (match p.endpoint {
        Some(a) => seq![Op::Put(WGPEER_A_ENDPOINT, AttrData::Endpoint(a))],
        None => Seq::<Op>::empty(),
    }) + match p.keepalive {
        Some(k) => seq![Op::Put(WGPEER_A_PERSISTENT_KEEPALIVE_INTERVAL, AttrData::U16(k))],
        None => Seq::<Op>::empty(),
    }
}

/// The nest that describes the peer `p` at position `i`.
pub open spec fn peer_ops(i: int, p: Peer) -> Seq<Op> {
    nest(i as u16, peer_head_ops(p) + nest(WGPEER_A_ALLOWEDIPS, allowed_ips_ops(p.allowed_ips@)))
}

/// The nests of a list of peers, one after the other.
pub open spec fn peers_ops(peers: Seq<Peer>) -> Seq<Op>
    decreases peers.len(),
{
    if peers.len() == 0 {
        Seq::empty()
    } else {
        peers_ops(peers.drop_last()) + peer_ops(peers.len() - 1, peers.last())
    }
}

/// The attributes of the device before its peers.
pub open spec fn device_head_ops(
    name: Seq<char>,
    private_key: Seq<u8>,
    listen_port: u16,
    fwmark: Option<u32>,
) -> Seq<Op> {
    seq![
        Op::Put(WGDEVICE_A_IFNAME, AttrData::StrZ(name)),
        Op::Put(WGDEVICE_A_PRIVATE_KEY, AttrData::Bytes(private_key)),
        Op::Put(WGDEVICE_A_LISTEN_PORT, AttrData::U16(listen_port)),
    ] + (match fwmark {
        Some(m) => seq![Op::Put(WGDEVICE_A_FWMARK, AttrData::U32(m))],
        None => Seq::<Op>::empty(),
    }) + seq![Op::Put(WGDEVICE_A_FLAGS, AttrData::U32(WGDEVICE_F_REPLACE_PEERS))]
}

/// The attributes of the request that configures a WireGuard device: the
/// device's own, then all peers in one nest, which replace the peers it had.
pub open spec fn wireguard_ops(
    name: Seq<char>,
    private_key: Seq<u8>,
    listen_port: u16,
    fwmark: Option<u32>,
    peers: Seq<Peer>,
) -> Seq<Op> {
    device_head_ops(name, private_key, listen_port, fwmark) + nest(
        WGDEVICE_A_PEERS,
        peers_ops(peers),
    )
}

/// The header of the request that configures a WireGuard device.
pub open spec fn set_device_header() -> Genlmsghdr {
    Genlmsghdr { cmd: WG_CMD_SET_DEVICE, version: WG_GENL_VERSION, reserved: 0 }
}

/// The nests of allowed IPs open and close in pairs.
pub proof fn lemma_allowed_ips_balanced(ips: Seq<(IpAddr, u8)>)
    ensures
        balanced(allowed_ips_ops(ips)),
    decreases ips.len(),
{
    if ips.len() == 0 {
        lemma_flat_balanced(Seq::<Op>::empty());
    } else {
        lemma_allowed_ips_balanced(ips.drop_last());
        let ip = ips.last().0;
        let body = seq![
            Op::Put(WGALLOWEDIP_A_FAMILY, AttrData::U16(ip.spec_family() as u16)),
            Op::Put(WGALLOWEDIP_A_IPADDR, AttrData::Bytes(ip.octets())),
            Op::Put(WGALLOWEDIP_A_CIDR_MASK, AttrData::U8(ips.last().1)),
        ];
        lemma_flat_balanced(body);
        lemma_balanced_nest((ips.len() - 1) as u16, body);
        lemma_balanced_concat(
            allowed_ips_ops(ips.drop_last()),
            allowed_ip_ops(ips.len() - 1, ip, ips.last().1),
        );
    }
}

/// The nest of a peer is balanced.
pub proof fn lemma_peer_balanced(i: int, p: Peer)
    ensures
        balanced(peer_ops(i, p)),
{
    lemma_flat_balanced(peer_head_ops(p));
    lemma_allowed_ips_balanced(p.allowed_ips@);
    lemma_balanced_nest(WGPEER_A_ALLOWEDIPS, allowed_ips_ops(p.allowed_ips@));
    lemma_balanced_concat(
        peer_head_ops(p),
        nest(WGPEER_A_ALLOWEDIPS, allowed_ips_ops(p.allowed_ips@)),
    );
    lemma_balanced_nest(
        i as u16,
        peer_head_ops(p) + nest(WGPEER_A_ALLOWEDIPS, allowed_ips_ops(p.allowed_ips@)),
    );
}

/// The nests of a list of peers open and close in pairs.
pub proof fn lemma_peers_balanced(peers: Seq<Peer>)
    ensures
        balanced(peers_ops(peers)),
    decreases peers.len(),
{
    if peers.len() == 0 {
        lemma_flat_balanced(Seq::<Op>::empty());
    } else {
        lemma_peers_balanced(peers.drop_last());
        lemma_peer_balanced(peers.len() - 1, peers.last());
        lemma_balanced_concat(
            peers_ops(peers.drop_last()),
            peer_ops(peers.len() - 1, peers.last()),
        );
    }
}

/// Every nest that the WireGuard device request opens, it closes, in order.
pub proof fn lemma_wireguard_ops_balanced(
    name: Seq<char>,
    private_key: Seq<u8>,
    listen_port: u16,
    fwmark: Option<u32>,
    peers: Seq<Peer>,
)
    ensures
        balanced(wireguard_ops(name, private_key, listen_port, fwmark, peers)),
{
    lemma_flat_balanced(device_head_ops(name, private_key, listen_port, fwmark));
    lemma_peers_balanced(peers);
    lemma_balanced_nest(WGDEVICE_A_PEERS, peers_ops(peers));
    lemma_balanced_concat(
        device_head_ops(name, private_key, listen_port, fwmark),
        nest(WGDEVICE_A_PEERS, peers_ops(peers)),
    );
}

/// The steps of an optional attribute: one step, or none.
proof fn lemma_attr_values_opt(ops: Seq<Op>, t: u16)
    requires
        ops.len() <= 1,
    ensures
        ops.len() == 0 ==> attr_values(ops, t).len() == 0,
        ops.len() == 1 ==> attr_values(ops, t) == attr_values(seq![ops[0]], t),
{
    if ops.len() == 1 {
        assert(ops =~= seq![ops[0]]);
    }
}

/// Allowed IP nests put only family, address and mask attributes.
proof fn lemma_allowed_ips_other_attrs(ips: Seq<(IpAddr, u8)>, t: u16)
    requires
        t != WGALLOWEDIP_A_FAMILY && t != WGALLOWEDIP_A_IPADDR && t != WGALLOWEDIP_A_CIDR_MASK,
    ensures
        attr_values(allowed_ips_ops(ips), t).len() == 0,
    decreases ips.len(),
{
    if ips.len() > 0 {
        lemma_allowed_ips_other_attrs(ips.drop_last(), t);
        let ip = ips.last().0;
        let f = Op::Put(WGALLOWEDIP_A_FAMILY, AttrData::U16(ip.spec_family() as u16));
        let a = Op::Put(WGALLOWEDIP_A_IPADDR, AttrData::Bytes(ip.octets()));
        let m = Op::Put(WGALLOWEDIP_A_CIDR_MASK, AttrData::U8(ips.last().1));
        assert(seq![f, a, m] =~= seq![f] + seq![a] + seq![m]);
        lemma_attr_values_one(f, t);
        lemma_attr_values_one(a, t);
        lemma_attr_values_one(m, t);
        lemma_attr_values_concat(seq![f], seq![a], t);
        lemma_attr_values_concat(seq![f] + seq![a], seq![m], t);
        lemma_attr_values_nest((ips.len() - 1) as u16, seq![f, a, m], t);
        lemma_attr_values_concat(
            allowed_ips_ops(ips.drop_last()),
            allowed_ip_ops(ips.len() - 1, ip, ips.last().1),
            t,
        );
    }
}

/// The allowed IP nests carry each allowed IP's family, network-order address
/// and mask, one of each per allowed IP, in order.
pub proof fn lemma_allowed_ips_attrs(ips: Seq<(IpAddr, u8)>)
    ensures
        attr_values(allowed_ips_ops(ips), WGALLOWEDIP_A_FAMILY) == Seq::new(
            ips.len(),
            |j: int| AttrData::U16(ips[j].0.spec_family() as u16),
        ),
        attr_values(allowed_ips_ops(ips), WGALLOWEDIP_A_IPADDR) == Seq::new(
            ips.len(),
            |j: int| AttrData::Bytes(ips[j].0.octets()),
        ),
        attr_values(allowed_ips_ops(ips), WGALLOWEDIP_A_CIDR_MASK) == Seq::new(
            ips.len(),
            |j: int| AttrData::U8(ips[j].1),
        ),
    decreases ips.len(),
{
    if ips.len() > 0 {
        let init = ips.drop_last();
        lemma_allowed_ips_attrs(init);
        let ip = ips.last().0;
        let f = Op::Put(WGALLOWEDIP_A_FAMILY, AttrData::U16(ip.spec_family() as u16));
        let a = Op::Put(WGALLOWEDIP_A_IPADDR, AttrData::Bytes(ip.octets()));
        let m = Op::Put(WGALLOWEDIP_A_CIDR_MASK, AttrData::U8(ips.last().1));
        assert(seq![f, a, m] =~= seq![f] + seq![a] + seq![m]);
        assert forall|t: u16|
            t == WGALLOWEDIP_A_FAMILY || t == WGALLOWEDIP_A_IPADDR || t == WGALLOWEDIP_A_CIDR_MASK
                implies attr_values(allowed_ips_ops(ips), t) == attr_values(allowed_ips_ops(init), t)
            + attr_values(seq![f], t) + attr_values(seq![a], t) + attr_values(seq![m], t) by {
            lemma_attr_values_concat(seq![f], seq![a], t);
            lemma_attr_values_concat(seq![f] + seq![a], seq![m], t);
            lemma_attr_values_nest((ips.len() - 1) as u16, seq![f, a, m], t);
            lemma_attr_values_concat(
                allowed_ips_ops(init),
                allowed_ip_ops(ips.len() - 1, ip, ips.last().1),
                t,
            );
        }
        lemma_attr_values_one(f, WGALLOWEDIP_A_FAMILY);
        lemma_attr_values_one(a, WGALLOWEDIP_A_FAMILY);
        lemma_attr_values_one(m, WGALLOWEDIP_A_FAMILY);
        lemma_attr_values_one(f, WGALLOWEDIP_A_IPADDR);
        lemma_attr_values_one(a, WGALLOWEDIP_A_IPADDR);
        lemma_attr_values_one(m, WGALLOWEDIP_A_IPADDR);
        lemma_attr_values_one(f, WGALLOWEDIP_A_CIDR_MASK);
        lemma_attr_values_one(a, WGALLOWEDIP_A_CIDR_MASK);
        lemma_attr_values_one(m, WGALLOWEDIP_A_CIDR_MASK);
        assert(attr_values(allowed_ips_ops(ips), WGALLOWEDIP_A_FAMILY) =~= Seq::new(
            ips.len(),
            |j: int| AttrData::U16(ips[j].0.spec_family() as u16),
        ));
        assert(attr_values(allowed_ips_ops(ips), WGALLOWEDIP_A_IPADDR) =~= Seq::new(
            ips.len(),
            |j: int| AttrData::Bytes(ips[j].0.octets()),
        ));
        assert(attr_values(allowed_ips_ops(ips), WGALLOWEDIP_A_CIDR_MASK) =~= Seq::new(
            ips.len(),
            |j: int| AttrData::U8(ips[j].1),
        ));
    } else {
        assert(attr_values(allowed_ips_ops(ips), WGALLOWEDIP_A_FAMILY) =~= Seq::new(
            ips.len(),
            |j: int| AttrData::U16(ips[j].0.spec_family() as u16),
        ));
        assert(attr_values(allowed_ips_ops(ips), WGALLOWEDIP_A_IPADDR) =~= Seq::new(
            ips.len(),
            |j: int| AttrData::Bytes(ips[j].0.octets()),
        ));
        assert(attr_values(allowed_ips_ops(ips), WGALLOWEDIP_A_CIDR_MASK) =~= Seq::new(
            ips.len(),
            |j: int| AttrData::U8(ips[j].1),
        ));
    }
}

/// A peer's nest puts no device attribute: none of a type above the peer's own.
proof fn lemma_peer_no_device_attrs(i: int, p: Peer, t: u16)
    requires
        t > WGPEER_A_PERSISTENT_KEEPALIVE_INTERVAL,
    ensures
        attr_values(peer_ops(i, p), t).len() == 0,
{
    let pk = seq![Op::Put(WGPEER_A_PUBLIC_KEY, AttrData::Bytes(p.public_key@))];
    let psk = match p.psk {
        Some(k) => seq![Op::Put(WGPEER_A_PRESHARED_KEY, AttrData::Bytes(k@))],
        None => Seq::<Op>::empty(),
    };
    let ep = match p.endpoint {
        Some(a) => seq![Op::Put(WGPEER_A_ENDPOINT, AttrData::Endpoint(a))],
        None => Seq::<Op>::empty(),
    };
    let ka = match p.keepalive {
        Some(k) => seq![Op::Put(WGPEER_A_PERSISTENT_KEEPALIVE_INTERVAL, AttrData::U16(k))],
        None => Seq::<Op>::empty(),
    };
    let ips = nest(WGPEER_A_ALLOWEDIPS, allowed_ips_ops(p.allowed_ips@));
    assert(peer_head_ops(p) == pk + psk + ep + ka);
    lemma_attr_values_nest(i as u16, peer_head_ops(p) + ips, t);
    lemma_attr_values_concat(peer_head_ops(p), ips, t);
    lemma_attr_values_nest(WGPEER_A_ALLOWEDIPS, allowed_ips_ops(p.allowed_ips@), t);
    lemma_allowed_ips_other_attrs(p.allowed_ips@, t);
    lemma_attr_values_concat(pk + psk + ep, ka, t);
    lemma_attr_values_concat(pk + psk, ep, t);
    lemma_attr_values_concat(pk, psk, t);
    lemma_attr_values_one(Op::Put(WGPEER_A_PUBLIC_KEY, AttrData::Bytes(p.public_key@)), t);
    lemma_attr_values_opt(psk, t);
    lemma_attr_values_opt(ep, t);
    lemma_attr_values_opt(ka, t);
    if let Some(k) = p.psk {
        lemma_attr_values_one(Op::Put(WGPEER_A_PRESHARED_KEY, AttrData::Bytes(k@)), t);
    }
    if let Some(a) = p.endpoint {
        lemma_attr_values_one(Op::Put(WGPEER_A_ENDPOINT, AttrData::Endpoint(a)), t);
    }
    if let Some(k) = p.keepalive {
        lemma_attr_values_one(Op::Put(WGPEER_A_PERSISTENT_KEEPALIVE_INTERVAL, AttrData::U16(k)), t);
    }
}

proof fn lemma_peers_no_device_attrs(peers: Seq<Peer>, t: u16)
    requires
        t > WGPEER_A_PERSISTENT_KEEPALIVE_INTERVAL,
    ensures
        attr_values(peers_ops(peers), t).len() == 0,
    decreases peers.len(),
{
    if peers.len() > 0 {
        lemma_peers_no_device_attrs(peers.drop_last(), t);
        lemma_peer_no_device_attrs(peers.len() - 1, peers.last(), t);
        lemma_attr_values_concat(
            peers_ops(peers.drop_last()),
            peer_ops(peers.len() - 1, peers.last()),
            t,
        );
    }
}

/// The WireGuard device request sets the listen port once, and the firewall
/// mark once where one is given and not at all otherwise.
pub proof fn lemma_wireguard_port_fwmark(
    name: Seq<char>,
    private_key: Seq<u8>,
    listen_port: u16,
    fwmark: Option<u32>,
    peers: Seq<Peer>,
)
    ensures
        attr_values(wireguard_ops(name, private_key, listen_port, fwmark, peers), WGDEVICE_A_LISTEN_PORT)
            == seq![AttrData::U16(listen_port)],
        fwmark matches Some(m) ==> attr_values(
            wireguard_ops(name, private_key, listen_port, fwmark, peers),
            WGDEVICE_A_FWMARK,
        ) == seq![AttrData::U32(m)],
        fwmark is None ==> attr_values(
            wireguard_ops(name, private_key, listen_port, fwmark, peers),
            WGDEVICE_A_FWMARK,
        ).len() == 0,
{
    let head = device_head_ops(name, private_key, listen_port, fwmark);
    let h1 = seq![
        Op::Put(WGDEVICE_A_IFNAME, AttrData::StrZ(name)),
        Op::Put(WGDEVICE_A_PRIVATE_KEY, AttrData::Bytes(private_key)),
        Op::Put(WGDEVICE_A_LISTEN_PORT, AttrData::U16(listen_port)),
    ];
    let fw = match fwmark {
        Some(m) => seq![Op::Put(WGDEVICE_A_FWMARK, AttrData::U32(m))],
        None => Seq::<Op>::empty(),
    };
    let fl = seq![Op::Put(WGDEVICE_A_FLAGS, AttrData::U32(WGDEVICE_F_REPLACE_PEERS))];
    assert(h1 =~= seq![h1[0]] + seq![h1[1]] + seq![h1[2]]);
    assert(fl =~= seq![fl[0]]);
    assert forall|t: u16| t == WGDEVICE_A_LISTEN_PORT || t == WGDEVICE_A_FWMARK implies attr_values(
        wireguard_ops(name, private_key, listen_port, fwmark, peers),
        t,
    ) == attr_values(seq![h1[0]], t) + attr_values(seq![h1[1]], t) + attr_values(seq![h1[2]], t)
        + attr_values(fw, t) + attr_values(fl, t) by {
        lemma_peers_no_device_attrs(peers, t);
        lemma_attr_values_nest(WGDEVICE_A_PEERS, peers_ops(peers), t);
        lemma_attr_values_concat(head, nest(WGDEVICE_A_PEERS, peers_ops(peers)), t);
        lemma_attr_values_concat(seq![h1[0]], seq![h1[1]], t);
        lemma_attr_values_concat(seq![h1[0]] + seq![h1[1]], seq![h1[2]], t);
        lemma_attr_values_concat(h1, fw, t);
        lemma_attr_values_concat(h1 + fw, fl, t);
        assert(attr_values(wireguard_ops(name, private_key, listen_port, fwmark, peers), t) =~= attr_values(
            head,
            t,
        ));
    }
    lemma_attr_values_one(h1[0], WGDEVICE_A_LISTEN_PORT);
    lemma_attr_values_one(h1[1], WGDEVICE_A_LISTEN_PORT);
    lemma_attr_values_one(h1[2], WGDEVICE_A_LISTEN_PORT);
    lemma_attr_values_one(fl[0], WGDEVICE_A_LISTEN_PORT);
    lemma_attr_values_one(h1[0], WGDEVICE_A_FWMARK);
    lemma_attr_values_one(h1[1], WGDEVICE_A_FWMARK);
    lemma_attr_values_one(h1[2], WGDEVICE_A_FWMARK);
    lemma_attr_values_one(fl[0], WGDEVICE_A_FWMARK);
    lemma_attr_values_opt(fw, WGDEVICE_A_LISTEN_PORT);
    lemma_attr_values_opt(fw, WGDEVICE_A_FWMARK);
    if let Some(m) = fwmark {
        lemma_attr_values_one(Op::Put(WGDEVICE_A_FWMARK, AttrData::U32(m)), WGDEVICE_A_LISTEN_PORT);
        lemma_attr_values_one(Op::Put(WGDEVICE_A_FWMARK, AttrData::U32(m)), WGDEVICE_A_FWMARK);
        assert(attr_values(wireguard_ops(name, private_key, listen_port, fwmark, peers), WGDEVICE_A_FWMARK)
            =~= seq![AttrData::U32(m)]);
    }
    assert(attr_values(wireguard_ops(name, private_key, listen_port, fwmark, peers), WGDEVICE_A_LISTEN_PORT)
        =~= seq![AttrData::U16(listen_port)]);
}

/// The endpoint and keepalive attributes of a peer's nest: a peer with an
/// endpoint carries exactly one endpoint attribute, that endpoint, whatever its
/// address family, and one without carries none; likewise for the persistent
/// keepalive interval.
pub proof fn lemma_peer_endpoint_keepalive(i: int, p: Peer)
    ensures
        attr_values(peer_ops(i, p), WGPEER_A_ENDPOINT) == match p.endpoint {
            Some(a) => seq![AttrData::Endpoint(a)],
            None => Seq::<AttrData>::empty(),
        },
        attr_values(peer_ops(i, p), WGPEER_A_PERSISTENT_KEEPALIVE_INTERVAL) == match p.keepalive {
            Some(k) => seq![AttrData::U16(k)],
            None => Seq::<AttrData>::empty(),
        },
{
    let pk = seq![Op::Put(WGPEER_A_PUBLIC_KEY, AttrData::Bytes(p.public_key@))];
    let psk = match p.psk {
        Some(k) => seq![Op::Put(WGPEER_A_PRESHARED_KEY, AttrData::Bytes(k@))],
        None => Seq::<Op>::empty(),
    };
    let ep = match p.endpoint {
        Some(a) => seq![Op::Put(WGPEER_A_ENDPOINT, AttrData::Endpoint(a))],
        None => Seq::<Op>::empty(),
    };
    let ka = match p.keepalive {
        Some(k) => seq![Op::Put(WGPEER_A_PERSISTENT_KEEPALIVE_INTERVAL, AttrData::U16(k))],
        None => Seq::<Op>::empty(),
    };
    let ips = nest(WGPEER_A_ALLOWEDIPS, allowed_ips_ops(p.allowed_ips@));
    assert(peer_head_ops(p) == pk + psk + ep + ka);
    assert forall|t: u16|
        t == WGPEER_A_ENDPOINT || t == WGPEER_A_PERSISTENT_KEEPALIVE_INTERVAL implies attr_values(
        peer_ops(i, p),
        t,
    ) == attr_values(ep, t) + attr_values(ka, t) by {
        lemma_attr_values_nest(i as u16, peer_head_ops(p) + ips, t);
        lemma_attr_values_concat(peer_head_ops(p), ips, t);
        lemma_attr_values_nest(WGPEER_A_ALLOWEDIPS, allowed_ips_ops(p.allowed_ips@), t);
        lemma_allowed_ips_other_attrs(p.allowed_ips@, t);
        lemma_attr_values_concat(pk + psk + ep, ka, t);
        lemma_attr_values_concat(pk + psk, ep, t);
        lemma_attr_values_concat(pk, psk, t);
        lemma_attr_values_one(Op::Put(WGPEER_A_PUBLIC_KEY, AttrData::Bytes(p.public_key@)), t);
        lemma_attr_values_opt(psk, t);
        if let Some(k) = p.psk {
            lemma_attr_values_one(Op::Put(WGPEER_A_PRESHARED_KEY, AttrData::Bytes(k@)), t);
        }
        assert(attr_values(peer_ops(i, p), t) =~= attr_values(ep, t) + attr_values(ka, t));
    }
    lemma_attr_values_opt(ep, WGPEER_A_ENDPOINT);
    lemma_attr_values_opt(ep, WGPEER_A_PERSISTENT_KEEPALIVE_INTERVAL);
    lemma_attr_values_opt(ka, WGPEER_A_ENDPOINT);
    lemma_attr_values_opt(ka, WGPEER_A_PERSISTENT_KEEPALIVE_INTERVAL);
    if let Some(a) = p.endpoint {
        lemma_attr_values_one(Op::Put(WGPEER_A_ENDPOINT, AttrData::Endpoint(a)), WGPEER_A_ENDPOINT);
        lemma_attr_values_one(
            Op::Put(WGPEER_A_ENDPOINT, AttrData::Endpoint(a)),
            WGPEER_A_PERSISTENT_KEEPALIVE_INTERVAL,
        );
    }
    if let Some(k) = p.keepalive {
        lemma_attr_values_one(
            Op::Put(WGPEER_A_PERSISTENT_KEEPALIVE_INTERVAL, AttrData::U16(k)),
            WGPEER_A_ENDPOINT,
        );
        lemma_attr_values_one(
            Op::Put(WGPEER_A_PERSISTENT_KEEPALIVE_INTERVAL, AttrData::U16(k)),
            WGPEER_A_PERSISTENT_KEEPALIVE_INTERVAL,
        );
    }
    assert(attr_values(peer_ops(i, p), WGPEER_A_ENDPOINT) =~= match p.endpoint {
        Some(a) => seq![AttrData::Endpoint(a)],
        None => Seq::<AttrData>::empty(),
    });
    assert(attr_values(peer_ops(i, p), WGPEER_A_PERSISTENT_KEEPALIVE_INTERVAL) =~= match p.keepalive {
        Some(k) => seq![AttrData::U16(k)],
        None => Seq::<AttrData>::empty(),
    });
}

/// The endpoints of the peers that have one, in the order of the peers.
pub open spec fn peer_endpoints(peers: Seq<Peer>) -> Seq<AttrData>
    decreases peers.len(),
{
    if peers.len() == 0 {
        Seq::empty()
    } else {
        peer_endpoints(peers.drop_last()) + match peers.last().endpoint {
            Some(a) => seq![AttrData::Endpoint(a)],
            None => Seq::<AttrData>::empty(),
        }
    }
}

/// The endpoint attributes of the whole WireGuard device request are the
/// peers' endpoints, one for each peer that has one, in the order of the peers.
pub proof fn lemma_wireguard_endpoints(
    name: Seq<char>,
    private_key: Seq<u8>,
    listen_port: u16,
    fwmark: Option<u32>,
    peers: Seq<Peer>,
)
    ensures
        attr_values(wireguard_ops(name, private_key, listen_port, fwmark, peers), WGPEER_A_ENDPOINT)
            == peer_endpoints(peers),
{
    let t = WGPEER_A_ENDPOINT;
    lemma_peers_endpoints(peers);
    lemma_attr_values_nest(WGDEVICE_A_PEERS, peers_ops(peers), t);
    let head = device_head_ops(name, private_key, listen_port, fwmark);
    lemma_attr_values_concat(head, nest(WGDEVICE_A_PEERS, peers_ops(peers)), t);
    let h1 = seq![
        Op::Put(WGDEVICE_A_IFNAME, AttrData::StrZ(name)),
        Op::Put(WGDEVICE_A_PRIVATE_KEY, AttrData::Bytes(private_key)),
        Op::Put(WGDEVICE_A_LISTEN_PORT, AttrData::U16(listen_port)),
    ];
    let fw = match fwmark {
        Some(m) => seq![Op::Put(WGDEVICE_A_FWMARK, AttrData::U32(m))],
        None => Seq::<Op>::empty(),
    };
    let fl = seq![Op::Put(WGDEVICE_A_FLAGS, AttrData::U32(WGDEVICE_F_REPLACE_PEERS))];
    assert(h1 =~= seq![h1[0]] + seq![h1[1]] + seq![h1[2]]);
    lemma_attr_values_one(h1[0], t);
    lemma_attr_values_one(h1[1], t);
    lemma_attr_values_one(h1[2], t);
    lemma_attr_values_concat(seq![h1[0]], seq![h1[1]], t);
    lemma_attr_values_concat(seq![h1[0]] + seq![h1[1]], seq![h1[2]], t);
    lemma_attr_values_concat(h1, fw, t);
    lemma_attr_values_concat(h1 + fw, fl, t);
    lemma_attr_values_opt(fw, t);
    if let Some(m) = fwmark {
        lemma_attr_values_one(Op::Put(WGDEVICE_A_FWMARK, AttrData::U32(m)), t);
    }
    lemma_attr_values_one(fl[0], t);
    assert(fl =~= seq![fl[0]]);
    assert(attr_values(head, t).len() == 0);
    assert(attr_values(wireguard_ops(name, private_key, listen_port, fwmark, peers), t) =~= peer_endpoints(peers));
}

proof fn lemma_peers_endpoints(peers: Seq<Peer>)
    ensures
        attr_values(peers_ops(peers), WGPEER_A_ENDPOINT) == peer_endpoints(peers),
    decreases peers.len(),
{
    if peers.len() == 0 {
        assert(attr_values(peers_ops(peers), WGPEER_A_ENDPOINT) =~= peer_endpoints(peers));
    } else {
        lemma_peers_endpoints(peers.drop_last());
        lemma_peer_endpoint_keepalive(peers.len() - 1, peers.last());
        lemma_attr_values_concat(
            peers_ops(peers.drop_last()),
            peer_ops(peers.len() - 1, peers.last()),
            WGPEER_A_ENDPOINT,
        );
    }
}

/// Appends the nests of the allowed IPs of a peer.
fn push_allowed_ips(ops: &mut Vec<NlOp>, ips: &Vec<(IpAddr, u8)>)
    ensures
        ops_view(final(ops)@) == ops_view(old(ops)@) + allowed_ips_ops(ips@),
{
    let ghost start = ops_view(ops@);
    let mut j: usize = 0;
    assert(ips@.take(0) =~= Seq::<(IpAddr, u8)>::empty());
    assert(start + allowed_ips_ops(ips@.take(0)) =~= start);
    while j < ips.len()
        invariant
            j <= ips@.len(),
            ops_view(ops@) == start + allowed_ips_ops(ips@.take(j as int)),
        decreases ips@.len() - j,
    {
        let (ip, cidr) = ips[j];
        let ghost before = ops_view(ops@);
        push_op(ops, NlOp::NestStart(j as u16));
        push_op(ops, NlOp::Put(WGALLOWEDIP_A_FAMILY, AttrValue::U16(ip.family() as u16)));
        push_op(ops, NlOp::Put(WGALLOWEDIP_A_IPADDR, AttrValue::Bytes(ip.to_bytes())));
        push_op(ops, NlOp::Put(WGALLOWEDIP_A_CIDR_MASK, AttrValue::U8(cidr)));
        push_op(ops, NlOp::NestEnd);
        proof {
            let t = ips@.take(j + 1);
            assert(t.drop_last() =~= ips@.take(j as int));
            assert(t.last() == ips@[j as int]);
            assert(ops_view(ops@) =~= before + allowed_ip_ops(j as int, ip, cidr));
        }
        j = j + 1;
    }
    assert(ips@.take(ips@.len() as int) =~= ips@);
}

/// Appends the attributes of a peer before its allowed IPs.
fn push_peer_head(ops: &mut Vec<NlOp>, peer: &Peer)
    ensures
        ops_view(final(ops)@) == ops_view(old(ops)@) + peer_head_ops(*peer),
{
    let ghost before = ops_view(ops@);
    push_op(
        ops,
        NlOp::Put(
            WGPEER_A_PUBLIC_KEY,
            AttrValue::Bytes(vstd::slice::slice_to_vec(peer.public_key.as_slice())),
        ),
    );
    if let Some(psk) = &peer.psk {
        push_op(
            ops,
            NlOp::Put(
                WGPEER_A_PRESHARED_KEY,
                AttrValue::Bytes(vstd::slice::slice_to_vec(psk.as_slice())),
            ),
        );
    }
    if let Some(addr) = peer.endpoint {
        push_op(ops, NlOp::Put(WGPEER_A_ENDPOINT, AttrValue::Endpoint(addr)));
    }
    if let Some(keepalive) = peer.keepalive {
        push_op(ops, NlOp::Put(WGPEER_A_PERSISTENT_KEEPALIVE_INTERVAL, AttrValue::U16(keepalive)));
    }
    assert(ops_view(ops@) =~= before + peer_head_ops(*peer));
}

/// Appends the nest of the peer at position `i`.
fn push_peer(ops: &mut Vec<NlOp>, i: usize, peer: &Peer)
    ensures
        ops_view(final(ops)@) == ops_view(old(ops)@) + peer_ops(i as int, *peer),
{
    let ghost before = ops_view(ops@);
    push_op(ops, NlOp::NestStart(i as u16));
    push_peer_head(ops, peer);
    push_op(ops, NlOp::NestStart(WGPEER_A_ALLOWEDIPS));
    push_allowed_ips(ops, &peer.allowed_ips);
    push_op(ops, NlOp::NestEnd);
    push_op(ops, NlOp::NestEnd);
    assert(ops_view(ops@) =~= before + peer_ops(i as int, *peer));
}

impl Link {
    /// The request that configures this link as a WireGuard device of the
    /// generic netlink family `family`.
    pub fn set_wireguard_request(
        &self,
        family: u16,
        private_key: [u8; 32],
        listen_port: u16,
        fwmark: Option<u32>,
        peer_list: &[Peer],
    ) -> (r: Request)
        ensures
            r.msg_type == family,
            r.flags == NLM_F_REQUEST | NLM_F_ACK,
            r.header == ExtraHeader::Genl(set_device_header()),
            ops_view(r.ops@) == wireguard_ops(
                self.name@,
                private_key@,
                listen_port,
                fwmark,
                peer_list@,
            ),
            balanced(ops_view(r.ops@)),
            attr_values(ops_view(r.ops@), WGPEER_A_ENDPOINT) == peer_endpoints(peer_list@),
            attr_values(ops_view(r.ops@), WGDEVICE_A_LISTEN_PORT) == seq![AttrData::U16(listen_port)],
            fwmark matches Some(m) ==> attr_values(ops_view(r.ops@), WGDEVICE_A_FWMARK) == seq![
                AttrData::U32(m),
            ],
            fwmark is None ==> attr_values(ops_view(r.ops@), WGDEVICE_A_FWMARK).len() == 0,
    {
        proof {
            lemma_wireguard_endpoints(self.name@, private_key@, listen_port, fwmark, peer_list@);
            lemma_wireguard_port_fwmark(self.name@, private_key@, listen_port, fwmark, peer_list@);
        }
        let mut ops: Vec<NlOp> = Vec::new();
        push_op(&mut ops, NlOp::Put(WGDEVICE_A_IFNAME, AttrValue::StrZ(self.name.clone())));
        push_op(
            &mut ops,
            NlOp::Put(
                WGDEVICE_A_PRIVATE_KEY,
                AttrValue::Bytes(vstd::slice::slice_to_vec(private_key.as_slice())),
            ),
        );
        push_op(&mut ops, NlOp::Put(WGDEVICE_A_LISTEN_PORT, AttrValue::U16(listen_port)));
        if let Some(m) = fwmark {
            push_op(&mut ops, NlOp::Put(WGDEVICE_A_FWMARK, AttrValue::U32(m)));
        }
        push_op(&mut ops, NlOp::Put(WGDEVICE_A_FLAGS, AttrValue::U32(WGDEVICE_F_REPLACE_PEERS)));
        let ghost head = ops_view(ops@);
        assert(head =~= device_head_ops(self.name@, private_key@, listen_port, fwmark));
        push_op(&mut ops, NlOp::NestStart(WGDEVICE_A_PEERS));
        let ghost open = ops_view(ops@);
        let mut i: usize = 0;
        assert(peer_list@.take(0) =~= Seq::<Peer>::empty());
        assert(open + peers_ops(peer_list@.take(0)) =~= open);
        while i < peer_list.len()
            invariant
                i <= peer_list@.len(),
                ops_view(ops@) == open + peers_ops(peer_list@.take(i as int)),
            decreases peer_list@.len() - i,
        {
            push_peer(&mut ops, i, &peer_list[i]);
            proof {
                let t = peer_list@.take(i + 1);
                assert(t.drop_last() =~= peer_list@.take(i as int));
                assert(t.last() == peer_list@[i as int]);
                assert(ops_view(ops@) =~= open + peers_ops(t));
            }
            i = i + 1;
        }
        push_op(&mut ops, NlOp::NestEnd);
        assert(peer_list@.take(peer_list@.len() as int) =~= peer_list@);
        assert(ops_view(ops@) =~= wireguard_ops(
            self.name@,
            private_key@,
            listen_port,
            fwmark,
            peer_list@,
        ));
        proof {
            lemma_wireguard_ops_balanced(self.name@, private_key@, listen_port, fwmark, peer_list@);
        }
        Request {
            msg_type: family,
            flags: NLM_F_REQUEST | NLM_F_ACK,
            header: ExtraHeader::Genl(
                Genlmsghdr { cmd: WG_CMD_SET_DEVICE, version: WG_GENL_VERSION, reserved: 0 },
            ),
            ops,
        }
    }
}

} // verus!
