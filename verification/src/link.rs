//! The requests that create, configure and delete a WireGuard network link
//! over rtnetlink and generic netlink.
use vstd::prelude::*;

use crate::addr::{IpAddr, AF_UNSPEC};
use crate::nlmsg::{
    attr_values, balanced, lemma_attr_values_concat, lemma_attr_values_one, lemma_flat_balanced,
    ops_view, push_op, zero_ifinfo, AttrData, AttrValue, ExtraHeader, Genlmsghdr, Ifaddrmsg,
    Ifinfomsg, NlOp, Op, Request, Rtmsg, NLM_F_ACK, NLM_F_ATOMIC, NLM_F_CREATE, NLM_F_DUMP, NLM_F_EXCL,
    NLM_F_REQUEST,
};

verus! {

/// `RTM_NEWLINK`.
pub const RTM_NEWLINK: u16 = 16;

/// `RTM_NEWADDR`.
pub const RTM_NEWADDR: u16 = 20;

/// `RTM_NEWROUTE`.
pub const RTM_NEWROUTE: u16 = 24;

/// `RTPROT_STATIC`: a route installed by the administrator.
pub const RTPROT_STATIC: u8 = 4;

/// `RT_TABLE_MAIN`.
pub const RT_TABLE_MAIN: u8 = 254;

/// `RTN_UNICAST`.
pub const RTN_UNICAST: u8 = 1;

/// `RT_SCOPE_UNIVERSE`.
pub const RT_SCOPE_UNIVERSE: u8 = 0;

/// `RT_SCOPE_LINK`.
pub const RT_SCOPE_LINK: u8 = 253;

/// `RTA_DST`.
pub const RTA_DST: u16 = 1;

/// `RTA_OIF`.
pub const RTA_OIF: u16 = 4;

/// `RTA_GATEWAY`.
pub const RTA_GATEWAY: u16 = 5;

/// `IFA_ADDRESS`.
pub const IFA_ADDRESS: u16 = 1;

/// `IFA_LOCAL`.
pub const IFA_LOCAL: u16 = 2;

/// `IFA_F_PERMANENT`.
pub const IFA_F_PERMANENT: u8 = 0x80;

/// `IFF_UP`.
pub const IFF_UP: u32 = 1;

/// `IFLA_IFNAME`.
pub const IFLA_IFNAME: u16 = 3;

/// `IFLA_LINKINFO`.
pub const IFLA_LINKINFO: u16 = 18;

/// `GENL_ID_CTRL`: the generic netlink controller.
pub const GENL_ID_CTRL: u16 = 0x10;

/// `CTRL_CMD_GETFAMILY`.
pub const CTRL_CMD_GETFAMILY: u8 = 3;

/// `CTRL_ATTR_FAMILY_ID`.
pub const CTRL_ATTR_FAMILY_ID: u16 = 1;

/// `CTRL_ATTR_FAMILY_NAME`.
pub const CTRL_ATTR_FAMILY_NAME: u16 = 2;

/// The flags of the requests that create or delete a link.
pub const LINK_FLAGS: u16 = NLM_F_REQUEST | NLM_F_ACK | NLM_F_ATOMIC | NLM_F_CREATE | NLM_F_EXCL
    | NLM_F_DUMP;

/// A network link, known by its interface name.
pub struct Link {
    pub name: String,
}

/// The link information that makes a new link a WireGuard link: a nested
/// `IFLA_INFO_KIND` attribute that holds "wireguard".
pub open spec fn linkinfo_wireguard() -> Seq<u8> {
    seq![
        0x0du8, 0x00u8, 0x01u8, 0x00u8,
        0x77u8, 0x69u8, 0x72u8, 0x65u8, 0x67u8, 0x75u8, 0x61u8, 0x72u8, 0x64u8,
        0x00u8, 0x00u8, 0x00u8,
    ]
}

/// The attributes of the request that creates a link.
pub open spec fn create_ops(name: Option<Seq<char>>) -> Seq<Op> {
    (match name {
        Some(n) => seq![Op::Put(IFLA_IFNAME, AttrData::Str(n))],
        None => Seq::<Op>::empty(),
    }) + seq![Op::Put(IFLA_LINKINFO, AttrData::Bytes(linkinfo_wireguard()))]
}

/// The header of the request that adds a route.
pub open spec fn route_header(dst: IpAddr, prefix: u8, gateway: Option<IpAddr>) -> Rtmsg {
    Rtmsg {
        rtm_family: dst.spec_family(),
        rtm_dst_len: prefix,
        rtm_src_len: 0,
        rtm_tos: 0,
        rtm_table: RT_TABLE_MAIN,
        rtm_protocol: RTPROT_STATIC,
        rtm_scope: if gateway is Some && dst.spec_is_ipv6() {
            RT_SCOPE_LINK
        } else {
            RT_SCOPE_UNIVERSE
        },
        rtm_type: RTN_UNICAST,
        rtm_flags: 0,
    }
}

/// The attributes of the request that adds a route.
pub open spec fn route_ops(ifindex: u32, dst: IpAddr, gateway: Option<IpAddr>) -> Seq<Op> {
    seq![
        Op::Put(RTA_DST, AttrData::Bytes(dst.octets())),
        Op::Put(RTA_OIF, AttrData::U32(ifindex)),
    ] + match gateway {
        Some(g) => seq![Op::Put(RTA_GATEWAY, AttrData::Bytes(g.octets()))],
        None => Seq::<Op>::empty(),
    }
}

/// The header of the request that adds an address.
pub open spec fn addr_header(ifindex: u32, addr: IpAddr, prefix: u8) -> Ifaddrmsg {
    Ifaddrmsg {
        ifa_family: addr.spec_family(),
        ifa_prefixlen: prefix,
        ifa_flags: IFA_F_PERMANENT,
        ifa_scope: RT_SCOPE_UNIVERSE,
        ifa_index: ifindex,
    }
}

/// The attributes of the request that adds an address: the address, and for
/// IPv4 the local address as well.
pub open spec fn addr_ops(addr: IpAddr) -> Seq<Op> {
    seq![Op::Put(IFA_ADDRESS, AttrData::Bytes(addr.octets()))] + if addr.spec_is_ipv6() {
        Seq::<Op>::empty()
    } else {
        seq![Op::Put(IFA_LOCAL, AttrData::Bytes(addr.octets()))]
    }
}

/// The header of the request that sets a link up or down.
pub open spec fn set_up_header(ifindex: u32, up: bool) -> Ifinfomsg {
    Ifinfomsg {
        ifi_family: AF_UNSPEC,
        ifi_type: 0,
        ifi_index: ifindex as i32,
        ifi_flags: if up {
            IFF_UP
        } else {
            0
        },
        ifi_change: IFF_UP,
    }
}

/// The header of the request that asks the controller for a family.
pub open spec fn getfamily_header() -> Genlmsghdr {
    Genlmsghdr { cmd: CTRL_CMD_GETFAMILY, version: 1, reserved: 0 }
}

/// An attribute of the controller's reply, as far as the family lookup reads it:
/// its type, the length of its payload, and its payload read as a `u16`.
#[derive(Clone, Copy, Debug)]
pub struct ReplyAttr {
    pub atype: u16,
    pub payload_len: u16,
    pub value: u16,
}

/// Why a family lookup failed.
#[derive(Clone, Copy, Debug)]
pub enum FamilyIdError {
    /// A family id attribute was too short to hold a `u16`; the reply is rejected.
    InvalidAttribute,
    /// The reply named no family id: the family is not supported.
    NotSupported,
}

/// The family id that the attributes of a reply give, read in order: a family
/// id attribute too short for a `u16` stops the reading with an error; of the
/// others the last one counts.
pub open spec fn family_scan(attrs: Seq<ReplyAttr>) -> Result<Option<u16>, ()>
    decreases attrs.len(),
{
    if attrs.len() == 0 {
        Ok(None)
    } else {
        match family_scan(attrs.drop_last()) {
            Err(e) => Err(e),
            Ok(found) => {
                let a = attrs.last();
                if a.atype == CTRL_ATTR_FAMILY_ID {
                    if a.payload_len < 2 {
                        Err(())
                    } else {
                        Ok(Some(a.value))
                    }
                } else {
                    Ok(found)
                }
            },
        }
    }
}

/// The attributes of a request that creates a link: the name once where
/// there is one, none otherwise, and the WireGuard link information once.
pub proof fn lemma_create_ops_attrs(name: Option<Seq<char>>)
    ensures
        name matches Some(n) ==> attr_values(create_ops(name), IFLA_IFNAME) == seq![AttrData::Str(n)],
        name is None ==> attr_values(create_ops(name), IFLA_IFNAME).len() == 0,
        attr_values(create_ops(name), IFLA_LINKINFO) == seq![AttrData::Bytes(linkinfo_wireguard())],
{
    let head = match name {
        Some(n) => seq![Op::Put(IFLA_IFNAME, AttrData::Str(n))],
        None => Seq::<Op>::empty(),
    };
    let li = Op::Put(IFLA_LINKINFO, AttrData::Bytes(linkinfo_wireguard()));
    lemma_attr_values_concat(head, seq![li], IFLA_IFNAME);
    lemma_attr_values_concat(head, seq![li], IFLA_LINKINFO);
    lemma_attr_values_one(li, IFLA_IFNAME);
    lemma_attr_values_one(li, IFLA_LINKINFO);
    if let Some(n) = name {
        lemma_attr_values_one(Op::Put(IFLA_IFNAME, AttrData::Str(n)), IFLA_IFNAME);
        lemma_attr_values_one(Op::Put(IFLA_IFNAME, AttrData::Str(n)), IFLA_LINKINFO);
        assert(attr_values(create_ops(name), IFLA_IFNAME) =~= seq![AttrData::Str(n)]);
    } else {
        assert(attr_values(head, IFLA_IFNAME) =~= Seq::<AttrData>::empty());
        assert(attr_values(head, IFLA_LINKINFO) =~= Seq::<AttrData>::empty());
    }
    assert(attr_values(create_ops(name), IFLA_LINKINFO) =~= seq![AttrData::Bytes(linkinfo_wireguard())]);
}

/// The attributes of a route request: the destination's network-order bytes
/// once, the interface index once, and the gateway's bytes once where there is
/// a gateway, whatever the address families; no gateway attribute otherwise.
pub proof fn lemma_route_ops_attrs(ifindex: u32, dst: IpAddr, gateway: Option<IpAddr>)
    ensures
        attr_values(route_ops(ifindex, dst, gateway), RTA_DST) == seq![AttrData::Bytes(dst.octets())],
        attr_values(route_ops(ifindex, dst, gateway), RTA_OIF) == seq![AttrData::U32(ifindex)],
        gateway matches Some(g) ==> attr_values(route_ops(ifindex, dst, gateway), RTA_GATEWAY)
            == seq![AttrData::Bytes(g.octets())],
        gateway is None ==> attr_values(route_ops(ifindex, dst, gateway), RTA_GATEWAY).len() == 0,
{
    let d = Op::Put(RTA_DST, AttrData::Bytes(dst.octets()));
    let o = Op::Put(RTA_OIF, AttrData::U32(ifindex));
    let tail = match gateway {
        Some(g) => seq![Op::Put(RTA_GATEWAY, AttrData::Bytes(g.octets()))],
        None => Seq::<Op>::empty(),
    };
    assert(route_ops(ifindex, dst, gateway) =~= seq![d] + seq![o] + tail);
    assert forall|t: u16| t == RTA_DST || t == RTA_OIF || t == RTA_GATEWAY implies
        attr_values(route_ops(ifindex, dst, gateway), t) == attr_values(seq![d], t) + attr_values(
            seq![o],
            t,
        ) + attr_values(tail, t) by {
        lemma_attr_values_concat(seq![d], seq![o], t);
        lemma_attr_values_concat(seq![d] + seq![o], tail, t);
    }
    lemma_attr_values_one(d, RTA_DST);
    lemma_attr_values_one(o, RTA_DST);
    lemma_attr_values_one(d, RTA_OIF);
    lemma_attr_values_one(o, RTA_OIF);
    lemma_attr_values_one(d, RTA_GATEWAY);
    lemma_attr_values_one(o, RTA_GATEWAY);
    match gateway {
        Some(g) => {
            let gw = Op::Put(RTA_GATEWAY, AttrData::Bytes(g.octets()));
            lemma_attr_values_one(gw, RTA_DST);
            lemma_attr_values_one(gw, RTA_OIF);
            lemma_attr_values_one(gw, RTA_GATEWAY);
        },
        None => {
            assert(attr_values(tail, RTA_DST).len() == 0);
        },
    }
    assert(attr_values(route_ops(ifindex, dst, gateway), RTA_DST) =~= seq![AttrData::Bytes(dst.octets())]);
    assert(attr_values(route_ops(ifindex, dst, gateway), RTA_OIF) =~= seq![AttrData::U32(ifindex)]);
    if let Some(g) = gateway {
        assert(attr_values(route_ops(ifindex, dst, gateway), RTA_GATEWAY) =~= seq![AttrData::Bytes(g.octets())]);
    }
}

/// The attributes of an address request: the address once, and for IPv4 the
/// local address once as well; an IPv6 address has no local address attribute.
pub proof fn lemma_addr_ops_attrs(addr: IpAddr)
    ensures
        attr_values(addr_ops(addr), IFA_ADDRESS) == seq![AttrData::Bytes(addr.octets())],
        !addr.spec_is_ipv6() ==> attr_values(addr_ops(addr), IFA_LOCAL) == seq![
            AttrData::Bytes(addr.octets()),
        ],
        addr.spec_is_ipv6() ==> attr_values(addr_ops(addr), IFA_LOCAL).len() == 0,
{
    let a = Op::Put(IFA_ADDRESS, AttrData::Bytes(addr.octets()));
    let tail = if addr.spec_is_ipv6() {
        Seq::<Op>::empty()
    } else {
        seq![Op::Put(IFA_LOCAL, AttrData::Bytes(addr.octets()))]
    };
    assert(addr_ops(addr) =~= seq![a] + tail);
    lemma_attr_values_concat(seq![a], tail, IFA_ADDRESS);
    lemma_attr_values_concat(seq![a], tail, IFA_LOCAL);
    lemma_attr_values_one(a, IFA_ADDRESS);
    lemma_attr_values_one(a, IFA_LOCAL);
    if !addr.spec_is_ipv6() {
        lemma_attr_values_one(Op::Put(IFA_LOCAL, AttrData::Bytes(addr.octets())), IFA_ADDRESS);
        lemma_attr_values_one(Op::Put(IFA_LOCAL, AttrData::Bytes(addr.octets())), IFA_LOCAL);
        assert(attr_values(addr_ops(addr), IFA_LOCAL) =~= seq![AttrData::Bytes(addr.octets())]);
    }
    assert(attr_values(addr_ops(addr), IFA_ADDRESS) =~= seq![AttrData::Bytes(addr.octets())]);
}

impl Link {
    /// The request that creates a link of the given type, under the given name
    /// where there is one. Only WireGuard links can be created.
    pub fn create_request(typ: &str, name: &Option<String>) -> (r: Request)
        requires
            typ@ == "wireguard"@,
        ensures
            r.msg_type == RTM_NEWLINK,
            r.flags == LINK_FLAGS,
            r.header == ExtraHeader::Ifinfo(zero_ifinfo()),
            ops_view(r.ops@) == create_ops(
                match name {
                    Some(n) => Some(n@),
                    None => None,
                },
            ),
            balanced(ops_view(r.ops@)),
            name matches Some(n) ==> attr_values(ops_view(r.ops@), IFLA_IFNAME) == seq![
                AttrData::Str(n@),
            ],
            name is None ==> attr_values(ops_view(r.ops@), IFLA_IFNAME).len() == 0,
            attr_values(ops_view(r.ops@), IFLA_LINKINFO) == seq![
                AttrData::Bytes(linkinfo_wireguard()),
            ],
    {
        proof {
            lemma_create_ops_attrs(
                match name {
                    Some(n) => Some(n@),
                    None => None,
                },
            );
        }
        let mut ops: Vec<NlOp> = Vec::new();
        if let Some(n) = name {
            push_op(&mut ops, NlOp::Put(IFLA_IFNAME, AttrValue::Str(n.clone())));
        }
        let info: Vec<u8> = vec![
            0x0d, 0x00, 0x01, 0x00,
            0x77, 0x69, 0x72, 0x65, 0x67, 0x75, 0x61, 0x72, 0x64,
            0x00, 0x00, 0x00,
        ];
        assert(info@ =~= linkinfo_wireguard());
        push_op(&mut ops, NlOp::Put(IFLA_LINKINFO, AttrValue::Bytes(info)));
        assert(ops_view(ops@) =~= create_ops(
            match name {
                Some(n) => Some(n@),
                None => None,
            },
        ));
        proof {
            lemma_flat_balanced(ops_view(ops@));
        }
        Request {
            msg_type: RTM_NEWLINK,
            flags: LINK_FLAGS,
            header: ExtraHeader::Ifinfo(
                Ifinfomsg { ifi_family: 0, ifi_type: 0, ifi_index: 0, ifi_flags: 0, ifi_change: 0 },
            ),
            ops,
        }
    }

    /// The request that deletes this link. It is sent as `RTM_NEWLINK`, with
    /// the flags of the request that creates a link.
    pub fn delete_request(&self) -> (r: Request)
        ensures
            r.msg_type == RTM_NEWLINK,
            r.flags == LINK_FLAGS,
            r.header == ExtraHeader::Ifinfo(zero_ifinfo()),
            ops_view(r.ops@) == seq![Op::Put(IFLA_IFNAME, AttrData::Str(self.name@))],
            balanced(ops_view(r.ops@)),
    {
        let mut ops: Vec<NlOp> = Vec::new();
        push_op(&mut ops, NlOp::Put(IFLA_IFNAME, AttrValue::Str(self.name.clone())));
        assert(ops_view(ops@) =~= seq![Op::Put(IFLA_IFNAME, AttrData::Str(self.name@))]);
        proof {
            lemma_flat_balanced(ops_view(ops@));
        }
        Request {
            msg_type: RTM_NEWLINK,
            flags: LINK_FLAGS,
            header: ExtraHeader::Ifinfo(
                Ifinfomsg { ifi_family: 0, ifi_type: 0, ifi_index: 0, ifi_flags: 0, ifi_change: 0 },
            ),
            ops,
        }
    }

    /// The request that adds a route to `dst`/`prefix` through the interface
    /// with index `ifindex`, by way of `gateway` where there is one.
    pub fn add_route_request(ifindex: u32, dst: IpAddr, prefix: u8, gateway: Option<IpAddr>) -> (r:
        Request)
        ensures
            r.msg_type == RTM_NEWROUTE,
            r.flags == NLM_F_REQUEST | NLM_F_CREATE | NLM_F_ACK,
            r.header == ExtraHeader::Rt(route_header(dst, prefix, gateway)),
            ops_view(r.ops@) == route_ops(ifindex, dst, gateway),
            balanced(ops_view(r.ops@)),
            attr_values(ops_view(r.ops@), RTA_DST) == seq![AttrData::Bytes(dst.octets())],
            attr_values(ops_view(r.ops@), RTA_OIF) == seq![AttrData::U32(ifindex)],
            gateway matches Some(g) ==> attr_values(ops_view(r.ops@), RTA_GATEWAY) == seq![
                AttrData::Bytes(g.octets()),
            ],
            gateway is None ==> attr_values(ops_view(r.ops@), RTA_GATEWAY).len() == 0,
    {
        proof {
            lemma_route_ops_attrs(ifindex, dst, gateway);
        }
        let scope: u8 = if gateway.is_some() && dst.is_ipv6() {
            RT_SCOPE_LINK
        } else {
            RT_SCOPE_UNIVERSE
        };
        let rtm = Rtmsg {
            rtm_family: dst.family(),
            rtm_dst_len: prefix,
            rtm_src_len: 0,
            rtm_tos: 0,
            rtm_table: RT_TABLE_MAIN,
            rtm_protocol: RTPROT_STATIC,
            rtm_scope: scope,
            rtm_type: RTN_UNICAST,
            rtm_flags: 0,
        };
        let mut ops: Vec<NlOp> = Vec::new();
        push_op(&mut ops, NlOp::Put(RTA_DST, AttrValue::Bytes(dst.to_bytes())));
        push_op(&mut ops, NlOp::Put(RTA_OIF, AttrValue::U32(ifindex)));
        if let Some(g) = gateway {
            push_op(&mut ops, NlOp::Put(RTA_GATEWAY, AttrValue::Bytes(g.to_bytes())));
        }
        assert(ops_view(ops@) =~= route_ops(ifindex, dst, gateway));
        proof {
            lemma_flat_balanced(ops_view(ops@));
        }
        Request {
            msg_type: RTM_NEWROUTE,
            flags: NLM_F_REQUEST | NLM_F_CREATE | NLM_F_ACK,
            header: ExtraHeader::Rt(rtm),
            ops,
        }
    }

    /// The request that adds `addr`/`prefix` to the interface with index `ifindex`.
    pub fn add_addr_request(ifindex: u32, addr: IpAddr, prefix: u8) -> (r: Request)
        ensures
            r.msg_type == RTM_NEWADDR,
            r.flags == NLM_F_REQUEST | NLM_F_CREATE | NLM_F_EXCL | NLM_F_ACK,
            r.header == ExtraHeader::Ifaddr(addr_header(ifindex, addr, prefix)),
            ops_view(r.ops@) == addr_ops(addr),
            balanced(ops_view(r.ops@)),
            attr_values(ops_view(r.ops@), IFA_ADDRESS) == seq![AttrData::Bytes(addr.octets())],
            !addr.spec_is_ipv6() ==> attr_values(ops_view(r.ops@), IFA_LOCAL) == seq![
                AttrData::Bytes(addr.octets()),
            ],
            addr.spec_is_ipv6() ==> attr_values(ops_view(r.ops@), IFA_LOCAL).len() == 0,
    {
        proof {
            lemma_addr_ops_attrs(addr);
        }
        let ifm = Ifaddrmsg {
            ifa_family: addr.family(),
            ifa_prefixlen: prefix,
            ifa_flags: IFA_F_PERMANENT,
            ifa_scope: RT_SCOPE_UNIVERSE,
            ifa_index: ifindex,
        };
        let mut ops: Vec<NlOp> = Vec::new();
        push_op(&mut ops, NlOp::Put(IFA_ADDRESS, AttrValue::Bytes(addr.to_bytes())));
        if addr.is_ipv4() {
            push_op(&mut ops, NlOp::Put(IFA_LOCAL, AttrValue::Bytes(addr.to_bytes())));
        }
        assert(ops_view(ops@) =~= addr_ops(addr));
        proof {
            lemma_flat_balanced(ops_view(ops@));
        }
        Request {
            msg_type: RTM_NEWADDR,
            flags: NLM_F_REQUEST | NLM_F_CREATE | NLM_F_EXCL | NLM_F_ACK,
            header: ExtraHeader::Ifaddr(ifm),
            ops,
        }
    }

    /// The request that sets the interface with index `ifindex` up or down.
    pub fn set_up_request(ifindex: u32, up: bool) -> (r: Request)
        ensures
            r.msg_type == RTM_NEWLINK,
            r.flags == NLM_F_REQUEST | NLM_F_ACK,
            r.header == ExtraHeader::Ifinfo(set_up_header(ifindex, up)),
            r.ops@.len() == 0,
            balanced(ops_view(r.ops@)),
            r.header matches ExtraHeader::Ifinfo(h) && h.ifi_change == IFF_UP && (h.ifi_flags
                == IFF_UP) == up && (h.ifi_flags == 0) == !up && h.ifi_index == ifindex as i32
                && h.ifi_family == AF_UNSPEC,
    {
        let flags: u32 = if up {
            IFF_UP
        } else {
            0
        };
        let ifm = Ifinfomsg {
            ifi_family: AF_UNSPEC,
            ifi_type: 0,
            ifi_index: ifindex as i32,
            ifi_flags: flags,
            ifi_change: IFF_UP,
        };
        let ops: Vec<NlOp> = Vec::new();
        proof {
            lemma_flat_balanced(ops_view(ops@));
        }
        Request {
            msg_type: RTM_NEWLINK,
            flags: NLM_F_REQUEST | NLM_F_ACK,
            header: ExtraHeader::Ifinfo(ifm),
            ops,
        }
    }

    /// The request that asks the generic netlink controller for the id of a family.
    pub fn family_id_request(family_name: &str) -> (r: Request)
        ensures
            r.msg_type == GENL_ID_CTRL,
            r.flags == NLM_F_REQUEST | NLM_F_ACK,
            r.header == ExtraHeader::Genl(getfamily_header()),
            ops_view(r.ops@) == seq![Op::Put(CTRL_ATTR_FAMILY_NAME, AttrData::StrZ(family_name@))],
            balanced(ops_view(r.ops@)),
    {
        let mut ops: Vec<NlOp> = Vec::new();
        push_op(&mut ops, NlOp::Put(CTRL_ATTR_FAMILY_NAME, AttrValue::StrZ(family_name.to_owned())));
        assert(ops_view(ops@) =~= seq![
            Op::Put(CTRL_ATTR_FAMILY_NAME, AttrData::StrZ(family_name@)),
        ]);
        proof {
            lemma_flat_balanced(ops_view(ops@));
        }
        Request {
            msg_type: GENL_ID_CTRL,
            flags: NLM_F_REQUEST | NLM_F_ACK,
            header: ExtraHeader::Genl(Genlmsghdr { cmd: CTRL_CMD_GETFAMILY, version: 1, reserved: 0 }),
            ops,
        }
    }

    /// The family id that the controller's reply gives.
    pub fn family_id_from_reply(attrs: &Vec<ReplyAttr>) -> (r: Result<u16, FamilyIdError>)
        ensures
            match family_scan(attrs@) {
                Err(_) => r == Err::<u16, FamilyIdError>(FamilyIdError::InvalidAttribute),
                Ok(None) => r == Err::<u16, FamilyIdError>(FamilyIdError::NotSupported),
                Ok(Some(id)) => r == Ok::<u16, FamilyIdError>(id),
            },
            (exists|k: int| 0 <= k < attrs@.len() && invalid_family_attr(#[trigger] attrs@[k]))
                ==> r == Err::<u16, FamilyIdError>(FamilyIdError::InvalidAttribute),
            (forall|k: int| 0 <= k < attrs@.len() ==> !invalid_family_attr(#[trigger] attrs@[k]))
                ==> {
                &&& (forall|k: int| 0 <= k < attrs@.len() ==> (#[trigger] attrs@[k]).atype
                    != CTRL_ATTR_FAMILY_ID) ==> r == Err::<u16, FamilyIdError>(
                    FamilyIdError::NotSupported,
                )
                &&& forall|k: int|
                    0 <= k < attrs@.len() && (#[trigger] attrs@[k]).atype == CTRL_ATTR_FAMILY_ID
                        && (forall|j: int|
                        k < j < attrs@.len() ==> attrs@[j].atype != CTRL_ATTR_FAMILY_ID) ==> r
                        == Ok::<u16, FamilyIdError>(attrs@[k].value)
            },
    {
        proof {
            lemma_family_scan_laws(attrs@);
        }
        let mut found: Option<u16> = None;
        let mut i: usize = 0;
        while i < attrs.len()
            invariant
                i <= attrs@.len(),
                family_scan(attrs@.take(i as int)) == Ok::<Option<u16>, ()>(found),
            decreases attrs@.len() - i,
        {
            let a = attrs[i];
            assert(attrs@.take(i + 1).drop_last() =~= attrs@.take(i as int));
            if a.atype == CTRL_ATTR_FAMILY_ID {
                if a.payload_len < 2 {
                    proof {
                        lemma_family_scan_err_sticks(attrs@, (i + 1) as int);
                    }
                    assert(attrs@.take(attrs@.len() as int) =~= attrs@);
                    return Err(FamilyIdError::InvalidAttribute);
                }
                found = Some(a.value);
            }
            i = i + 1;
        }
        assert(attrs@.take(attrs@.len() as int) =~= attrs@);
        match found {
            Some(id) => Ok(id),
            None => Err(FamilyIdError::NotSupported),
        }
    }
}

/// A family id attribute too short to hold a `u16`.
pub open spec fn invalid_family_attr(a: ReplyAttr) -> bool {
    a.atype == CTRL_ATTR_FAMILY_ID && a.payload_len < 2
}

/// What the family lookup reads from a reply, stated per attribute: a family
/// id attribute too short for a `u16` anywhere rejects the reply; otherwise the
/// value of the last family id attribute is the id, whatever attributes of
/// other types come before or after it, and without one there is none.
pub proof fn lemma_family_scan_laws(attrs: Seq<ReplyAttr>)
    ensures
        (exists|k: int| 0 <= k < attrs.len() && invalid_family_attr(#[trigger] attrs[k]))
            ==> family_scan(attrs) is Err,
        (forall|k: int| 0 <= k < attrs.len() ==> !invalid_family_attr(#[trigger] attrs[k])) ==> {
            &&& family_scan(attrs) is Ok
            &&& (forall|k: int| 0 <= k < attrs.len() ==> (#[trigger] attrs[k]).atype
                != CTRL_ATTR_FAMILY_ID) ==> family_scan(attrs) == Ok::<Option<u16>, ()>(None)
            &&& forall|k: int|
                0 <= k < attrs.len() && (#[trigger] attrs[k]).atype == CTRL_ATTR_FAMILY_ID && (
                forall|j: int| k < j < attrs.len() ==> attrs[j].atype != CTRL_ATTR_FAMILY_ID)
                    ==> family_scan(attrs) == Ok::<Option<u16>, ()>(Some(attrs[k].value))
        },
    decreases attrs.len(),
{
    if attrs.len() > 0 {
        let n = attrs.len() - 1;
        let init = attrs.drop_last();
        lemma_family_scan_laws(init);
        let a = attrs.last();
        assert(a == attrs[n]);
        assert forall|k: int| 0 <= k < n implies #[trigger] init[k] == attrs[k] by {}
        if exists|k: int| 0 <= k < attrs.len() && invalid_family_attr(#[trigger] attrs[k]) {
            let k = choose|k: int| 0 <= k < attrs.len() && invalid_family_attr(#[trigger] attrs[k]);
            if k < n {
                assert(invalid_family_attr(init[k]));
            }
        }
        if forall|k: int| 0 <= k < attrs.len() ==> !invalid_family_attr(#[trigger] attrs[k]) {
            assert forall|k: int| 0 <= k < init.len() implies !invalid_family_attr(
                #[trigger] init[k],
            ) by {
                assert(init[k] == attrs[k]);
            }
            assert(!invalid_family_attr(attrs[n]));
            if forall|k: int| 0 <= k < attrs.len() ==> (#[trigger] attrs[k]).atype
                != CTRL_ATTR_FAMILY_ID {
                assert forall|k: int| 0 <= k < init.len() implies (#[trigger] init[k]).atype
                    != CTRL_ATTR_FAMILY_ID by {
                    assert(init[k] == attrs[k]);
                }
                assert(attrs[n].atype != CTRL_ATTR_FAMILY_ID);
            }
            assert forall|k: int|
                0 <= k < attrs.len() && (#[trigger] attrs[k]).atype == CTRL_ATTR_FAMILY_ID && (
                forall|j: int| k < j < attrs.len() ==> attrs[j].atype != CTRL_ATTR_FAMILY_ID)
                implies family_scan(attrs) == Ok::<Option<u16>, ()>(Some(attrs[k].value)) by {
                if k < n {
                    assert(attrs[n].atype != CTRL_ATTR_FAMILY_ID);
                    assert(init[k] == attrs[k]);
                    assert forall|j: int| k < j < init.len() implies init[j].atype
                        != CTRL_ATTR_FAMILY_ID by {
                        assert(init[j] == attrs[j]);
                    }
                }
            }
        }
    }
}

/// A reply that an invalid family id attribute has made unreadable stays
/// unreadable, whatever attributes follow it.
pub proof fn lemma_family_scan_err_sticks(attrs: Seq<ReplyAttr>, k: int)
    requires
        0 <= k <= attrs.len(),
        family_scan(attrs.take(k)) is Err,
    ensures
        family_scan(attrs) is Err,
    decreases attrs.len() - k,
{
    if k < attrs.len() {
        assert(attrs.take(k + 1).drop_last() =~= attrs.take(k));
        lemma_family_scan_err_sticks(attrs, k + 1);
    } else {
        assert(attrs.take(k) =~= attrs);
    }
}

} // verus!
