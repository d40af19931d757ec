//! The configuration that the VPN service reports to NetworkManager once the
//! tunnel is up: a dictionary of string keys to values.
use vstd::prelude::*;

verus! {

/// The tunnel device (string).
pub const NM_VPN_PLUGIN_CONFIG_TUNDEV: &'static str = "tundev";

/// Whether the connection has IPv4 settings (boolean).
pub const NM_VPN_PLUGIN_CONFIG_HAS_IP4: &'static str = "has-ip4";

/// Whether the connection has IPv6 settings (boolean).
pub const NM_VPN_PLUGIN_CONFIG_HAS_IP6: &'static str = "has-ip6";

/// The IPv4 address (`u32` in network byte order).
pub const NM_VPN_PLUGIN_IP4_CONFIG_ADDRESS: &'static str = "address";

/// The IPv4 prefix length (`u32`).
pub const NM_VPN_PLUGIN_IP4_CONFIG_PREFIX: &'static str = "prefix";

/// The IPv4 address of the tunnel.
pub const TUNNEL_IPV4_ADDRESS: [u8; 4] = [10, 0, 0, 1];

/// The IPv4 prefix length of the tunnel.
pub const TUNNEL_IPV4_PREFIX: u32 = 24;

/// A value of the dictionary.
#[derive(Debug)]
pub enum DictValue {
    Str(String),
    Bool(bool),
    U32(u32),
    /// A `u32` whose bytes in memory are these, in this order.
    U32Bytes([u8; 4]),
}

/// The mathematical value of a dictionary value.
pub enum DictData {
    Str(Seq<char>),
    Bool(bool),
    U32(u32),
    U32Bytes(Seq<u8>),
}

impl View for DictValue {
    type V = DictData;

    open spec fn view(&self) -> DictData {
        match self {
            DictValue::Str(s) => DictData::Str(s@),
            DictValue::Bool(b) => DictData::Bool(*b),
            DictValue::U32(x) => DictData::U32(*x),
            DictValue::U32Bytes(b) => DictData::U32Bytes(b@),
        }
    }
}

/// The entries of a dictionary, as keys and values.
pub open spec fn entries_view(v: Seq<(String, DictValue)>) -> Seq<(Seq<char>, DictData)> {
    v.map_values(|e: (String, DictValue)| (e.0@, e.1@))
}

/// The general configuration: the tunnel device, and that the connection has
/// both IPv4 and IPv6 settings.
pub fn config_entries(dev: &str) -> (r: Vec<(String, DictValue)>)
    ensures
        entries_view(r@) == seq![
            (NM_VPN_PLUGIN_CONFIG_TUNDEV@, DictData::Str(dev@)),
            (NM_VPN_PLUGIN_CONFIG_HAS_IP4@, DictData::Bool(true)),
            (NM_VPN_PLUGIN_CONFIG_HAS_IP6@, DictData::Bool(true)),
        ],
{
    let mut r: Vec<(String, DictValue)> = Vec::new();
    r.push((String::from_str(NM_VPN_PLUGIN_CONFIG_TUNDEV), DictValue::Str(String::from_str(dev))));
    r.push((String::from_str(NM_VPN_PLUGIN_CONFIG_HAS_IP4), DictValue::Bool(true)));
    r.push((String::from_str(NM_VPN_PLUGIN_CONFIG_HAS_IP6), DictValue::Bool(true)));
    assert(entries_view(r@) =~= seq![
        (NM_VPN_PLUGIN_CONFIG_TUNDEV@, DictData::Str(dev@)),
        (NM_VPN_PLUGIN_CONFIG_HAS_IP4@, DictData::Bool(true)),
        (NM_VPN_PLUGIN_CONFIG_HAS_IP6@, DictData::Bool(true)),
    ]);
    r
}

/// The IPv4 configuration: the tunnel's address 10.0.0.1 in network byte
/// order, and its prefix length 24.
pub fn ipv4_config_entries() -> (r: Vec<(String, DictValue)>)
    ensures
        entries_view(r@) == seq![
            (NM_VPN_PLUGIN_IP4_CONFIG_ADDRESS@, DictData::U32Bytes(seq![10u8, 0u8, 0u8, 1u8])),
            (NM_VPN_PLUGIN_IP4_CONFIG_PREFIX@, DictData::U32(24)),
        ],
{
    broadcast use vstd::array::group_array_axioms;
    let mut r: Vec<(String, DictValue)> = Vec::new();
    r.push(
        (String::from_str(NM_VPN_PLUGIN_IP4_CONFIG_ADDRESS), DictValue::U32Bytes(TUNNEL_IPV4_ADDRESS)),
    );
    r.push((String::from_str(NM_VPN_PLUGIN_IP4_CONFIG_PREFIX), DictValue::U32(TUNNEL_IPV4_PREFIX)));
    assert(TUNNEL_IPV4_ADDRESS@ =~= seq![10u8, 0u8, 0u8, 1u8]);
    assert(entries_view(r@) =~= seq![
        (NM_VPN_PLUGIN_IP4_CONFIG_ADDRESS@, DictData::U32Bytes(seq![10u8, 0u8, 0u8, 1u8])),
        (NM_VPN_PLUGIN_IP4_CONFIG_PREFIX@, DictData::U32(24)),
    ]);
    r
}

/// The IPv6 configuration: empty.
pub fn ipv6_config_entries() -> (r: Vec<(String, DictValue)>)
    ensures
        r@.len() == 0,
{
    Vec::new()
}

} // verus!
