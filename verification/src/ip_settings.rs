//! The IPv4 and IPv6 settings of a connection, and the addresses and routes
//! that they give the WireGuard device.
use vstd::prelude::*;

use crate::addr::{AddrParseError, IpAddr};

verus! {

/// An address or route of the settings: its address as parsed from its text,
/// and its prefix length.
#[derive(Clone, Copy, Debug)]
pub struct IpEntry {
    pub address: Result<IpAddr, AddrParseError>,
    pub prefix: u32,
}

/// The IP settings of a connection: its addresses, its routes, and its
/// gateway where it has one.
pub struct IpSettings {
    pub addresses: Vec<IpEntry>,
    pub routes: Vec<IpEntry>,
    pub gateway: Option<Result<IpAddr, AddrParseError>>,
}

/// The IPv4 settings of a connection.
pub struct Ipv4Config(pub IpSettings);

/// The IPv6 settings of a connection.
pub struct Ipv6Config(pub IpSettings);

/// The IPv4 settings of a connection, as the VPN service reads them.
pub struct IpV4Config(pub IpSettings);

/// The address of entry `i`, if there is one: `Ok(None)` past the end.
pub open spec fn entry_address(entries: Seq<IpEntry>, i: int) -> Result<
    Option<IpAddr>,
    AddrParseError,
> {
    if 0 <= i < entries.len() {
        match entries[i].address {
            Ok(a) => Ok(Some(a)),
            Err(e) => Err(e),
        }
    } else {
        Ok(None)
    }
}

/// The prefix of entry `i` as a signed byte, if there is an entry `i`.
pub open spec fn entry_prefix(entries: Seq<IpEntry>, i: int) -> Option<i8> {
    if 0 <= i < entries.len() {
        Some(entries[i].prefix as i8)
    } else {
        None
    }
}

/// The gateway of the settings, if they name one.
pub open spec fn gateway_of(g: Option<Result<IpAddr, AddrParseError>>) -> Result<
    Option<IpAddr>,
    AddrParseError,
> {
    match g {
        None => Ok(None),
        Some(Ok(a)) => Ok(Some(a)),
        Some(Err(e)) => Err(e),
    }
}

fn address_at(entries: &Vec<IpEntry>, i: usize) -> (r: Result<Option<IpAddr>, AddrParseError>)
    ensures
        r == entry_address(entries@, i as int),
{
    if i < entries.len() {
        match entries[i].address {
            Ok(a) => Ok(Some(a)),
            Err(e) => Err(e),
        }
    } else {
        Ok(None)
    }
}

fn prefix_at(entries: &Vec<IpEntry>, i: usize) -> (r: Option<i8>)
    ensures
        r == entry_prefix(entries@, i as int),
{
    if i < entries.len() {
        Some(entries[i].prefix as i8)
    } else {
        None
    }
}

/// Reading the IP settings of a connection.
pub trait IpConfigExt {
    /// The settings.
    spec fn spec_settings(&self) -> &IpSettings;

    fn settings(&self) -> (r: &IpSettings)
        ensures
            r == self.spec_settings(),
    ;

    /// The number of addresses.
    fn get_num_addresses(&self) -> (r: usize)
        ensures
            r == self.spec_settings().addresses@.len(),
    {
        self.settings().addresses.len()
    }

    /// Address `i`: `Ok(None)` past the last, an error where its text is no address.
    fn get_address(&self, i: usize) -> (r: Result<Option<IpAddr>, AddrParseError>)
        ensures
            r == entry_address(self.spec_settings().addresses@, i as int),
    {
        address_at(&self.settings().addresses, i)
    }

    /// The prefix length of address `i`, as a signed byte; `None` past the last.
    fn get_prefix(&self, i: usize) -> (r: Option<i8>)
        ensures
            r == entry_prefix(self.spec_settings().addresses@, i as int),
    {
        prefix_at(&self.settings().addresses, i)
    }

    /// The number of routes.
    fn get_num_routes(&self) -> (r: usize)
        ensures
            r == self.spec_settings().routes@.len(),
    {
        self.settings().routes.len()
    }

    /// The destination of route `i`: `Ok(None)` past the last, an error where
    /// its text is no address.
    fn get_route_dst(&self, i: usize) -> (r: Result<Option<IpAddr>, AddrParseError>)
        ensures
            r == entry_address(self.spec_settings().routes@, i as int),
    {
        address_at(&self.settings().routes, i)
    }

    /// The prefix length of route `i`, as a signed byte; `None` past the last.
    fn get_route_prefix(&self, i: usize) -> (r: Option<i8>)
        ensures
            r == entry_prefix(self.spec_settings().routes@, i as int),
    {
        prefix_at(&self.settings().routes, i)
    }

    /// The gateway: `Ok(None)` where there is none, an error where its text is no address.
    fn get_gateway(&self) -> (r: Result<Option<IpAddr>, AddrParseError>)
        ensures
            r == gateway_of(self.spec_settings().gateway),
    {
        match self.settings().gateway {
            None => Ok(None),
            Some(Ok(a)) => Ok(Some(a)),
            Some(Err(e)) => Err(e),
        }
    }
}

impl IpConfigExt for Ipv4Config {
    open spec fn spec_settings(&self) -> &IpSettings {
        &self.0
    }

    fn settings(&self) -> (r: &IpSettings) {
        &self.0
    }
}

impl IpConfigExt for Ipv6Config {
    open spec fn spec_settings(&self) -> &IpSettings {
        &self.0
    }

    fn settings(&self) -> (r: &IpSettings) {
        &self.0
    }
}

impl IpConfigExt for IpV4Config {
    open spec fn spec_settings(&self) -> &IpSettings {
        &self.0
    }

    fn settings(&self) -> (r: &IpSettings) {
        &self.0
    }
}

/// A change to the WireGuard device.
#[derive(Clone, Copy, Debug)]
pub enum DeviceAction {
    /// Add an address with its prefix length.
    AddAddr { addr: IpAddr, prefix: u8 },
    /// Add a route to a destination with its prefix length, through a gateway
    /// where there is one.
    AddRoute { dst: IpAddr, prefix: u8, gateway: Option<IpAddr> },
}

/// A result with errors read as "none".
pub open spec fn or_none(r: Result<Option<IpAddr>, AddrParseError>) -> Option<IpAddr> {
    match r {
        Ok(a) => a,
        Err(_) => None,
    }
}

/// A prefix with "none" read as 0, as an unsigned byte.
pub open spec fn prefix_byte(p: Option<i8>) -> u8 {
    match p {
        Some(x) => x as u8,
        None => 0,
    }
}

/// The addresses to add for the first `n` address entries: each that parses,
/// with its prefix.
pub open spec fn addr_actions(entries: Seq<IpEntry>, n: int) -> Seq<DeviceAction>
    decreases n,
{
    if n <= 0 {
        Seq::empty()
    } else {
        let rest = addr_actions(entries, n - 1);
        match or_none(entry_address(entries, n - 1)) {
            Some(a) => rest.push(
                DeviceAction::AddAddr { addr: a, prefix: prefix_byte(entry_prefix(entries, n - 1)) },
            ),
            None => rest,
        }
    }
}

/// The routes to add for the first `n` route entries: each destination that
/// parses, with its prefix, through the gateway where one parses.
pub open spec fn route_actions(
    entries: Seq<IpEntry>,
    gateway: Option<Result<IpAddr, AddrParseError>>,
    n: int,
) -> Seq<DeviceAction>
    decreases n,
{
    if n <= 0 {
        Seq::empty()
    } else {
        let rest = route_actions(entries, gateway, n - 1);
        match or_none(entry_address(entries, n - 1)) {
            Some(d) => rest.push(
                DeviceAction::AddRoute {
                    dst: d,
                    prefix: prefix_byte(entry_prefix(entries, n - 1)),
                    gateway: or_none(gateway_of(gateway)),
                },
            ),
            None => rest,
        }
    }
}

/// Everything the settings add to the device, in order: addresses, then routes.
pub open spec fn device_actions(s: IpSettings) -> Seq<DeviceAction> {
    addr_actions(s.addresses@, s.addresses@.len() as int) + route_actions(
        s.routes@,
        s.gateway,
        s.routes@.len() as int,
    )
}

proof fn lemma_addr_actions(entries: Seq<IpEntry>, n: int)
    ensures
        addr_actions(entries, n).len() <= if n < 0 { 0 } else { n },
        forall|i: int|
            0 <= i < addr_actions(entries, n).len() ==> #[trigger] addr_actions(entries, n)[i] is AddAddr,
    decreases n,
{
    if n > 0 {
        lemma_addr_actions(entries, n - 1);
    }
}

proof fn lemma_route_actions(
    entries: Seq<IpEntry>,
    gateway: Option<Result<IpAddr, AddrParseError>>,
    n: int,
)
    ensures
        route_actions(entries, gateway, n).len() <= if n < 0 { 0 } else { n },
        forall|i: int|
            0 <= i < route_actions(entries, gateway, n).len() ==> #[trigger] route_actions(
                entries,
                gateway,
                n,
            )[i] is AddRoute,
    decreases n,
{
    if n > 0 {
        lemma_route_actions(entries, gateway, n - 1);
    }
}

/// The gateway a route of these settings goes through: the settings' gateway
/// where it parses, none otherwise.
pub open spec fn route_gateway(gateway: Option<Result<IpAddr, AddrParseError>>) -> Option<IpAddr> {
    match gateway {
        Some(Ok(a)) => Some(a),
        _ => None,
    }
}

/// The number of the first `n` entries whose address parses.
pub open spec fn parsed_count(entries: Seq<IpEntry>, n: int) -> nat
    decreases n,
{
    if n <= 0 {
        0
    } else {
        parsed_count(entries, n - 1) + if entries[n - 1].address is Ok {
            1nat
        } else {
            0nat
        }
    }
}

/// Every route the settings add goes through the settings' gateway where it
/// parses, and through none otherwise, whatever its position; one route is
/// added for each route entry whose destination parses, with that destination
/// and its prefix.
pub proof fn lemma_route_actions_gateway(
    entries: Seq<IpEntry>,
    gateway: Option<Result<IpAddr, AddrParseError>>,
    n: int,
)
    requires
        0 <= n <= entries.len(),
    ensures
        route_actions(entries, gateway, n).len() == parsed_count(entries, n),
        forall|k: int|
            0 <= k < route_actions(entries, gateway, n).len() ==> (#[trigger] route_actions(
                entries,
                gateway,
                n,
            )[k] matches DeviceAction::AddRoute { gateway: g, .. } && g == route_gateway(gateway)),
        forall|i: int|
            0 <= i < n && (#[trigger] entries[i]).address is Ok ==> route_actions(entries, gateway, n)[
                parsed_count(entries, i) as int] == (DeviceAction::AddRoute {
                dst: entries[i].address->Ok_0,
                prefix: (entries[i].prefix as i8) as u8,
                gateway: route_gateway(gateway),
            }),
    decreases n,
{
    if n > 0 {
        lemma_route_actions_gateway(entries, gateway, n - 1);
        assert forall|i: int|
            0 <= i < n && (#[trigger] entries[i]).address is Ok implies route_actions(
                entries,
                gateway,
                n,
            )[parsed_count(entries, i) as int] == (DeviceAction::AddRoute {
                dst: entries[i].address->Ok_0,
                prefix: (entries[i].prefix as i8) as u8,
                gateway: route_gateway(gateway),
            }) by {
            if i < n - 1 {
                lemma_parsed_count_mono(entries, i + 1, n - 1);
            }
        }
    }
}

/// One address is added for each address entry whose address parses, with
/// that address and its prefix, in the order of the entries.
pub proof fn lemma_addr_actions_complete(entries: Seq<IpEntry>, n: int)
    requires
        0 <= n <= entries.len(),
    ensures
        addr_actions(entries, n).len() == parsed_count(entries, n),
        forall|i: int|
            0 <= i < n && (#[trigger] entries[i]).address is Ok ==> addr_actions(entries, n)[
                parsed_count(entries, i) as int] == (DeviceAction::AddAddr {
                addr: entries[i].address->Ok_0,
                prefix: (entries[i].prefix as i8) as u8,
            }),
    decreases n,
{
    if n > 0 {
        lemma_addr_actions_complete(entries, n - 1);
        assert forall|i: int|
            0 <= i < n && (#[trigger] entries[i]).address is Ok implies addr_actions(entries, n)[
                parsed_count(entries, i) as int] == (DeviceAction::AddAddr {
                addr: entries[i].address->Ok_0,
                prefix: (entries[i].prefix as i8) as u8,
            }) by {
            if i < n - 1 {
                lemma_parsed_count_mono(entries, i + 1, n - 1);
            }
        }
    }
}

proof fn lemma_parsed_count_mono(entries: Seq<IpEntry>, a: int, b: int)
    requires
        0 <= a <= b,
    ensures
        parsed_count(entries, a) <= parsed_count(entries, b),
    decreases b - a,
{
    if a < b {
        lemma_parsed_count_mono(entries, a, b - 1);
    }
}

/// The settings add at most one address per address entry and one route per
/// route entry, and every address before any route.
pub proof fn lemma_device_actions_order(s: IpSettings)
    ensures
        device_actions(s).len() <= s.addresses@.len() + s.routes@.len(),
        forall|i: int, j: int|
            0 <= i < j < device_actions(s).len() && (#[trigger] device_actions(s)[j]) is AddAddr
                ==> (#[trigger] device_actions(s)[i]) is AddAddr,
{
    let a = addr_actions(s.addresses@, s.addresses@.len() as int);
    let r = route_actions(s.routes@, s.gateway, s.routes@.len() as int);
    lemma_addr_actions(s.addresses@, s.addresses@.len() as int);
    lemma_route_actions(s.routes@, s.gateway, s.routes@.len() as int);
    assert forall|i: int, j: int|
        0 <= i < j < device_actions(s).len() && (#[trigger] device_actions(s)[j]) is AddAddr
            implies (#[trigger] device_actions(s)[i]) is AddAddr by {
        if j >= a.len() {
            assert(device_actions(s)[j] == r[j - a.len()]);
        }
        assert(i < a.len());
        assert(device_actions(s)[i] == a[i]);
    }
}

/// The changes that IP settings make to the WireGuard device, in the order in
/// which they are made: the addresses, then the routes. Entries whose address
/// does not parse are left out; a prefix that cannot be read counts as 0, an
/// unreadable gateway as none.
pub fn apply_device_config<T: IpConfigExt>(ip: &T) -> (r: Vec<DeviceAction>)
    ensures
        r@ == device_actions(*ip.spec_settings()),
        forall|k: int|
            0 <= k < r@.len() && (#[trigger] r@[k]) is AddRoute ==> (r@[k] matches DeviceAction::AddRoute {
                gateway: g,
                ..
            } && g == route_gateway(ip.spec_settings().gateway)),
        r@.len() == parsed_count(
            ip.spec_settings().addresses@,
            ip.spec_settings().addresses@.len() as int,
        ) + parsed_count(ip.spec_settings().routes@, ip.spec_settings().routes@.len() as int),
{
    proof {
        let s = ip.spec_settings();
        lemma_addr_actions_complete(s.addresses@, s.addresses@.len() as int);
        lemma_route_actions_gateway(s.routes@, s.gateway, s.routes@.len() as int);
        lemma_addr_actions(s.addresses@, s.addresses@.len() as int);
        let a = addr_actions(s.addresses@, s.addresses@.len() as int);
        let rt = route_actions(s.routes@, s.gateway, s.routes@.len() as int);
        assert forall|k: int|
            0 <= k < device_actions(*s).len() && (#[trigger] device_actions(*s)[k]) is AddRoute
                implies (device_actions(*s)[k] matches DeviceAction::AddRoute { gateway: g, .. }
            && g == route_gateway(s.gateway)) by {
            if k < a.len() {
                assert(device_actions(*s)[k] == a[k]);
            } else {
                assert(device_actions(*s)[k] == rt[k - a.len()]);
            }
        }
    }
    let mut actions: Vec<DeviceAction> = Vec::new();
    let n = ip.get_num_addresses();
    let mut i: usize = 0;
    while i < n
        invariant
            n == ip.spec_settings().addresses@.len(),
            i <= n,
            actions@ == addr_actions(ip.spec_settings().addresses@, i as int),
        decreases n - i,
    {
        let ip_addr = match ip.get_address(i) {
            Ok(a) => a,
            Err(_) => None,
        };
        let ip_prefix: i8 = match ip.get_prefix(i) {
            Some(p) => p,
            None => 0,
        };
        if let Some(addr) = ip_addr {
            actions.push(DeviceAction::AddAddr { addr, prefix: ip_prefix as u8 });
        }
        i = i + 1;
    }
    let ghost addrs = actions@;
    let m = ip.get_num_routes();
    let mut j: usize = 0;
    while j < m
        invariant
            m == ip.spec_settings().routes@.len(),
            j <= m,
            addrs == addr_actions(ip.spec_settings().addresses@, ip.spec_settings().addresses@.len() as int),
            actions@ == addrs + route_actions(ip.spec_settings().routes@, ip.spec_settings().gateway, j as int),
        decreases m - j,
    {
        let gw = match ip.get_gateway() {
            Ok(g) => g,
            Err(_) => None,
        };
        let dst = match ip.get_route_dst(j) {
            Ok(a) => a,
            Err(_) => None,
        };
        let route_prefix: i8 = match ip.get_route_prefix(j) {
            Some(p) => p,
            None => 0,
        };
        if let Some(d) = dst {
            actions.push(DeviceAction::AddRoute { dst: d, prefix: route_prefix as u8, gateway: gw });
        }
        j = j + 1;
    }
    actions
}

} // verus!
