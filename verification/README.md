# wg_p2p

A NetworkManager VPN plugin for point-to-point WireGuard connections: a
service that sets up the WireGuard link over netlink and `wg setconf`, and a
connection editor whose peers find each other's public keys on a D-Bus
bulletin board.

`src/` is the verified library, written with Verus:

- `addr`: IP and socket addresses and their network-order bytes.
- `nlmsg`: netlink requests as values (type, flags, fixed header, and the
  attributes and nests in order), with the balance of nests.
- `link`: the rtnetlink requests that create, address, route, raise and
  delete the link, and the generic netlink family lookup.
- `wireguard`: the request that configures the WireGuard device and its peers.
- `ip_settings`: a connection's IP settings and the addresses and routes they
  give the device.
- `config_file`: the configuration text for `wg setconf`.
- `plugin_config`: the configuration reported to NetworkManager.
- `settings`: the connection's data item keys.
- `editor`: the editor's decisions: key tooltips, the key search dialog, the
  keys a search accepts, and the items it saves.
- `text`: trimming and markup escaping.

`app/` holds the parts that talk to the system: libmnl sockets, libnm, GLib,
GTK and D-Bus, and the service's `main`.
