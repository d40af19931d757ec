//! The data items of a point-to-point WireGuard VPN connection.
use vstd::prelude::*;

verus! {

/// The name under which the local peer publishes its key.
pub const WG_P2P_VPN_LOCAL_NAME: &'static str = "local_name";

/// The local listen port.
pub const WG_P2P_VPN_LOCAL_PORT: &'static str = "local_port";

/// The address of the remote endpoint.
pub const WG_P2P_VPN_ENDPOINT_ADDRESS: &'static str = "endpoint_address";

/// How the endpoint is found.
pub const WG_P2P_VPN_ENDPOINT_METHOD: &'static str = "endpoint_method";

/// The public key of the remote peer.
pub const WG_P2P_VPN_REMOTE_PUBLIC_KEY: &'static str = "remote_public_key";

/// The local private key.
pub const WG_P2P_VPN_LOCAL_PRIVATE_KEY: &'static str = "local_private_key";

/// The local public key.
pub const WG_P2P_VPN_LOCAL_PUBLIC_KEY: &'static str = "local_public_key";

/// The name of the WireGuard interface.
pub const WG_P2P_VPN_INTERFACE_NAME: &'static str = "interface_name";

/// The interface name used where the connection names none.
pub const DEFAULT_INTERFACE_NAME: &'static str = "wg0";

/// Whether a data item or secret is stored: one with an empty key or an empty
/// value is left out.
pub fn should_store_item(key: &str, value: &str) -> (r: bool)
    ensures
        r == (key@.len() > 0 && value@.len() > 0),
{
    !key.is_empty() && !value.is_empty()
}

/// A stored item's text, or `default` where the item is missing.
pub fn item_or(item: &Option<String>, default: &str) -> (r: String)
    ensures
        r@ == match item {
            Some(s) => s@,
            None => default@,
        },
{
    match item {
        Some(s) => s.clone(),
        None => String::from_str(default),
    }
}

} // verus!
