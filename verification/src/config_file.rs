//! The configuration that `wg setconf` reads for a point-to-point connection.
use vstd::prelude::*;

verus! {

/// A data item that the configuration needs and the connection lacks.
#[derive(Clone, Copy, Debug)]
pub enum ConfigFileError {
    PrivateKeyMissing,
    ListenPortMissing,
    RemotePublicKeyMissing,
    EndpointMissing,
}

/// The message of an error.
pub open spec fn error_message(e: ConfigFileError) -> Seq<char> {
    match e {
        ConfigFileError::PrivateKeyMissing => "Private Key missing!"@,
        ConfigFileError::ListenPortMissing => "ListenPort missing!"@,
        ConfigFileError::RemotePublicKeyMissing => "Remote Public Key missing!"@,
        ConfigFileError::EndpointMissing => "Endpoint missing!"@,
    }
}

impl ConfigFileError {
    /// The message of the error.
    pub fn message(&self) -> (r: &'static str)
        ensures
            r@ == error_message(*self),
    {
        match self {
            ConfigFileError::PrivateKeyMissing => "Private Key missing!",
            ConfigFileError::ListenPortMissing => "ListenPort missing!",
            ConfigFileError::RemotePublicKeyMissing => "Remote Public Key missing!",
            ConfigFileError::EndpointMissing => "Endpoint missing!",
        }
    }
}

/// The `[Interface]` section: the local private key and listen port.
pub open spec fn interface_section(private_key: Seq<char>, listen_port: Seq<char>) -> Seq<char> {
    "[Interface]\nPrivateKey = "@ + private_key + "\nListenPort = "@ + listen_port + "\n"@
}

/// The `[Peer]` section: the remote public key and endpoint; all traffic is allowed.
pub open spec fn peer_section(public_key: Seq<char>, endpoint: Seq<char>) -> Seq<char> {
    "[Peer]\nPublicKey = "@ + public_key + "\nEndpoint = "@ + endpoint
        + "\nAllowedIPs = 0.0.0.0/0, ::0/0\n"@
}

/// The configuration of a connection with these items.
pub open spec fn config_text(
    private_key: Seq<char>,
    listen_port: Seq<char>,
    remote_public_key: Seq<char>,
    endpoint_addr: Seq<char>,
) -> Seq<char> {
    interface_section(private_key, listen_port) + peer_section(remote_public_key, endpoint_addr)
}

/// The configuration of a connection whose data items are given: the local
/// private key, the listen port, the remote public key and the endpoint
/// address. The first of them that is missing, in that order, is the error.
pub fn create_config_file(
    private_key: Option<String>,
    listen_port: Option<String>,
    remote_public_key: Option<String>,
    endpoint_addr: Option<String>,
) -> (r: Result<String, ConfigFileError>)
    ensures
        private_key is None ==> r == Err::<String, ConfigFileError>(
            ConfigFileError::PrivateKeyMissing,
        ),
        private_key is Some && listen_port is None ==> r == Err::<String, ConfigFileError>(
            ConfigFileError::ListenPortMissing,
        ),
        private_key is Some && listen_port is Some && remote_public_key is None ==> r == Err::<
            String,
            ConfigFileError,
        >(ConfigFileError::RemotePublicKeyMissing),
        private_key is Some && listen_port is Some && remote_public_key is Some && endpoint_addr is None
            ==> r == Err::<String, ConfigFileError>(ConfigFileError::EndpointMissing),
        r is Ok <==> (private_key is Some && listen_port is Some && remote_public_key is Some
            && endpoint_addr is Some),
        r matches Ok(text) ==> text@ == config_text(
            private_key->0@,
            listen_port->0@,
            remote_public_key->0@,
            endpoint_addr->0@,
        ),
{
    let private_key = match private_key {
        Some(k) => k,
        None => return Err(ConfigFileError::PrivateKeyMissing),
    };
    let listen_port = match listen_port {
        Some(p) => p,
        None => return Err(ConfigFileError::ListenPortMissing),
    };
    let remote_public_key = match remote_public_key {
        Some(k) => k,
        None => return Err(ConfigFileError::RemotePublicKeyMissing),
    };
    let endpoint_addr = match endpoint_addr {
        Some(e) => e,
        None => return Err(ConfigFileError::EndpointMissing),
    };

    let mut text = String::from_str("[Interface]\nPrivateKey = ");
    text.append(private_key.as_str());
    text.append("\nListenPort = ");
    text.append(listen_port.as_str());
    text.append("\n");
    text.append("[Peer]\nPublicKey = ");
    text.append(remote_public_key.as_str());
    text.append("\nEndpoint = ");
    text.append(endpoint_addr.as_str());
    text.append("\nAllowedIPs = 0.0.0.0/0, ::0/0\n");
    assert(text@ =~= config_text(private_key@, listen_port@, remote_public_key@, endpoint_addr@));
    Ok(text)
}

} // verus!
