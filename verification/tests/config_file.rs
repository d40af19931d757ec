use wg_p2p::config_file::{create_config_file, ConfigFileError};

fn s(x: &str) -> Option<String> {
    Some(x.to_string())
}

#[test]
fn config_file_has_both_sections() {
    let text = create_config_file(
        s("cHJpdmF0ZQ=="),
        s("51820"),
        s("cHVibGlj"),
        s("192.0.2.7:51820"),
    )
    .unwrap();
    assert_eq!(
        text,
        "[Interface]\nPrivateKey = cHJpdmF0ZQ==\nListenPort = 51820\n\
         [Peer]\nPublicKey = cHVibGlj\nEndpoint = 192.0.2.7:51820\nAllowedIPs = 0.0.0.0/0, ::0/0\n"
    );
}

#[test]
fn config_file_keeps_empty_items() {
    let text = create_config_file(s(""), s(""), s(""), s("")).unwrap();
    assert_eq!(
        text,
        "[Interface]\nPrivateKey = \nListenPort = \n[Peer]\nPublicKey = \nEndpoint = \nAllowedIPs = 0.0.0.0/0, ::0/0\n"
    );
}

#[test]
fn config_file_missing_private_key_comes_first() {
    let r = create_config_file(None, None, None, None);
    assert!(matches!(r, Err(ConfigFileError::PrivateKeyMissing)));
    assert_eq!(r.unwrap_err().message(), "Private Key missing!");
}

#[test]
fn config_file_missing_listen_port() {
    let r = create_config_file(s("k"), None, s("p"), s("e"));
    assert!(matches!(r, Err(ConfigFileError::ListenPortMissing)));
    assert_eq!(r.unwrap_err().message(), "ListenPort missing!");
}

#[test]
fn config_file_missing_remote_key() {
    let r = create_config_file(s("k"), s("1"), None, None);
    assert!(matches!(r, Err(ConfigFileError::RemotePublicKeyMissing)));
    assert_eq!(r.unwrap_err().message(), "Remote Public Key missing!");
}

#[test]
fn config_file_missing_endpoint() {
    let r = create_config_file(s("k"), s("1"), s("p"), None);
    assert!(matches!(r, Err(ConfigFileError::EndpointMissing)));
    assert_eq!(r.unwrap_err().message(), "Endpoint missing!");
}
