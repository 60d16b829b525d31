use crane_socket::config::{
    decode_token, encode_token, proxy_target, token_config, ConnectionConfig, ConnectionMethod,
    ConnectionProtocol, TokenError,
};
use crane_socket::peer::PeerAddr;

fn default_addr() -> PeerAddr {
    PeerAddr::V4 { ip4: 0x7F00_0001, port: 8080 }
}

// A plain byte layout of an IPv4 configuration, standing in for the serialized
// form that the application writes into a token.
fn to_bytes(c: &ConnectionConfig) -> Vec<u8> {
    let mut v = vec![
        match c.method {
            ConnectionMethod::Direct => 0,
            ConnectionMethod::Proxy => 1,
        },
        match c.protocol {
            ConnectionProtocol::Tcp => 0,
            ConnectionProtocol::Udp => 1,
            ConnectionProtocol::WebSocket => 2,
        },
    ];
    match c.addr {
        PeerAddr::V4 { ip4, port } => {
            v.extend_from_slice(&ip4.to_be_bytes());
            v.extend_from_slice(&port.to_be_bytes());
        }
        PeerAddr::V6 { .. } => panic!("only IPv4 here"),
    }
    match &c.room_id {
        None => v.push(0),
        Some(r) => {
            v.push(1);
            v.extend_from_slice(r.as_bytes());
        }
    }
    v
}

fn from_bytes(b: &[u8]) -> Option<ConnectionConfig> {
    if b.len() < 9 {
        return None;
    }
    let method = match b[0] {
        0 => ConnectionMethod::Direct,
        1 => ConnectionMethod::Proxy,
        _ => return None,
    };
    let protocol = match b[1] {
        0 => ConnectionProtocol::Tcp,
        1 => ConnectionProtocol::Udp,
        2 => ConnectionProtocol::WebSocket,
        _ => return None,
    };
    let ip4 = u32::from_be_bytes(b[2..6].try_into().unwrap());
    let port = u16::from_be_bytes(b[6..8].try_into().unwrap());
    let room_id = match b[8] {
        0 => None,
        1 => Some(String::from_utf8(b[9..].to_vec()).ok()?),
        _ => return None,
    };
    Some(ConnectionConfig::new(method, protocol, PeerAddr::V4 { ip4, port }, room_id))
}

fn round_trip(c: &ConnectionConfig) -> ConnectionConfig {
    let encoded = encode_token(&to_bytes(c));
    let bytes = decode_token(&encoded).expect("Decoding should succeed");
    from_bytes(&bytes).expect("the bytes should hold a configuration")
}

#[test]
fn test_new_direct_without_room_id() {
    let addr = default_addr();
    let config = ConnectionConfig::new(ConnectionMethod::Direct, ConnectionProtocol::Tcp, addr, None);

    assert_eq!(config.method, ConnectionMethod::Direct);
    assert_eq!(config.protocol, ConnectionProtocol::Tcp);
    assert_eq!(config.addr, addr);
    assert_eq!(config.room_id, None);
}

#[test]
fn test_new_direct_with_room_id() {
    let addr = default_addr();
    let config = ConnectionConfig::new(
        ConnectionMethod::Direct,
        ConnectionProtocol::Tcp,
        addr,
        Some("test_room".to_string()),
    );

    assert_eq!(config.method, ConnectionMethod::Direct);
    assert_eq!(config.protocol, ConnectionProtocol::Tcp);
    assert_eq!(config.addr, addr);
    assert_eq!(config.room_id, Some("test_room".to_string()));
}

#[test]
fn test_new_proxy_with_room_id() {
    let addr = default_addr();
    let config = ConnectionConfig::new(
        ConnectionMethod::Proxy,
        ConnectionProtocol::Tcp,
        addr,
        Some("test_room".to_string()),
    );

    assert_eq!(config.method, ConnectionMethod::Proxy);
    assert_eq!(config.protocol, ConnectionProtocol::Tcp);
    assert_eq!(config.addr, addr);
    assert_eq!(config.room_id, Some("test_room".to_string()));
}

#[test]
fn test_new_proxy_without_room_id() {
    let addr = default_addr();
    let config = ConnectionConfig::new(ConnectionMethod::Proxy, ConnectionProtocol::Udp, addr, None);

    assert_eq!(config.method, ConnectionMethod::Proxy);
    assert_eq!(config.protocol, ConnectionProtocol::Udp);
    assert_eq!(config.addr, addr);
    assert_eq!(config.room_id, None);
}

#[test]
fn test_encode_decode_valid_config() {
    let config = ConnectionConfig::new(
        ConnectionMethod::Direct,
        ConnectionProtocol::Tcp,
        default_addr(),
        Some("room123".to_string()),
    );
    let decoded = round_trip(&config);

    assert_eq!(config, decoded);
}

#[test]
fn test_encode_decode_no_room_id() {
    let config = ConnectionConfig::new(ConnectionMethod::Proxy, ConnectionProtocol::Tcp, default_addr(), None);
    let decoded = round_trip(&config);

    assert_eq!(config, decoded);
    assert_eq!(decoded.room_id, None);
}

#[test]
fn test_decode_invalid_base64() {
    let invalid_base64 = "invalid_base64_string!";
    let result = decode_token(invalid_base64);

    assert!(result.is_err());
    assert_eq!(result.unwrap_err(), TokenError::BadEncoding);
}

#[test]
fn test_decode_invalid_postcard_data() {
    let invalid_data = vec![0u8, 1u8, 2u8, 3u8];
    let encoded = encode_token(&invalid_data);
    let bytes = decode_token(&encoded).unwrap();

    assert_eq!(bytes, invalid_data);
    assert!(postcard::from_bytes::<(u8, u8, String)>(&bytes).is_err());
    assert!(from_bytes(&bytes).is_none());
}

#[test]
fn test_encode_large_room_id() {
    let config = ConnectionConfig::new(
        ConnectionMethod::Direct,
        ConnectionProtocol::Tcp,
        default_addr(),
        Some("very_long_room_id_".repeat(100)),
    );
    let token = encode_token(&to_bytes(&config));

    assert!(!token.is_empty(), "Encoding should handle large room IDs");
    assert_eq!(round_trip(&config), config);
}

#[test]
fn test_equality_different_configs() {
    let config1 = ConnectionConfig::new(
        ConnectionMethod::Direct,
        ConnectionProtocol::Tcp,
        default_addr(),
        Some("room1".to_string()),
    );
    let config2 = ConnectionConfig::new(
        ConnectionMethod::Proxy,
        ConnectionProtocol::Udp,
        default_addr(),
        Some("room1".to_string()),
    );

    assert_ne!(config1, config2, "Configs with different methods/protocols should not be equal");
}

#[test]
fn test_encode_decode_empty_room_id() {
    let config = ConnectionConfig::new(
        ConnectionMethod::Direct,
        ConnectionProtocol::Tcp,
        default_addr(),
        Some("".to_string()),
    );
    let decoded = round_trip(&config);

    assert_eq!(config, decoded);
    assert_eq!(decoded.room_id, Some("".to_string()));
}

#[test]
fn tokens_are_standard_base64() {
    assert_eq!(encode_token(b"hi"), "aGk=");
    assert_eq!(encode_token(&[]), "");
    assert_eq!(decode_token("aGk=").unwrap(), b"hi".to_vec());
    assert_eq!(decode_token("aGk"), Err(TokenError::BadEncoding));
}

#[test]
fn an_advertised_room_is_read_back() {
    let addr = default_addr();
    let cfg = token_config(Some(addr), Some("abc".to_string()), ConnectionProtocol::WebSocket).unwrap();
    assert_eq!(cfg.method, ConnectionMethod::Proxy);
    assert_eq!(cfg.protocol, ConnectionProtocol::WebSocket);
    assert_eq!(proxy_target(cfg, ConnectionProtocol::WebSocket), Ok((addr, "abc".to_string())));
}

#[test]
fn tokens_of_unconnected_or_other_configurations() {
    assert_eq!(
        token_config(None, Some("abc".to_string()), ConnectionProtocol::Udp),
        Err(TokenError::NotConnected)
    );
    assert_eq!(token_config(Some(default_addr()), None, ConnectionProtocol::Udp), Err(TokenError::NotConnected));
    let udp = token_config(Some(default_addr()), Some("abc".to_string()), ConnectionProtocol::Udp).unwrap();
    assert_eq!(proxy_target(udp, ConnectionProtocol::WebSocket), Err(TokenError::InvalidConfig));
    let direct = ConnectionConfig::new(
        ConnectionMethod::Direct,
        ConnectionProtocol::Udp,
        default_addr(),
        Some("abc".to_string()),
    );
    assert_eq!(proxy_target(direct, ConnectionProtocol::Udp), Err(TokenError::InvalidConfig));
    let no_room = ConnectionConfig::new(ConnectionMethod::Proxy, ConnectionProtocol::Udp, default_addr(), None);
    assert_eq!(proxy_target(no_room, ConnectionProtocol::Udp), Err(TokenError::InvalidConfig));
}
