use crane_socket::crypto::{
    ciphertext_message, decrypt_message, encrypt_message, parse_decrypted_message, plaintext_message,
    plaintext_of, CryptoError, Handshake, HandshakeInput, HandshakeStep, NoiseTransport, Tags, ALGO,
    MAX_BUFFER_SIZE,
};
use crane_socket::message::client::ClientMessage;
use crane_socket::message::server::ServerMessage;
use crane_socket::message::ws::WsMessage;

fn setup_test_states() -> (NoiseTransport, NoiseTransport) {
    let mut initiator = snow::Builder::new(ALGO.parse().unwrap())
        .local_private_key(&[0u8; 32])
        .unwrap()
        .build_initiator()
        .unwrap();
    let mut responder = snow::Builder::new(ALGO.parse().unwrap())
        .local_private_key(&[1u8; 32])
        .unwrap()
        .build_responder()
        .unwrap();

    let mut init_buffer = [0u8; 1024];
    let mut resp_buffer = [0u8; 1024];

    // -> e
    let len = initiator.write_message(&[], &mut init_buffer).unwrap();
    responder.read_message(&init_buffer[..len], &mut []).unwrap();

    // <- e, ee, s, es
    let len = responder.write_message(&[], &mut resp_buffer).unwrap();
    initiator.read_message(&resp_buffer[..len], &mut []).unwrap();

    // -> s, se
    let len = initiator.write_message(&[], &mut init_buffer).unwrap();
    responder.read_message(&init_buffer[..len], &mut []).unwrap();

    (
        NoiseTransport::new(initiator.into_transport_mode().unwrap()),
        NoiseTransport::new(responder.into_transport_mode().unwrap()),
    )
}

#[test]
fn test_encrypt_text_message() {
    let (mut noise_init, _) = setup_test_states();
    let mut buffer = vec![0u8; MAX_BUFFER_SIZE];
    let text = "Hello, World!";
    let message = ClientMessage::text(text.to_string());

    let encrypted = encrypt_message(message, &mut noise_init, &mut buffer).unwrap();
    assert!(matches!(encrypted, ClientMessage::Binary(_)));
    if let WsMessage::Binary(data) = encrypted.into_ws() {
        assert!(!data.is_empty());
    }
}

#[test]
fn test_encrypt_binary_message() {
    let (mut noise_init, _) = setup_test_states();
    let mut buffer = vec![0u8; MAX_BUFFER_SIZE];
    let data = vec![1, 2, 3, 4, 5];
    let message = ClientMessage::binary(data);

    let encrypted = encrypt_message(message, &mut noise_init, &mut buffer).unwrap();
    assert!(matches!(encrypted, ClientMessage::Binary(_)));
    if let WsMessage::Binary(data) = encrypted.into_ws() {
        assert!(!data.is_empty());
    }
}

#[test]
fn test_decrypt_invalid_message() {
    let (mut noise_init, _) = setup_test_states();
    let mut buffer = vec![0u8; MAX_BUFFER_SIZE];
    let invalid_message = ServerMessage::text("Invalid message".to_string());

    let result = decrypt_message(invalid_message, &mut noise_init, &mut buffer);
    assert!(matches!(result.unwrap(), ServerMessage::Text(_)));
}

#[test]
fn test_decrypt_empty_message() {
    let (mut noise_init, _) = setup_test_states();
    let mut buffer = vec![0u8; MAX_BUFFER_SIZE];
    let empty_message = ServerMessage::binary(vec![]);

    let result = decrypt_message(empty_message, &mut noise_init, &mut buffer);
    assert!(result.is_err());
    assert_eq!(result.unwrap_err(), CryptoError::Read);
}

#[test]
fn test_round_trip_text_message() {
    let (mut noise_init, mut noise_resp) = setup_test_states();
    let mut buffer_encrypt = vec![0u8; MAX_BUFFER_SIZE];
    let mut buffer_decrypt = vec![0u8; MAX_BUFFER_SIZE];

    let text = "Hello, World!";
    let original = ClientMessage::text(text.to_string());

    let encrypted = encrypt_message(original.clone(), &mut noise_init, &mut buffer_encrypt).unwrap();
    let msg = encrypted.into_ws();
    let decrypted =
        decrypt_message(ServerMessage::from(msg), &mut noise_resp, &mut buffer_decrypt).unwrap();

    assert!(matches!(decrypted, ServerMessage::Text(_)));
    if let ServerMessage::Text(decrypted_text) = decrypted {
        assert_eq!(decrypted_text, text);
    }
}

#[test]
fn test_round_trip_binary_message() {
    let (mut noise_init, mut noise_resp) = setup_test_states();
    let mut buffer_encrypt = vec![0u8; MAX_BUFFER_SIZE];
    let mut buffer_decrypt = vec![0u8; MAX_BUFFER_SIZE];

    let data = vec![1, 2, 3, 4, 5];
    let original = ClientMessage::binary(data.clone());

    let encrypted = encrypt_message(original.clone(), &mut noise_init, &mut buffer_encrypt).unwrap();
    let msg = encrypted.into_ws();
    let decrypted =
        decrypt_message(ServerMessage::from(msg), &mut noise_resp, &mut buffer_decrypt).unwrap();

    assert!(matches!(decrypted, ServerMessage::Binary(_)));
    if let ServerMessage::Binary(decrypted_data) = decrypted {
        assert_eq!(decrypted_data, data);
    }
}

#[test]
fn test_message_size_limits() {
    let (mut noise_init, _) = setup_test_states();
    let mut buffer = vec![0u8; MAX_BUFFER_SIZE];

    let large_data = vec![0u8; MAX_BUFFER_SIZE - 100];
    let message = ClientMessage::binary(large_data);

    let result = encrypt_message(message, &mut noise_init, &mut buffer);
    assert!(result.is_ok());
}

#[test]
fn test_decrypt_non_binary_messages() {
    let (mut noise_init, _) = setup_test_states();
    let mut buffer = vec![0u8; MAX_BUFFER_SIZE];

    let text_msg = ServerMessage::text("Hello".to_string());
    let result = decrypt_message(text_msg.clone(), &mut noise_init, &mut buffer).unwrap();
    assert_eq!(text_msg, result);
}

#[test]
fn too_large_a_message_is_not_written() {
    let (mut noise_init, _) = setup_test_states();
    let mut buffer = vec![0u8; MAX_BUFFER_SIZE];
    let message = ClientMessage::binary(vec![0u8; MAX_BUFFER_SIZE]);
    assert_eq!(encrypt_message(message, &mut noise_init, &mut buffer), Err(CryptoError::Write));
}

#[test]
fn ciphertext_is_plaintext_and_tag_long() {
    let (mut noise_init, _) = setup_test_states();
    let mut buffer = vec![0u8; MAX_BUFFER_SIZE];
    let encrypted = encrypt_message(ClientMessage::binary(vec![7; 10]), &mut noise_init, &mut buffer).unwrap();
    // A kind byte, the ten bytes, and the sixteen-byte tag.
    assert_eq!(encrypted.len(), 27);
}

#[test]
fn other_messages_pass_unencrypted() {
    let (mut noise_init, _) = setup_test_states();
    let mut buffer = vec![0u8; 64];
    let m = ClientMessage::Ping(vec![1, 2]);
    assert_eq!(encrypt_message(m.clone(), &mut noise_init, &mut buffer).unwrap(), m);
    assert_eq!(buffer, vec![0u8; 64]);
}

#[test]
fn tampered_ciphertext_is_refused() {
    let (mut noise_init, mut noise_resp) = setup_test_states();
    let mut buffer = vec![0u8; MAX_BUFFER_SIZE];
    let encrypted = encrypt_message(ClientMessage::text("x".to_string()), &mut noise_init, &mut buffer).unwrap();
    let mut data = match encrypted {
        ClientMessage::Binary(d) => d,
        _ => unreachable!(),
    };
    data[0] ^= 1;
    let result = decrypt_message(ServerMessage::Binary(data), &mut noise_resp, &mut buffer);
    assert_eq!(result, Err(CryptoError::Read));
}

#[test]
fn plaintexts_and_their_messages() {
    assert_eq!(Tags::Text.as_u8(), 0);
    assert_eq!(Tags::Frame.as_u8(), 5);
    assert_eq!(plaintext_of(&ClientMessage::text("ab".to_string())), Some(vec![10, b'a', b'b']));
    assert_eq!(plaintext_of(&ClientMessage::binary(vec![9])), Some(vec![11, 9]));
    assert_eq!(plaintext_of(&ClientMessage::CreateRoom), None);
    assert_eq!(parse_decrypted_message(&[10, b'h', b'i']), Ok(ServerMessage::text("hi".to_string())));
    assert_eq!(parse_decrypted_message(&[11, 4]), Ok(ServerMessage::binary(vec![4])));
    assert_eq!(parse_decrypted_message(&[]), Err(CryptoError::Decrypt));
    assert_eq!(parse_decrypted_message(&[2, 1]), Err(CryptoError::Decrypt));
    assert_eq!(parse_decrypted_message(&[0, b'h']), Err(CryptoError::Decrypt));
    assert_eq!(parse_decrypted_message(&[10, 0xFF]), Err(CryptoError::Decrypt));
    let sealed = plaintext_of(&ClientMessage::text("round".to_string())).unwrap();
    assert_eq!(parse_decrypted_message(&sealed), Ok(ServerMessage::text("round".to_string())));
}

#[test]
fn outcomes_of_the_noise_calls() {
    let buffer = [5u8, 6, 7];
    assert_eq!(ciphertext_message(Some(2), &buffer), Ok(ClientMessage::binary(vec![5, 6])));
    assert_eq!(ciphertext_message(None, &buffer), Err(CryptoError::Write));
    assert_eq!(plaintext_message(None, &buffer), Err(CryptoError::Read));
    assert_eq!(plaintext_message(Some(0), &buffer), Err(CryptoError::Decrypt));
    let text = [10u8, b'o', b'k'];
    assert_eq!(plaintext_message(Some(3), &text), Ok(ServerMessage::text("ok".to_string())));
}

fn to_peer(m: ClientMessage) -> ServerMessage {
    ServerMessage::from(m.into_ws())
}

#[test]
fn two_sides_complete_the_handshake_and_talk() {
    let mut init = Handshake::start(true).unwrap();
    let mut resp = Handshake::start(false).unwrap();
    assert!(init.is_initiator() && !resp.is_initiator());

    assert_eq!(init.step(), HandshakeStep::Send);
    assert_eq!(resp.step(), HandshakeStep::Receive);
    let m1 = init.outgoing().unwrap();
    resp.incoming(HandshakeInput::Message(to_peer(m1))).unwrap();

    assert_eq!(resp.step(), HandshakeStep::Send);
    assert_eq!(init.step(), HandshakeStep::Receive);
    let m2 = resp.outgoing().unwrap();
    init.incoming(HandshakeInput::Message(to_peer(m2))).unwrap();

    assert_eq!(init.step(), HandshakeStep::Send);
    let m3 = init.outgoing().unwrap();
    resp.incoming(HandshakeInput::Message(to_peer(m3))).unwrap();

    assert_eq!(init.step(), HandshakeStep::Finish);
    assert_eq!(resp.step(), HandshakeStep::Finish);
    let mut t_init = init.finish().unwrap();
    let mut t_resp = resp.finish().unwrap();

    let mut b1 = vec![0u8; MAX_BUFFER_SIZE];
    let mut b2 = vec![0u8; MAX_BUFFER_SIZE];
    let sent = encrypt_message(ClientMessage::text("secret".to_string()), &mut t_init, &mut b1).unwrap();
    let got = decrypt_message(to_peer(sent), &mut t_resp, &mut b2).unwrap();
    assert_eq!(got, ServerMessage::text("secret".to_string()));
}

#[test]
fn handshake_failures() {
    let mut resp = Handshake::start(false).unwrap();
    assert_eq!(resp.incoming(HandshakeInput::TimedOut), Err(CryptoError::Timeout));
    assert_eq!(resp.incoming(HandshakeInput::Ended), Err(CryptoError::FailedHandShake));
    assert_eq!(resp.incoming(HandshakeInput::Unreadable), Err(CryptoError::InvalidMessageType));
    assert_eq!(
        resp.incoming(HandshakeInput::Message(ServerMessage::text("no".to_string()))),
        Err(CryptoError::InvalidMessageType)
    );
    assert_eq!(
        resp.incoming(HandshakeInput::Message(ServerMessage::binary(vec![1, 2, 3]))),
        Err(CryptoError::Read)
    );
    assert_eq!(resp.step(), HandshakeStep::Receive);
}
