use crossdesk::crypto::{CryptoError, Sealer};
use crossdesk::protocol::MAX_FRAME;
use crossdesk::transport::{
    client_accept, client_finish, client_handshake, host_accept, host_finish, host_read_intent,
    AuthMode, FrameReader, FrameWriter, TransportError, INTRO_LEN, REPLY_LEN,
};

fn intro(mode: AuthMode) -> [u8; 54] {
    let (_, bytes) = client_handshake(&[9u8; 16], mode);
    bytes.try_into().unwrap()
}

#[test]
fn an_intro_is_read_back() {
    let bytes = intro(AuthMode::Stored);
    assert_eq!(bytes.len(), INTRO_LEN);
    assert_eq!(&bytes[..4], b"XDSK");
    assert_eq!(bytes[4], 1);
    let intent = host_read_intent(&bytes).unwrap();
    assert_eq!(intent.device, [9u8; 16]);
    assert_eq!(intent.mode, AuthMode::Stored);
    assert_eq!(intent.client_public, bytes[22..]);
}

#[test]
fn strangers_fail_the_handshake() {
    for at in [0, 1, 2, 3, 4] {
        let mut bytes = intro(AuthMode::Code);
        bytes[at] ^= 0x20;
        assert!(matches!(host_read_intent(&bytes), Err(TransportError::Handshake)));
    }
    let mut bytes = intro(AuthMode::Code);
    bytes[5] = 2;
    assert!(matches!(host_read_intent(&bytes), Err(TransportError::Handshake)));

    let (hs, _) = client_handshake(&[9u8; 16], AuthMode::Code);
    let mut reply = [0u8; 37];
    reply[..4].copy_from_slice(b"XDSK");
    reply[4] = 2;
    assert!(matches!(
        client_finish(hs, &reply, &[0u8; 32]),
        Err(TransportError::Handshake)
    ));
}

#[test]
fn modes_have_bytes() {
    assert_eq!(AuthMode::Code.as_byte(), 0);
    assert_eq!(AuthMode::Stored.as_byte(), 1);
    assert_eq!(AuthMode::from_byte(0), Some(AuthMode::Code));
    assert_eq!(AuthMode::from_byte(1), Some(AuthMode::Stored));
    assert_eq!(AuthMode::from_byte(2), None);
}

#[test]
fn a_shared_secret_makes_a_channel() {
    let auth = [3u8; 32];
    let (hs, bytes) = client_handshake(&[9u8; 16], AuthMode::Code);
    let intent = host_read_intent(&bytes.try_into().unwrap()).unwrap();
    let (host_keys, reply) = host_finish(&intent, &auth);
    assert_eq!(reply.len(), REPLY_LEN);
    let (client_keys, client_tag) = client_finish(hs, &reply.try_into().unwrap(), &auth).unwrap();
    let (host_tag, (mut host_rx, mut host_tx)) = host_accept(host_keys, &client_tag).unwrap();
    let (mut client_rx, mut client_tx) = client_accept(client_keys, &host_tag).unwrap();

    for n in 0..3u8 {
        let up = client_tx.send(vec![n; 10]).unwrap();
        let len = FrameReader::frame_len(&up[..4].try_into().unwrap()).unwrap();
        assert_eq!(len, up.len() - 4);
        assert_eq!(host_rx.recv(up[4..].to_vec()).unwrap(), vec![n; 10]);
        let down = host_tx.send(vec![n + 1; 20]).unwrap();
        assert_eq!(client_rx.recv(down[4..].to_vec()).unwrap(), vec![n + 1; 20]);
    }
}

#[test]
fn a_wrong_code_never_gets_a_channel() {
    let (hs, bytes) = client_handshake(&[9u8; 16], AuthMode::Code);
    let intent = host_read_intent(&bytes.try_into().unwrap()).unwrap();
    let (host_keys, reply) = host_finish(&intent, &[1u8; 32]);
    let host_tag = host_keys.host_confirmation();
    let (client_keys, client_tag) =
        client_finish(hs, &reply.try_into().unwrap(), &[2u8; 32]).unwrap();
    assert!(matches!(
        host_accept(host_keys, &client_tag),
        Err(TransportError::Crypto(CryptoError::Auth))
    ));
    assert!(matches!(
        client_accept(client_keys, &host_tag),
        Err(TransportError::Crypto(CryptoError::Auth))
    ));
}

#[test]
fn frame_lengths_are_checked() {
    for len in [16usize, 17, MAX_FRAME] {
        let header = (len as u32).to_le_bytes();
        assert_eq!(FrameReader::frame_len(&header).unwrap(), len);
    }
    for len in [0usize, 15, MAX_FRAME + 1, u32::MAX as usize] {
        let header = (len as u32).to_le_bytes();
        assert!(matches!(
            FrameReader::frame_len(&header),
            Err(TransportError::FrameTooLarge(n)) if n == len
        ));
    }
}

#[test]
fn a_frame_is_its_length_and_the_sealed_message() {
    let key = [4u8; 32];
    let mut writer = FrameWriter::new(&key);
    let frame = writer.send(b"hello".to_vec()).unwrap();
    let mut sealed = b"hello".to_vec();
    Sealer::new(&key).seal(&mut sealed).unwrap();
    assert_eq!(frame[..4], 21u32.to_le_bytes());
    assert_eq!(frame[4..], sealed[..]);
    // An empty message is a frame too.
    assert_eq!(writer.send(vec![]).unwrap().len(), 20);
}

#[test]
fn a_damaged_frame_is_refused() {
    let key = [4u8; 32];
    let mut writer = FrameWriter::new(&key);
    let mut reader = FrameReader::new(&key);
    let mut frame = writer.send(b"hello".to_vec()).unwrap();
    frame[8] ^= 1;
    assert!(matches!(
        reader.recv(frame[4..].to_vec()),
        Err(TransportError::Crypto(CryptoError::Decrypt))
    ));
}

#[test]
fn transport_errors_have_words() {
    assert_eq!(TransportError::Io("gone".into()).message(), "gone");
    assert_eq!(TransportError::Codec("bad".into()).message(), "bad");
    assert_eq!(
        TransportError::Crypto(CryptoError::TooLarge).message(),
        "message was too large to encode"
    );
    assert_eq!(
        TransportError::Handshake.message(),
        "peer is not CrossDesk or speaks an incompatible version"
    );
    assert_eq!(
        TransportError::Rejected.message(),
        "this device has no key here and the host is not accepting new pairings"
    );
    assert_eq!(
        TransportError::FrameTooLarge(15).message(),
        "peer sent an oversized frame (15 bytes)"
    );
}

#[test]
fn a_conversation_stays_in_step() {
    let mut writer = FrameWriter::new(&[8u8; 32]);
    let mut reader = FrameReader::new(&[8u8; 32]);
    for round in 0..5u8 {
        let body = vec![round; round as usize * 7];
        let frame = writer.send(body.clone()).unwrap();
        let header: [u8; 4] = frame[..4].try_into().unwrap();
        assert_eq!(FrameReader::frame_len(&header).unwrap(), frame.len() - 4);
        assert_eq!(reader.recv(frame[4..].to_vec()).unwrap(), body);
        assert!(writer.may_go_on() && reader.may_go_on());
    }
}

#[test]
fn a_changed_public_key_never_gets_a_channel() {
    let (hs, intro) = client_handshake(&[9u8; 16], AuthMode::Stored);
    let mut intro: [u8; 54] = intro.try_into().unwrap();
    intro[30] ^= 1;
    let intent = host_read_intent(&intro).unwrap();
    let (host_keys, reply) = host_finish(&intent, &[3u8; 32]);
    let (client_keys, tag) = client_finish(hs, &reply.try_into().unwrap(), &[3u8; 32]).unwrap();
    let host_tag = host_keys.host_confirmation();
    assert!(matches!(
        host_accept(host_keys, &tag),
        Err(TransportError::Crypto(CryptoError::Auth))
    ));
    assert!(matches!(
        client_accept(client_keys, &host_tag),
        Err(TransportError::Crypto(CryptoError::Auth))
    ));
}

#[test]
fn frames_out_of_order_are_refused() {
    let mut writer = FrameWriter::new(&[8u8; 32]);
    let first = writer.send(b"one".to_vec()).unwrap()[4..].to_vec();
    let second = writer.send(b"two".to_vec()).unwrap()[4..].to_vec();
    let refused = |r: Result<Vec<u8>, TransportError>| {
        matches!(r, Err(TransportError::Crypto(CryptoError::Decrypt)))
    };
    // Skipped ahead.
    assert!(refused(FrameReader::new(&[8u8; 32]).recv(second.clone())));
    // Replayed.
    let mut reader = FrameReader::new(&[8u8; 32]);
    assert_eq!(reader.recv(first.clone()).unwrap(), b"one");
    assert!(refused(reader.recv(first)));
    // A refused frame uses its position up.
    assert!(refused(reader.recv(second)));
}
