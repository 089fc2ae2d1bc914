use crossdesk::crypto::{
    bytes_given, normalise, pairing_code_from, pairing_code_given, random_bytes,
    random_pairing_code, secret_from_code, CryptoError, Handshake, RandomError, Sealer,
    SessionKeys,
};

#[test]
fn spacing_and_case_of_a_code_do_not_matter() {
    assert_eq!(secret_from_code("1234 56"), secret_from_code("123456"));
    assert_eq!(secret_from_code(" 12-34-56\n"), secret_from_code("123456"));
    assert_eq!(secret_from_code("ab cd"), secret_from_code("AB-CD"));
    assert_ne!(secret_from_code("123456"), secret_from_code("123457"));
}

#[test]
fn a_code_is_normalised_before_it_is_used() {
    assert_eq!(normalise("ab-1 2\u{a0}c"), "AB12C");
    assert_eq!(normalise("straße"), "STRASSE");
    assert_eq!(normalise(" - \t"), "");
    assert_eq!(secret_from_code("x1"), blake3::derive_key("crossdesk.v1.code", b"X1"));
}

#[test]
fn random_bytes_are_not_repeated() {
    let a: [u8; 32] = random_bytes().unwrap();
    let b: [u8; 32] = random_bytes().unwrap();
    assert_ne!(a, b);
    assert_ne!(a, [0u8; 32]);
}

#[test]
fn pairing_codes_are_six_digits() {
    assert_eq!(pairing_code_from(&7u64.to_le_bytes()), "000007");
    assert_eq!(pairing_code_from(&1_234_567u64.to_le_bytes()), "234567");
    assert_eq!(
        pairing_code_from(&u64::MAX.to_le_bytes()),
        format!("{:06}", u64::MAX % 1_000_000)
    );
    let code = random_pairing_code().unwrap();
    assert_eq!(code.len(), 6);
    assert!(code.chars().all(|c| c.is_ascii_digit()));
}

fn pair(client_auth: [u8; 32], host_auth: [u8; 32]) -> (SessionKeys, SessionKeys) {
    let client = Handshake::new();
    let host = Handshake::new();
    let (cp, hp) = (client.public, host.public);
    assert_ne!(cp, hp);
    (
        client.finish(&hp, &cp, &hp, &client_auth),
        host.finish(&cp, &cp, &hp, &host_auth),
    )
}

#[test]
fn both_sides_derive_the_same_keys() {
    let (client, host) = pair([7u8; 32], [7u8; 32]);
    assert_eq!(client.client_to_host, host.client_to_host);
    assert_eq!(client.host_to_client, host.host_to_client);
    assert_ne!(client.client_to_host, client.host_to_client);
    assert_eq!(host.verify_client(&client.client_confirmation()), Ok(()));
    assert_eq!(client.verify_host(&host.host_confirmation()), Ok(()));
    // One confirmation cannot stand in for the other.
    assert_eq!(client.verify_host(&client.client_confirmation()), Err(CryptoError::Auth));
}

#[test]
fn a_wrong_secret_fails_to_authenticate() {
    let (client, host) = pair([7u8; 32], [8u8; 32]);
    assert_eq!(
        host.verify_client(&client.client_confirmation()),
        Err(CryptoError::Auth)
    );
    assert_eq!(
        client.verify_host(&host.host_confirmation()),
        Err(CryptoError::Auth)
    );
}

#[test]
fn the_derivation_binds_keys_and_secret() {
    // The peer's side of the agreement, worked out by hand.
    let peer = x25519_dalek::EphemeralSecret::random();
    let peer_public = x25519_dalek::PublicKey::from(&peer).to_bytes();
    let client = Handshake::new();
    let client_public = client.public;
    assert_eq!(client.public_key(), client_public);
    let keys = client.finish(&peer_public, &client_public, &peer_public, &[7u8; 32]);
    let shared = peer.diffie_hellman(&x25519_dalek::PublicKey::from(client_public));
    let mut material = shared.as_bytes().to_vec();
    material.extend_from_slice(&client_public);
    material.extend_from_slice(&peer_public);
    material.extend_from_slice(&[7u8; 32]);
    let session = blake3::derive_key("crossdesk.v1.session", &material);
    let to_host = blake3::derive_key("crossdesk.v1.client-to-host", &session);
    let to_client = blake3::derive_key("crossdesk.v1.host-to-client", &session);
    assert_eq!(keys.directions(), (to_host, to_client));
    assert_eq!((keys.client_to_host, keys.host_to_client), (to_host, to_client));
    assert_eq!(
        keys.client_confirmation(),
        *blake3::keyed_hash(&session, b"client-confirm").as_bytes()
    );
    assert_eq!(
        keys.host_confirmation(),
        *blake3::keyed_hash(&session, b"host-confirm").as_bytes()
    );
    assert!(keys.verify_host(&keys.host_confirmation()).is_ok());
}

#[test]
fn sealed_messages_open_in_order() {
    let key = [5u8; 32];
    let (mut tx, mut rx) = (Sealer::new(&key), Sealer::new(&key));
    for n in 0..5u8 {
        let mut buf = vec![n; n as usize * 100];
        let plain = buf.clone();
        tx.seal(&mut buf).unwrap();
        assert_eq!(buf.len(), plain.len() + 16);
        rx.open(&mut buf).unwrap();
        assert_eq!(buf, plain);
    }
    assert!(tx.may_go_on() && rx.may_go_on());
}

#[test]
fn sealing_hides_the_message() {
    let mut tx = Sealer::new(&[5u8; 32]);
    let mut a = vec![1u8; 64];
    let mut b = vec![1u8; 64];
    tx.seal(&mut a).unwrap();
    tx.seal(&mut b).unwrap();
    assert_ne!(a[..64], [1u8; 64]);
    // The same message twice is two different messages on the wire.
    assert_ne!(a, b);
}

#[test]
fn replayed_reordered_or_damaged_messages_are_refused() {
    let key = [6u8; 32];
    let mut tx = Sealer::new(&key);
    let mut first = b"one".to_vec();
    let mut second = b"two".to_vec();
    tx.seal(&mut first).unwrap();
    tx.seal(&mut second).unwrap();

    let mut replayed = Sealer::new(&key);
    replayed.open(&mut first.clone()).unwrap();
    assert_eq!(replayed.open(&mut first.clone()), Err(CryptoError::Decrypt));

    let mut reordered = Sealer::new(&key);
    assert_eq!(reordered.open(&mut second.clone()), Err(CryptoError::Decrypt));

    let mut damaged = first.clone();
    damaged[0] ^= 1;
    let before = damaged.clone();
    assert_eq!(Sealer::new(&key).open(&mut damaged), Err(CryptoError::Decrypt));
    assert_eq!(damaged, before);

    assert_eq!(Sealer::new(&key).open(&mut vec![0u8; 15]), Err(CryptoError::Decrypt));
}

#[test]
fn crypto_errors_have_words() {
    assert_eq!(
        CryptoError::Auth.message(),
        "peer failed authentication (wrong pairing code?)"
    );
    assert_eq!(
        CryptoError::Decrypt.message(),
        "message could not be decrypted; connection is out of sync"
    );
    assert_eq!(CryptoError::TooLarge.message(), "message was too large to encode");
}

#[test]
fn a_system_without_randomness_is_an_error() {
    assert_eq!(bytes_given(Ok([1, 2, 3])), Ok([1, 2, 3]));
    assert_eq!(bytes_given::<3>(Err(getrandom::Error::UNSUPPORTED)), Err(RandomError));
    assert_eq!(random_bytes::<0>(), Ok([]));
    let raw = 1_000_042u64.to_le_bytes();
    assert_eq!(pairing_code_given(Ok(raw)), Ok("000042".to_string()));
    assert_eq!(pairing_code_given(Err(RandomError)), Err(RandomError));
}
