use ed25519_dalek::{Signer, SigningKey};
use intent_client::encoder::{decode, encode};
use intent_client::error::Error;
use intent_client::intent::{Address, Amount, Decimal, Exchange};
use intent_client::keystore::KeyStore;
use intent_client::signing::{Keypair, Signed};

const SECRET: [u8; 32] = [
    0x9d, 0x61, 0xb1, 0x9d, 0xef, 0xfd, 0x5a, 0x60, 0xba, 0x84, 0x4a, 0xf4, 0x92, 0xec, 0x2c, 0xc4,
    0x44, 0x49, 0xc5, 0x69, 0x7b, 0x32, 0x69, 0x19, 0x70, 0x3b, 0xac, 0x03, 0x1c, 0xae, 0x7f, 0x60,
];

const PUBLIC: [u8; 32] = [
    0xd7, 0x5a, 0x98, 0x01, 0x82, 0xb1, 0x0a, 0xb7, 0xd5, 0x4b, 0xfe, 0xd3, 0xc9, 0x64, 0x07, 0x3a,
    0x0e, 0xe1, 0x72, 0xf3, 0xda, 0xa6, 0x23, 0x25, 0xaf, 0x02, 0x1a, 0x68, 0xf7, 0x07, 0x51, 0x1a,
];

fn address(text: &str) -> Address {
    Address::new(text.to_string())
}

fn offer() -> Exchange {
    Exchange {
        addr: address("A"),
        token_sell: address("XAN"),
        max_sell: Amount::new(100),
        rate_min: Decimal::new(5, 1),
        token_buy: address("BTC"),
        min_buy: Amount::new(40),
    }
}

#[test]
fn keypair_derives_the_public_half() {
    let keypair = Keypair::from_secret(SECRET);
    assert_eq!(keypair.secret(), SECRET);
    assert_eq!(keypair.public(), PUBLIC);
}

#[test]
fn signing_keeps_payload_and_names_the_signer() {
    let keypair = Keypair::from_secret(SECRET);
    let signed = Signed::new(&keypair, offer()).unwrap();
    assert_eq!(signed.payload(), &offer());
    assert_eq!(signed.signer(), PUBLIC);
}

#[test]
fn signature_covers_the_canonical_encoding() {
    let keypair = Keypair::from_secret(SECRET);
    let signed = Signed::new(&keypair, offer()).unwrap();
    let expected = SigningKey::from_bytes(&SECRET).sign(&encode(&offer()).unwrap());
    assert_eq!(signed.signature(), expected.to_bytes());
}

#[test]
fn signing_twice_gives_the_same_envelope() {
    let keypair = Keypair::from_secret(SECRET);
    let first = Signed::new(&keypair, offer()).unwrap();
    let second = Signed::new(&keypair, offer()).unwrap();
    assert_eq!(first, second);
}

#[test]
fn signed_payload_verifies() {
    let signed = Signed::new(&Keypair::from_secret(SECRET), offer()).unwrap();
    assert!(signed.verify());
    let other = Signed::new(&Keypair::from_secret([1u8; 32]), offer()).unwrap();
    assert!(other.verify());
    assert_ne!(other.signature(), signed.signature());
}

#[test]
fn verify_does_not_change_the_envelope() {
    let signed = Signed::new(&Keypair::from_secret(SECRET), offer()).unwrap();
    let before = signed.clone();
    assert!(signed.verify());
    assert_eq!(signed, before);
}

#[test]
fn changed_payload_does_not_verify() {
    let signed = Signed::new(&Keypair::from_secret(SECRET), offer()).unwrap();
    let mut changed = offer();
    changed.min_buy = Amount::new(41);
    let forged = Signed::from_parts(changed, signed.signature(), signed.signer());
    assert!(!forged.verify());
}

#[test]
fn wrong_signer_does_not_verify() {
    let signed = Signed::new(&Keypair::from_secret(SECRET), offer()).unwrap();
    let other = Keypair::from_secret([1u8; 32]).public();
    let forged = Signed::from_parts(offer(), signed.signature(), other);
    assert!(!forged.verify());
}

#[test]
fn bytes_that_are_no_public_key_do_not_verify() {
    let signed = Signed::new(&Keypair::from_secret(SECRET), offer()).unwrap();
    let mut point = [0xffu8; 32];
    point[0] = 0xee;
    let forged = Signed::from_parts(offer(), signed.signature(), point);
    assert!(!forged.verify());
}

#[test]
fn flipping_any_byte_of_the_envelope_is_detected() {
    let signed = Signed::new(&Keypair::from_secret(SECRET), offer()).unwrap();
    let bytes = encode(&signed).unwrap();
    for at in 0..bytes.len() {
        let mut flipped = bytes.clone();
        flipped[at] ^= 0x01;
        match decode::<Signed<Exchange>>(&flipped) {
            Ok(envelope) => assert!(!envelope.verify(), "byte {} was flipped unnoticed", at),
            Err(e) => assert_eq!(e, Error::MalformedData),
        }
    }
}

#[test]
fn flipping_any_byte_of_the_signed_message_is_detected() {
    let key = SigningKey::from_bytes(&SECRET);
    let signed = Signed::new(&Keypair::from_secret(SECRET), offer()).unwrap();
    let message = encode(&offer()).unwrap();
    let signature = ed25519_dalek::Signature::from_bytes(&signed.signature());
    assert!(key.verifying_key().verify_strict(&message, &signature).is_ok());
    for at in 0..message.len() {
        let mut flipped = message.clone();
        flipped[at] ^= 0x80;
        assert!(key.verifying_key().verify_strict(&flipped, &signature).is_err());
    }
}

#[test]
fn from_parts_keeps_the_parts() {
    let envelope = Signed::from_parts(offer(), [3u8; 64], [4u8; 32]);
    assert_eq!(envelope.payload(), &offer());
    assert_eq!(envelope.signature(), [3u8; 64]);
    assert_eq!(envelope.signer(), [4u8; 32]);
}

#[test]
fn key_store_finds_what_was_inserted() {
    let mut store = KeyStore::new();
    store.insert(address("A"), Keypair::from_secret(SECRET));
    store.insert(address("B"), Keypair::from_secret([1u8; 32]));
    assert_eq!(store.key_of(&address("A")).unwrap().secret(), SECRET);
    assert_eq!(store.key_of(&address("B")).unwrap().secret(), [1u8; 32]);
}

#[test]
fn key_store_reports_missing_keys() {
    let mut store = KeyStore::new();
    assert_eq!(store.key_of(&address("A")).err(), Some(Error::KeyNotFound));
    store.insert(address("A"), Keypair::from_secret(SECRET));
    assert_eq!(store.key_of(&address("B")).err(), Some(Error::KeyNotFound));
    assert_eq!(store.key_of(&address("")).err(), Some(Error::KeyNotFound));
}

#[test]
fn key_store_keeps_the_latest_key_of_an_address() {
    let mut store = KeyStore::new();
    store.insert(address("A"), Keypair::from_secret(SECRET));
    store.insert(address("B"), Keypair::from_secret([2u8; 32]));
    store.insert(address("A"), Keypair::from_secret([1u8; 32]));
    assert_eq!(store.key_of(&address("A")).unwrap().secret(), [1u8; 32]);
    assert_eq!(store.key_of(&address("B")).unwrap().secret(), [2u8; 32]);
}
