use intent_client::builder::craft;
use intent_client::encoder::{decode, encode};
use intent_client::error::Error;
use intent_client::intent::{Address, Amount, Decimal, Exchange, FungibleTokenIntent};
use intent_client::keystore::KeyStore;
use intent_client::signing::{Keypair, Signed};

fn address(text: &str) -> Address {
    Address::new(text.to_string())
}

fn store_with_key_for(text: &str) -> KeyStore {
    let mut store = KeyStore::new();
    store.insert(address(text), Keypair::from_secret([9u8; 32]));
    store
}

fn craft_sample(store: &KeyStore) -> Result<Signed<FungibleTokenIntent>, Error> {
    craft(
        store,
        address("A"),
        address("XAN"),
        Amount::new(100),
        Decimal::new(5, 1),
        address("BTC"),
        Amount::new(40),
    )
}

#[test]
fn craft_scenario() {
    let signed = craft_sample(&store_with_key_for("A")).unwrap();
    let file = encode(&signed).unwrap();
    assert!(!file.is_empty());
    let read = decode::<Signed<FungibleTokenIntent>>(&file).unwrap();
    assert_eq!(read.payload().exchange.len(), 1);
    let expected = Exchange {
        addr: address("A"),
        token_sell: address("XAN"),
        max_sell: Amount::new(100),
        rate_min: Decimal::new(5, 1),
        token_buy: address("BTC"),
        min_buy: Amount::new(40),
    };
    assert_eq!(read.payload().exchange[0].payload(), &expected);
    assert!(read.verify());
    assert!(read.payload().exchange[0].verify());
    assert_eq!(read, signed);
}

#[test]
fn craft_signs_offer_and_intent_with_the_key_of_the_source() {
    let signed = craft_sample(&store_with_key_for("A")).unwrap();
    let keypair = Keypair::from_secret([9u8; 32]);
    assert_eq!(signed.signer(), keypair.public());
    assert_eq!(signed.payload().exchange[0].signer(), keypair.public());
    let offer = Signed::new(&keypair, signed.payload().exchange[0].payload().clone()).unwrap();
    let by_hand = Signed::new(&keypair, FungibleTokenIntent::single(offer)).unwrap();
    assert_eq!(signed, by_hand);
}

#[test]
fn craft_round_trips_without_drift() {
    let signed = craft_sample(&store_with_key_for("A")).unwrap();
    let bytes = encode(&signed).unwrap();
    let back = decode::<Signed<FungibleTokenIntent>>(&bytes).unwrap();
    assert_eq!(back.payload().exchange[0].payload().rate_min, Decimal::new(5, 1));
    assert_eq!(encode(&back).unwrap(), bytes);
}

#[test]
fn craft_without_key_fails_fast() {
    assert_eq!(craft_sample(&KeyStore::new()).err(), Some(Error::KeyNotFound));
    assert_eq!(craft_sample(&store_with_key_for("B")).err(), Some(Error::KeyNotFound));
}

#[test]
fn craft_does_not_judge_the_offer() {
    let signed = craft(
        &store_with_key_for("A"),
        address("A"),
        address("XAN"),
        Amount::new(0),
        Decimal::new(0, 0),
        address("XAN"),
        Amount::new(u64::MAX),
    )
    .unwrap();
    assert!(signed.verify());
    assert_eq!(signed.payload().exchange[0].payload().max_sell, Amount::new(0));
}

#[test]
fn tampered_file_does_not_verify() {
    let signed = craft_sample(&store_with_key_for("A")).unwrap();
    let mut file = encode(&signed).unwrap();
    // the first byte of the amount to sell, inside the signed offer
    let at = 4 + 5 + 7;
    assert_eq!(file[at], 100);
    file[at] = 101;
    let read = decode::<Signed<FungibleTokenIntent>>(&file).unwrap();
    assert!(!read.verify());
    assert!(!read.payload().exchange[0].verify());
}
