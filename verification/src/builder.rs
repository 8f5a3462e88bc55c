//! The intent builder: from order parameters to a signed intent.

use vstd::prelude::*;
use crate::encoder::Canonical;
use crate::error::Error;
use crate::intent::{Address, Amount, Decimal, Exchange, ExchangeView, FungibleTokenIntent};
use crate::keystore::KeyStore;
use crate::signing::{authentic, signed_by, Signed, SignedView};

verus! {

/// The signed intent that a key makes for one offer: the offer is signed,
/// put alone into an intent, and the intent is signed with the same key.
pub open spec fn crafted(secret: Seq<u8>, offer: ExchangeView) -> SignedView<
    Seq<SignedView<ExchangeView>>,
> {
    signed_by::<FungibleTokenIntent>(secret, seq![signed_by::<Exchange>(secret, offer)])
}

/// Builds and signs an intent with a single offer.
///
/// The offer holds the parameters as given; nothing is checked about
/// whether it makes economic sense. It is signed with the key pair that the
/// store holds for `addr`, and so is the intent around it: both signatures
/// are authentic, and the result can be encoded. It fails with `KeyNotFound`
/// when the store has no key for `addr`, and otherwise with `MalformedData`
/// when an address is too long to be encoded.
pub fn craft(
    store: &KeyStore,
    addr: Address,
    token_sell: Address,
    max_sell: Amount,
    min_rate: Decimal,
    token_buy: Address,
    min_buy: Amount,
) -> (r: Result<Signed<FungibleTokenIntent>, Error>)
    ensures
        ({
            let offer = ExchangeView {
                addr: addr@,
                token_sell: token_sell@,
                max_sell,
                rate_min: min_rate,
                token_buy: token_buy@,
                min_buy,
            };
            match r {
                Ok(signed) => {
                    &&& store@.contains_key(addr@)
                    &&& Exchange::fits(offer)
                    &&& signed@ == crafted(store@[addr@], offer)
                    &&& authentic::<FungibleTokenIntent>(signed@)
                    &&& authentic::<Exchange>(signed@.payload[0])
                    &&& Signed::<FungibleTokenIntent>::fits(signed@)
                },
                Err(e) => if store@.contains_key(addr@) {
                    !Exchange::fits(offer) && e == Error::MalformedData
                } else {
                    e == Error::KeyNotFound
                },
            }
        }),
{
    let keypair = match store.key_of(&addr) {
        Ok(keypair) => keypair,
        Err(e) => return Err(e),
    };
    let exchange = Exchange { addr, token_sell, max_sell, rate_min: min_rate, token_buy, min_buy };
    let offer = match Signed::new(&keypair, exchange) {
        Ok(offer) => offer,
        Err(e) => return Err(e),
    };
    let intent = FungibleTokenIntent::single(offer);
    Signed::new(&keypair, intent)
}

} // verus!
