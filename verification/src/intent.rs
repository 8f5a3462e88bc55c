//! Exchange offers and the intents that carry them.

use vstd::prelude::*;
use crate::codec::{
    borsh_take_text, borsh_take_u32, borsh_take_u64, lemma_parse_text_encoding,
    lemma_parse_text_sound, lemma_parse_u32_encoding, lemma_parse_u32_sound,
    lemma_parse_u64_encoding, lemma_parse_u64_sound, parse_text, parse_u32, parse_u64, put_text,
    put_u32, put_u64, text_encoding, text_fits, u32_encoding, u64_encoding,
};
use crate::encoder::{
    items_fit, lemma_parse_seq_encoding, lemma_parse_seq_sound, parse_seq, read_seq,
    seq_encoding, views, write_seq, Canonical,
};
use crate::signing::{Signed, SignedView};

verus! {

/// The address of an account or of a token, in its textual form.
#[derive(Clone, Debug, PartialEq, Eq)]
pub struct Address {
    text: String,
}

impl View for Address {
    type V = Seq<char>;

    closed spec fn view(&self) -> Seq<char> {
        self.text@
    }
}

impl Address {
    /// The address with the given text.
    pub fn new(text: String) -> (address: Address)
        ensures
            address@ == text@,
    {
        Address { text }
    }

    /// The text of the address.
    pub fn as_str(&self) -> (text: &str)
        ensures
            text@ == self@,
    {
        self.text.as_str()
    }

    /// Whether two addresses have the same text.
    pub fn same(&self, other: &Address) -> (same: bool)
        ensures
            same == (self@ == other@),
    {
        self.text == other.text
    }
}

/// An amount of a token, in the token's smallest unit. Amounts cannot be
/// negative.
#[derive(Clone, Copy, Debug, PartialEq, Eq, Structural)]
pub struct Amount {
    pub value: u64,
}

impl Amount {
    /// The amount of `value` units.
    pub fn new(value: u64) -> (amount: Amount)
        ensures
            amount.value == value,
    {
        Amount { value }
    }
}

/// An exact decimal number: `mantissa / 10^scale`. No binary fraction is
/// involved, so a rate means the same on every machine. Rates cannot be
/// negative. Two decimals are the same when mantissa and scale are.
#[derive(Clone, Copy, Debug, PartialEq, Eq, Structural)]
pub struct Decimal {
    pub mantissa: u64,
    pub scale: u32,
}

impl Decimal {
    /// The decimal `mantissa / 10^scale`.
    pub fn new(mantissa: u64, scale: u32) -> (decimal: Decimal)
        ensures
            decimal.mantissa == mantissa,
            decimal.scale == scale,
    {
        Decimal { mantissa, scale }
    }
}

/// The encoding of a decimal: the mantissa, then the scale.
pub open spec fn decimal_encoding(d: Decimal) -> Seq<u8> {
    u64_encoding(d.mantissa) + u32_encoding(d.scale)
}

/// Reads a decimal from the front of `s`, giving it and what follows.
pub open spec fn parse_decimal(s: Seq<u8>) -> Option<(Decimal, Seq<u8>)> {
    match parse_u64(s) {
        Some((mantissa, s1)) => match parse_u32(s1) {
            Some((scale, s2)) => Some((Decimal { mantissa, scale }, s2)),
            None => None,
        },
        None => None,
    }
}

/// A written decimal is read back, and the rest is left untouched.
pub proof fn lemma_parse_decimal_encoding(d: Decimal, rest: Seq<u8>)
    ensures
        parse_decimal(decimal_encoding(d) + rest) == Some((d, rest)),
{
    let s1 = u32_encoding(d.scale) + rest;
    assert(decimal_encoding(d) + rest =~= u64_encoding(d.mantissa) + s1);
    lemma_parse_u64_encoding(d.mantissa, s1);
    lemma_parse_u32_encoding(d.scale, rest);
}

/// Whatever reads as a decimal is that decimal's encoding followed by the
/// rest.
pub proof fn lemma_parse_decimal_sound(s: Seq<u8>)
    ensures
        parse_decimal(s) matches Some((d, rest)) ==> s == decimal_encoding(d) + rest,
{
    lemma_parse_u64_sound(s);
    if let Some((mantissa, s1)) = parse_u64(s) {
        lemma_parse_u32_sound(s1);
        if let Some((scale, s2)) = parse_u32(s1) {
            assert(s =~= decimal_encoding(Decimal { mantissa, scale }) + s2);
        }
    }
}

/// One side of a trade: what the source is willing to sell, at most how
/// much and at which rate at least, and what it wants to buy.
#[derive(Clone, Debug, PartialEq, Eq)]
pub struct Exchange {
    /// The account that makes the offer.
    pub addr: Address,
    /// The token that is sold.
    pub token_sell: Address,
    /// The largest amount that may be sold.
    pub max_sell: Amount,
    /// The lowest acceptable rate.
    pub rate_min: Decimal,
    /// The token that is bought.
    pub token_buy: Address,
    /// The smallest amount that must be bought.
    pub min_buy: Amount,
}

/// An offer as plain values.
pub struct ExchangeView {
    pub addr: Seq<char>,
    pub token_sell: Seq<char>,
    pub max_sell: Amount,
    pub rate_min: Decimal,
    pub token_buy: Seq<char>,
    pub min_buy: Amount,
}

impl View for Exchange {
    type V = ExchangeView;

    open spec fn view(&self) -> ExchangeView {
        ExchangeView {
            addr: self.addr@,
            token_sell: self.token_sell@,
            max_sell: self.max_sell,
            rate_min: self.rate_min,
            token_buy: self.token_buy@,
            min_buy: self.min_buy,
        }
    }
}

impl Canonical for Exchange {
    open spec fn fits(v: ExchangeView) -> bool {
        text_fits(v.addr) && text_fits(v.token_sell) && text_fits(v.token_buy)
    }

    open spec fn encoding(v: ExchangeView) -> Seq<u8> {
        text_encoding(v.addr) + text_encoding(v.token_sell) + u64_encoding(v.max_sell.value)
            + decimal_encoding(v.rate_min) + text_encoding(v.token_buy) + u64_encoding(
            v.min_buy.value,
        )
    }

    open spec fn parse(s: Seq<u8>) -> Option<(ExchangeView, Seq<u8>)> {
        match parse_text(s) {
            Some((addr, s1)) => match parse_text(s1) {
                Some((token_sell, s2)) => match parse_u64(s2) {
                    Some((max_sell, s3)) => match parse_decimal(s3) {
                        Some((rate_min, s4)) => match parse_text(s4) {
                            Some((token_buy, s5)) => match parse_u64(s5) {
                                Some((min_buy, s6)) => Some(
                                    (
                                        ExchangeView {
                                            addr,
                                            token_sell,
                                            max_sell: Amount { value: max_sell },
                                            rate_min,
                                            token_buy,
                                            min_buy: Amount { value: min_buy },
                                        },
                                        s6,
                                    ),
                                ),
                                None => None,
                            },
                            None => None,
                        },
                        None => None,
                    },
                    None => None,
                },
                None => None,
            },
            None => None,
        }
    }

    proof fn lemma_parse_encoding(v: ExchangeView, rest: Seq<u8>) {
        let s5 = u64_encoding(v.min_buy.value) + rest;
        let s4 = text_encoding(v.token_buy) + s5;
        let s3 = decimal_encoding(v.rate_min) + s4;
        let s2 = u64_encoding(v.max_sell.value) + s3;
        let s1 = text_encoding(v.token_sell) + s2;
        assert(Self::encoding(v) + rest =~= text_encoding(v.addr) + s1);
        lemma_parse_text_encoding(v.addr, s1);
        lemma_parse_text_encoding(v.token_sell, s2);
        lemma_parse_u64_encoding(v.max_sell.value, s3);
        lemma_parse_decimal_encoding(v.rate_min, s4);
        lemma_parse_text_encoding(v.token_buy, s5);
        lemma_parse_u64_encoding(v.min_buy.value, rest);
    }

    proof fn lemma_parse_sound(s: Seq<u8>) {
        if let Some((v, rest)) = Self::parse(s) {
            lemma_parse_text_sound(s);
            let (_, s1) = parse_text(s).unwrap();
            lemma_parse_text_sound(s1);
            let (_, s2) = parse_text(s1).unwrap();
            lemma_parse_u64_sound(s2);
            let (_, s3) = parse_u64(s2).unwrap();
            lemma_parse_decimal_sound(s3);
            let (_, s4) = parse_decimal(s3).unwrap();
            lemma_parse_text_sound(s4);
            let (_, s5) = parse_text(s4).unwrap();
            lemma_parse_u64_sound(s5);
            // Each step prepends one field to what was read after it.
            let e5 = u64_encoding(v.min_buy.value);
            let e4 = text_encoding(v.token_buy) + e5;
            let e3 = decimal_encoding(v.rate_min) + e4;
            let e2 = u64_encoding(v.max_sell.value) + e3;
            let e1 = text_encoding(v.token_sell) + e2;
            let e0 = text_encoding(v.addr) + e1;
            assert(s5 == e5 + rest);
            assert(s4 =~= e4 + rest);
            assert(s3 =~= e3 + rest);
            assert(s2 =~= e2 + rest);
            assert(s1 =~= e1 + rest);
            assert(s =~= e0 + rest);
            assert(Self::encoding(v) =~= e0);
        }
    }

    fn write(&self, out: &mut Vec<u8>) -> (ok: bool) {
        if !put_text(out, self.addr.as_str()) {
            return false;
        }
        if !put_text(out, self.token_sell.as_str()) {
            return false;
        }
        put_u64(out, self.max_sell.value);
        put_u64(out, self.rate_min.mantissa);
        put_u32(out, self.rate_min.scale);
        if !put_text(out, self.token_buy.as_str()) {
            return false;
        }
        put_u64(out, self.min_buy.value);
        assert(out@ =~= old(out)@ + Self::encoding(self@));
        true
    }

    fn read<'a>(buf: &'a [u8]) -> (r: Option<(Self, &'a [u8])>) {
        let (addr, s1) = match borsh_take_text(buf) {
            Some(found) => found,
            None => return None,
        };
        let (token_sell, s2) = match borsh_take_text(s1) {
            Some(found) => found,
            None => return None,
        };
        let (max_sell, s3) = match borsh_take_u64(s2) {
            Some(found) => found,
            None => return None,
        };
        let (mantissa, s3a) = match borsh_take_u64(s3) {
            Some(found) => found,
            None => return None,
        };
        let (scale, s4) = match borsh_take_u32(s3a) {
            Some(found) => found,
            None => return None,
        };
        let (token_buy, s5) = match borsh_take_text(s4) {
            Some(found) => found,
            None => return None,
        };
        let (min_buy, s6) = match borsh_take_u64(s5) {
            Some(found) => found,
            None => return None,
        };
        let exchange = Exchange {
            addr: Address::new(addr),
            token_sell: Address::new(token_sell),
            max_sell: Amount::new(max_sell),
            rate_min: Decimal::new(mantissa, scale),
            token_buy: Address::new(token_buy),
            min_buy: Amount::new(min_buy),
        };
        Some((exchange, s6))
    }
}

/// An intent to trade fungible tokens: signed offers, in a fixed order. The
/// order is part of the value: it decides the encoding, and with it the
/// bytes that the intent's own signature covers.
#[derive(Clone, Debug, PartialEq, Eq)]
pub struct FungibleTokenIntent {
    /// The offers, each signed by its source.
    pub exchange: Vec<Signed<Exchange>>,
}

impl View for FungibleTokenIntent {
    type V = Seq<SignedView<ExchangeView>>;

    open spec fn view(&self) -> Seq<SignedView<ExchangeView>> {
        views(self.exchange@)
    }
}

impl FungibleTokenIntent {
    /// The intent that holds the given offers in the given order.
    pub fn new(exchange: Vec<Signed<Exchange>>) -> (intent: FungibleTokenIntent)
        ensures
            intent@ == views(exchange@),
    {
        FungibleTokenIntent { exchange }
    }

    /// The intent that holds one offer.
    pub fn single(offer: Signed<Exchange>) -> (intent: FungibleTokenIntent)
        ensures
            intent@ == seq![offer@],
    {
        let mut exchange: Vec<Signed<Exchange>> = Vec::new();
        exchange.push(offer);
        assert(views(exchange@) =~= seq![offer@]);
        FungibleTokenIntent { exchange }
    }
}

impl Canonical for FungibleTokenIntent {
    open spec fn fits(v: Seq<SignedView<ExchangeView>>) -> bool {
        items_fit::<Signed<Exchange>>(v)
    }

    open spec fn encoding(v: Seq<SignedView<ExchangeView>>) -> Seq<u8> {
        seq_encoding::<Signed<Exchange>>(v)
    }

    open spec fn parse(s: Seq<u8>) -> Option<(Seq<SignedView<ExchangeView>>, Seq<u8>)> {
        parse_seq::<Signed<Exchange>>(s)
    }

    proof fn lemma_parse_encoding(v: Seq<SignedView<ExchangeView>>, rest: Seq<u8>) {
        lemma_parse_seq_encoding::<Signed<Exchange>>(v, rest);
    }

    proof fn lemma_parse_sound(s: Seq<u8>) {
        lemma_parse_seq_sound::<Signed<Exchange>>(s);
    }

    fn write(&self, out: &mut Vec<u8>) -> (ok: bool) {
        write_seq(&self.exchange, out)
    }

    fn read<'a>(buf: &'a [u8]) -> (r: Option<(Self, &'a [u8])>) {
        match read_seq::<Signed<Exchange>>(buf) {
            Some((exchange, tail)) => Some((FungibleTokenIntent { exchange }, tail)),
            None => None,
        }
    }
}

} // verus!
