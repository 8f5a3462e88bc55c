//! The key store: which key pair signs for which address.
//!
//! The store only answers lookups. It makes no keys, caches nothing and has
//! no fallback: an address without an entry is an error.

use vstd::prelude::*;
use crate::error::Error;
use crate::intent::Address;
use crate::signing::Keypair;

verus! {

struct Entry {
    address: Address,
    keypair: Keypair,
}

/// Key pairs by address. As a value it is a map from the text of an address
/// to the secret key of its pair.
pub struct KeyStore {
    entries: Vec<Entry>,
}

/// The map that a list of entries stands for: a later entry for an address
/// replaces an earlier one.
spec fn collect(entries: Seq<Entry>) -> Map<Seq<char>, Seq<u8>>
    decreases entries.len(),
{
    if entries.len() == 0 {
        Map::empty()
    } else {
        collect(entries.drop_last()).insert(entries.last().address@, entries.last().keypair@)
    }
}

/// An address that no entry names is not in the map.
proof fn lemma_collect_miss(entries: Seq<Entry>, address: Seq<char>)
    requires
        forall|j: int| 0 <= j < entries.len() ==> (#[trigger] entries[j]).address@ != address,
    ensures
        !collect(entries).contains_key(address),
    decreases entries.len(),
{
    if entries.len() > 0 {
        assert(entries.last().address@ != address);
        lemma_collect_miss(entries.drop_last(), address);
    }
}

/// The last entry that names an address decides what the map holds for it.
proof fn lemma_collect_last_wins(entries: Seq<Entry>, i: int, address: Seq<char>)
    requires
        0 <= i < entries.len(),
        entries[i].address@ == address,
        forall|j: int| i < j < entries.len() ==> (#[trigger] entries[j]).address@ != address,
    ensures
        collect(entries).contains_key(address),
        collect(entries)[address] == entries[i].keypair@,
    decreases entries.len(),
{
    if i < entries.len() - 1 {
        assert(entries.last().address@ != address);
        lemma_collect_last_wins(entries.drop_last(), i, address);
    }
}

impl View for KeyStore {
    type V = Map<Seq<char>, Seq<u8>>;

    closed spec fn view(&self) -> Map<Seq<char>, Seq<u8>> {
        collect(self.entries@)
    }
}

impl KeyStore {
    /// A store without keys.
    pub fn new() -> (store: KeyStore)
        ensures
            store@ == Map::<Seq<char>, Seq<u8>>::empty(),
    {
        KeyStore { entries: Vec::new() }
    }

    /// Records the key pair of an address, in place of any pair recorded for
    /// it before.
    pub fn insert(&mut self, address: Address, keypair: Keypair)
        ensures
            final(self)@ == old(self)@.insert(address@, keypair@),
    {
        self.entries.push(Entry { address, keypair });
        assert(self.entries@.drop_last() =~= old(self).entries@);
    }

    /// The key pair of an address, or `KeyNotFound` when the store has none
    /// for it.
    pub fn key_of(&self, address: &Address) -> (r: Result<Keypair, Error>)
        ensures
            match r {
                Ok(keypair) => self@.contains_key(address@) && keypair@ == self@[address@],
                Err(e) => !self@.contains_key(address@) && e == Error::KeyNotFound,
            },
    {
        let mut i: usize = self.entries.len();
        while i > 0
            invariant
                i <= self.entries.len(),
                forall|j: int|
                    i <= j < self.entries.len() ==> (#[trigger] self.entries@[j]).address@
                        != address@,
            decreases i,
        {
            i = i - 1;
            if self.entries[i].address.same(address) {
                proof {
                    lemma_collect_last_wins(self.entries@, i as int, address@);
                }
                return Ok(self.entries[i].keypair);
            }
        }
        proof {
            lemma_collect_miss(self.entries@, address@);
        }
        Err(Error::KeyNotFound)
    }
}

} // verus!
