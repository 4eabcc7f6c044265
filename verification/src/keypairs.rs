//! The Bitcoin keys that a validator holds, and their flat form: a list of
//! key pairs, as a configuration file holds it.

use vstd::prelude::*;
use crate::binary_map::{
    collect_pairs, entry_pairs, lemma_collect_sorted, lemma_sorted_lookup, pairs_to_map, sorted,
    BinaryMap, Pair,
};
use crate::btc::{public_key_is_valid, PublicKey};
use crate::bytes::{array_to_vec, to_array};
use crate::sync::BitcoinKeypair;

verus! {

/// The secret keys of a validator, by the public key that each belongs to.
#[derive(Debug)]
pub struct Keys {
    map: BinaryMap,
}

impl View for Keys {
    type V = Map<Seq<u8>, Seq<u8>>;

    closed spec fn view(&self) -> Map<Seq<u8>, Seq<u8>> {
        self.map@
    }
}

/// The public and the secret key of each pair, as byte strings.
pub open spec fn keypair_pairs(keypairs: Seq<BitcoinKeypair>) -> Seq<Pair> {
    Seq::new(keypairs.len(), |i: int| (keypairs[i].public_key@, keypairs[i].private_key@))
}

impl Keys {
    #[verifier::type_invariant]
    spec fn well_formed(self) -> bool {
        forall|key: Seq<u8>| #[trigger]
            self.map@.contains_key(key) ==> public_key_is_valid(key) && self.map@[key].len() == 32
    }

    /// No keys.
    pub fn new() -> (keys: Keys)
        ensures
            keys@ == Map::<Seq<u8>, Seq<u8>>::empty(),
    {
        Keys { map: BinaryMap::new() }
    }

    /// Adds a key pair; the secret key that the public key had before, if
    /// any, is replaced.
    pub fn insert(&mut self, keypair: BitcoinKeypair)
        ensures
            final(self)@ == old(self)@.insert(keypair.public_key@, keypair.private_key@),
    {
        proof {
            use_type_invariant(&*self);
        }
        let mut map = self.map.clone();
        let public_key = keypair.public_key.to_bytes();
        let private_key = array_to_vec(&keypair.private_key);
        map.insert(public_key, private_key);
        *self = Keys { map };
    }

    /// The secret key that belongs to a public key.
    pub fn get(&self, public_key: &PublicKey) -> (private_key: Option<[u8; 32]>)
        ensures
            private_key is Some <==> self@.contains_key(public_key@),
            private_key matches Some(key) ==> key@ == self@[public_key@],
    {
        proof {
            use_type_invariant(self);
        }
        match self.map.get(&public_key.to_bytes()) {
            Some(bytes) => Some(to_array(&bytes)),
            None => None,
        }
    }
}

/// Writes the keys as a list of key pairs, in the order of the public keys.
/// Collecting the list gives the keys back.
pub fn serialize(keys: &Keys) -> (keypairs: Vec<BitcoinKeypair>)
    ensures
        sorted(keypair_pairs(keypairs@)),
        pairs_to_map(keypair_pairs(keypairs@)) == keys@,
        collect_pairs(keypair_pairs(keypairs@)) == keys@,
{
    proof {
        use_type_invariant(keys);
    }
    let entries = keys.map.entries();
    let ghost pairs = entry_pairs(entries@);
    let mut keypairs: Vec<BitcoinKeypair> = Vec::new();
    let mut i: usize = 0;
    while i < entries.len()
        invariant
            i <= entries@.len(),
            pairs == entry_pairs(entries@),
            sorted(pairs),
            keys.map@ == pairs_to_map(pairs),
            forall|key: Seq<u8>| #[trigger]
                keys.map@.contains_key(key) ==> public_key_is_valid(key) && keys.map@[key].len()
                    == 32,
            keypairs@.len() == i,
            forall|j: int|
                0 <= j < i ==> keypairs@[j].public_key@ == pairs[j].0 && keypairs@[j].private_key@
                    == pairs[j].1,
        decreases entries.len() - i,
    {
        proof {
            lemma_sorted_lookup(pairs, i as int);
            assert(keys.map@.contains_key(pairs[i as int].0));
        }
        let public_key = match PublicKey::from_slice(crate::bytes::clone_bytes(&entries[i].key)) {
            Some(key) => key,
            None => vstd::pervasive::unreached(),
        };
        let private_key = to_array(&entries[i].value);
        keypairs.push(BitcoinKeypair { public_key, private_key });
        i = i + 1;
    }
    proof {
        assert(keypair_pairs(keypairs@) =~= pairs);
        lemma_collect_sorted(pairs);
    }
    keypairs
}

/// Collects a list of key pairs into the keys of a validator; of two pairs
/// with one public key the later one stays.
pub fn deserialize(keypairs: Vec<BitcoinKeypair>) -> (keys: Keys)
    ensures
        keys@ == collect_pairs(keypair_pairs(keypairs@)),
{
    let ghost pairs = keypair_pairs(keypairs@);
    let mut keys = Keys::new();
    let mut i: usize = 0;
    while i < keypairs.len()
        invariant
            i <= keypairs@.len(),
            pairs == keypair_pairs(keypairs@),
            keys@ == collect_pairs(pairs.take(i as int)),
        decreases keypairs.len() - i,
    {
        let keypair = BitcoinKeypair {
            public_key: keypairs[i].public_key.clone(),
            private_key: keypairs[i].private_key,
        };
        keys.insert(keypair);
        proof {
            assert(pairs.take(i + 1).drop_last() =~= pairs.take(i as int));
            assert(pairs.take(i + 1).last() == pairs[i as int]);
        }
        i = i + 1;
    }
    assert(pairs.take(keypairs@.len() as int) =~= pairs);
    keys
}

} // verus!
