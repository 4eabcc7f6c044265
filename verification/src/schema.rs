//! The state that the anchoring service keeps on the host blockchain.

use vstd::prelude::*;
use crate::binary_map::{bytes_lt, precedes_at, BinaryMap};
use crate::config::{Config, Height};
use crate::payload::{parse_payload_script, Payload};
use crate::transaction::{hash_eq, transaction_id, Transaction};

verus! {

/// The key under which the signature of a validator is kept: its index in
/// the committee, the high byte first, so that the keys come in the order
/// of the indices.
pub open spec fn validator_key(validator: u16) -> Seq<u8> {
    seq![(validator / 256) as u8, (validator % 256) as u8]
}

/// The keys of two validators come in the order of their indices.
pub proof fn lemma_validator_key_order(a: u16, b: u16)
    ensures
        a < b <==> bytes_lt(validator_key(a), validator_key(b)),
        a == b <==> validator_key(a) == validator_key(b),
{
    let ka = validator_key(a);
    let kb = validator_key(b);
    if a < b {
        if a / 256 < b / 256 {
            assert(precedes_at(ka, kb, 0));
        } else {
            assert(precedes_at(ka, kb, 1));
        }
    }
    if bytes_lt(ka, kb) {
        let k = choose|k: int| precedes_at(ka, kb, k);
        assert(k == 0 || k == 1);
    }
    if ka == kb {
        assert(ka[0] == kb[0] && ka[1] == kb[1]);
    }
}

/// Writes the key of a validator.
pub fn validator_key_bytes(validator: u16) -> (key: Vec<u8>)
    ensures
        key@ == validator_key(validator),
{
    let mut key: Vec<u8> = Vec::new();
    key.push((validator / 256) as u8);
    key.push((validator % 256) as u8);
    assert(key@ =~= validator_key(validator));
    key
}

/// The signatures collected for one input of one transaction, by validator.
#[derive(Debug)]
pub struct InputSignatures {
    pub txid: [u8; 32],
    pub input: u32,
    pub signatures: BinaryMap,
}

/// The first entry from position `from` on that belongs to the input.
pub open spec fn find_entry(
    store: Seq<InputSignatures>,
    txid: Seq<u8>,
    input: u32,
    from: int,
) -> Option<int>
    decreases store.len() - from,
{
    if from < 0 || from >= store.len() {
        None
    } else if store[from].txid@ == txid && store[from].input == input {
        Some(from)
    } else {
        find_entry(store, txid, input, from + 1)
    }
}

/// What is found is an entry of the input, and the first one.
pub proof fn lemma_find_entry(store: Seq<InputSignatures>, txid: Seq<u8>, input: u32, from: int)
    requires
        0 <= from,
    ensures
        find_entry(store, txid, input, from) matches Some(i) ==> from <= i < store.len()
            && store[i].txid@ == txid && store[i].input == input,
    decreases store.len() - from,
{
    if from < store.len() && !(store[from].txid@ == txid && store[from].input == input) {
        lemma_find_entry(store, txid, input, from + 1);
    }
}

/// Two stores whose entries belong to the same inputs, place by place,
/// find the same.
pub proof fn lemma_find_entry_same_keys(
    a: Seq<InputSignatures>,
    b: Seq<InputSignatures>,
    txid: Seq<u8>,
    input: u32,
    from: int,
)
    requires
        0 <= from,
        a.len() == b.len(),
        forall|i: int| 0 <= i < a.len() ==> a[i].txid@ == b[i].txid@ && a[i].input == b[i].input,
    ensures
        find_entry(a, txid, input, from) == find_entry(b, txid, input, from),
    decreases a.len() - from,
{
    if from < a.len() && !(a[from].txid@ == txid && a[from].input == input) {
        lemma_find_entry_same_keys(a, b, txid, input, from + 1);
    }
}

/// A new entry at the end is found where nothing was found before.
pub proof fn lemma_find_entry_push(
    store: Seq<InputSignatures>,
    entry: InputSignatures,
    txid: Seq<u8>,
    input: u32,
    from: int,
)
    requires
        0 <= from <= store.len(),
    ensures
        find_entry(store.push(entry), txid, input, from) == (match find_entry(
            store,
            txid,
            input,
            from,
        ) {
            Some(i) => Some(i),
            None => if entry.txid@ == txid && entry.input == input {
                Some(store.len() as int)
            } else {
                None
            },
        }),
    decreases store.len() - from,
{
    let pushed = store.push(entry);
    if from < store.len() {
        assert(pushed[from] == store[from]);
        if !(store[from].txid@ == txid && store[from].input == input) {
            lemma_find_entry_push(store, entry, txid, input, from + 1);
        }
    } else {
        assert(pushed[from] == entry);
        assert(find_entry(pushed, txid, input, from + 1) is None);
    }
}

/// The state of the anchoring service.
#[derive(Debug)]
pub struct BtcAnchoringSchema {
    /// The configuration in force.
    pub actual_config: Option<Config>,
    /// The configuration that waits for the anchoring chain to move to its
    /// address.
    pub following_config: Option<Config>,
    /// The finalized anchoring transactions, in their order.
    pub anchoring_txs_chain: Vec<Transaction>,
    /// The signatures collected so far, by transaction and input.
    pub transaction_signatures: Vec<InputSignatures>,
    /// A funding transaction that no anchoring transaction has spent yet.
    pub unspent_funding_transaction: Option<Transaction>,
    /// The identifiers of the funding transactions that were spent.
    pub spent_funding_transactions: Vec<[u8; 32]>,
    /// The hashes of the blocks of the host blockchain, by height.
    pub anchored_blocks: Vec<crate::crypto::Hash>,
}

impl BtcAnchoringSchema {
    /// The signatures collected for an input, by the key of the validator.
    pub open spec fn signatures_of(&self, txid: Seq<u8>, input: u32) -> Map<Seq<u8>, Seq<u8>> {
        match find_entry(self.transaction_signatures@, txid, input, 0) {
            Some(i) => self.transaction_signatures@[i].signatures@,
            None => Map::empty(),
        }
    }

    /// The signatures collected for an input with the keys of their
    /// validators, in the order of the keys.
    pub open spec fn signature_pairs(&self, txid: Seq<u8>, input: u32) -> Seq<
        crate::binary_map::Pair,
    > {
        match find_entry(self.transaction_signatures@, txid, input, 0) {
            Some(i) => self.transaction_signatures@[i].signatures.pairs(),
            None => Seq::empty(),
        }
    }

    /// The number of signatures collected for an input.
    pub open spec fn signature_count(&self, txid: Seq<u8>, input: u32) -> nat {
        self.signature_pairs(txid, input).len()
    }

    /// Whether a validator has signed an input.
    pub open spec fn has_signed(&self, txid: Seq<u8>, input: u32, validator: u16) -> bool {
        self.signatures_of(txid, input).contains_key(validator_key(validator))
    }

    /// Whether the funding transaction with this identifier was spent.
    pub open spec fn is_spent(&self, txid: Seq<u8>) -> bool {
        exists|i: int|
            0 <= i < self.spent_funding_transactions@.len()
                && self.spent_funding_transactions@[i]@ == txid
    }

    /// Whether the transaction with this identifier is in the anchoring chain.
    pub open spec fn in_chain(&self, txid: Seq<u8>) -> bool {
        exists|i: int|
            0 <= i < self.anchoring_txs_chain@.len() && transaction_id(
                self.anchoring_txs_chain@[i]@,
            ) == txid
    }

    /// The state before the service is initialized: nothing is set.
    pub fn new() -> (schema: BtcAnchoringSchema)
        ensures
            schema.actual_config is None,
            schema.following_config is None,
            schema.anchoring_txs_chain@.len() == 0,
            schema.transaction_signatures@.len() == 0,
            schema.unspent_funding_transaction is None,
            schema.spent_funding_transactions@.len() == 0,
            schema.anchored_blocks@.len() == 0,
    {
        BtcAnchoringSchema {
            actual_config: None,
            following_config: None,
            anchoring_txs_chain: Vec::new(),
            transaction_signatures: Vec::new(),
            unspent_funding_transaction: None,
            spent_funding_transactions: Vec::new(),
            anchored_blocks: Vec::new(),
        }
    }

    /// The configuration in force.
    pub fn actual_configuration(&self) -> (config: &Config)
        requires
            self.actual_config is Some,
        ensures
            Some(*config) == self.actual_config,
    {
        match &self.actual_config {
            Some(config) => config,
            None => vstd::pervasive::unreached(),
        }
    }

    /// The configuration that waits, if there is one.
    pub fn following_configuration(&self) -> (config: Option<&Config>)
        ensures
            config is Some <==> self.following_config is Some,
            config matches Some(c) ==> Some(*c) == self.following_config,
    {
        match &self.following_config {
            Some(config) => Some(config),
            None => None,
        }
    }

    /// The payload of the latest anchoring transaction: what its last
    /// output carries.
    pub open spec fn spec_latest_payload(&self) -> Option<crate::payload::PayloadView> {
        if self.anchoring_txs_chain@.len() == 0 {
            None
        } else {
            let tx = self.anchoring_txs_chain@.last()@;
            if tx.output.len() == 0 {
                None
            } else {
                parse_payload_script(tx.output.last().script_pubkey)
            }
        }
    }

    /// The height that the latest anchoring transaction anchors.
    pub fn latest_anchored_height(&self) -> (height: Option<Height>)
        ensures
            height is Some <==> self.spec_latest_payload() is Some,
            height matches Some(h) ==> self.spec_latest_payload() matches Some(p)
                && p.block_height == h.0,
    {
        let count = self.anchoring_txs_chain.len();
        if count == 0 {
            return None;
        }
        let tx = &self.anchoring_txs_chain[count - 1];
        let outputs = tx.output.len();
        if outputs == 0 {
            return None;
        }
        assert(tx@.output.last() == tx.output@[outputs - 1]@);
        match Payload::from_script(&tx.output[outputs - 1].script_pubkey) {
            Some(payload) => Some(payload.block_height),
            None => None,
        }
    }

    /// The position of the entry of an input among the signatures.
    fn entry_position(&self, txid: &[u8; 32], input: u32) -> (at: Option<usize>)
        ensures
            at matches Some(n) ==> n < self.transaction_signatures@.len() && find_entry(
                self.transaction_signatures@,
                txid@,
                input,
                0,
            ) == Some(n as int),
            at is None ==> find_entry(self.transaction_signatures@, txid@, input, 0) is None,
    {
        let mut n: usize = 0;
        while n < self.transaction_signatures.len()
            invariant
                n <= self.transaction_signatures@.len(),
                find_entry(self.transaction_signatures@, txid@, input, 0) == find_entry(
                    self.transaction_signatures@,
                    txid@,
                    input,
                    n as int,
                ),
            decreases self.transaction_signatures.len() - n,
        {
            if self.transaction_signatures[n].input == input && hash_eq(
                &self.transaction_signatures[n].txid,
                txid,
            ) {
                return Some(n);
            }
            n = n + 1;
        }
        None
    }

    /// The signatures collected for an input.
    pub fn input_signatures(&self, txid: &[u8; 32], input: u32) -> (signatures: BinaryMap)
        ensures
            signatures@ == self.signatures_of(txid@, input),
            signatures.pairs() == self.signature_pairs(txid@, input),
    {
        match self.entry_position(txid, input) {
            Some(i) => self.transaction_signatures[i].signatures.clone(),
            None => BinaryMap::new(),
        }
    }

    /// Records the signature of a validator for an input, unless the
    /// validator has signed that input before. Says whether it recorded.
    pub fn add_signature(
        &mut self,
        txid: &[u8; 32],
        input: u32,
        validator: u16,
        signature: Vec<u8>,
    ) -> (added: bool)
        ensures
            added == !old(self).has_signed(txid@, input, validator),
            !added ==> *final(self) == *old(self),
            added ==> {
                &&& final(self).signatures_of(txid@, input) == old(self).signatures_of(
                    txid@,
                    input,
                ).insert(validator_key(validator), signature@)
                &&& final(self).signature_count(txid@, input) == old(self).signature_count(
                    txid@,
                    input,
                ) + 1
                &&& forall|other: Seq<u8>, i: u32|
                    #![trigger final(self).signatures_of(other, i)]
                    other != txid@ || i != input ==> final(self).signatures_of(other, i) == old(
                        self).signatures_of(other, i)
                &&& forall|other: Seq<u8>, i: u32|
                    #![trigger final(self).signature_pairs(other, i)]
                    other != txid@ || i != input ==> final(self).signature_pairs(other, i)
                        == old(self).signature_pairs(other, i)
                &&& final(self).actual_config == old(self).actual_config
                &&& final(self).following_config == old(self).following_config
                &&& final(self).anchoring_txs_chain == old(self).anchoring_txs_chain
                &&& final(self).unspent_funding_transaction == old(self).unspent_funding_transaction
                &&& final(self).spent_funding_transactions == old(self).spent_funding_transactions
                &&& final(self).anchored_blocks == old(self).anchored_blocks
            },
    {
        let key = validator_key_bytes(validator);
        let ghost store = self.transaction_signatures@;
        proof {
            lemma_find_entry(store, txid@, input, 0);
        }
        match self.entry_position(txid, input) {
            Some(i) => {
                if self.transaction_signatures[i].signatures.contains_key(&key) {
                    return false;
                }
                let mut signatures = self.transaction_signatures[i].signatures.clone();
                signatures.insert(key, signature);
                self.transaction_signatures.set(
                    i,
                    InputSignatures { txid: *txid, input, signatures },
                );
                proof {
                    let after = self.transaction_signatures@;
                    assert forall|other: Seq<u8>, k: u32| find_entry(after, other, k, 0)
                        == find_entry(store, other, k, 0) by {
                        lemma_find_entry_same_keys(after, store, other, k, 0);
                    }
                    assert forall|other: Seq<u8>, k: u32|
                        other != txid@ || k != input implies final(self).signatures_of(other, k)
                        == old(self).signatures_of(other, k) && final(self).signature_pairs(
                        other,
                        k,
                    ) == old(self).signature_pairs(other, k) by {
                        lemma_find_entry(store, other, k, 0);
                    }
                }
                true
            },
            None => {
                let mut signatures = BinaryMap::new();
                signatures.insert(key, signature);
                let entry = InputSignatures { txid: *txid, input, signatures };
                self.transaction_signatures.push(entry);
                proof {
                    let after = self.transaction_signatures@;
                    assert(after == store.push(entry));
                    assert forall|other: Seq<u8>, k: u32| find_entry(after, other, k, 0) == (
                    match find_entry(store, other, k, 0) {
                        Some(i) => Some(i),
                        None => if entry.txid@ == other && entry.input == k {
                            Some(store.len() as int)
                        } else {
                            None
                        },
                    }) by {
                        lemma_find_entry_push(store, entry, other, k, 0);
                    }
                    assert forall|other: Seq<u8>, k: u32|
                        other != txid@ || k != input implies final(self).signatures_of(other, k)
                        == old(self).signatures_of(other, k) && final(self).signature_pairs(
                        other,
                        k,
                    ) == old(self).signature_pairs(other, k) by {
                        lemma_find_entry(store, other, k, 0);
                    }
                }
                true
            },
        }
    }

    /// Whether the funding transaction with this identifier was spent.
    pub fn is_spent_funding(&self, txid: &[u8; 32]) -> (spent: bool)
        ensures
            spent == self.is_spent(txid@),
    {
        let mut n: usize = 0;
        while n < self.spent_funding_transactions.len()
            invariant
                n <= self.spent_funding_transactions@.len(),
                forall|j: int| 0 <= j < n ==> self.spent_funding_transactions@[j]@ != txid@,
            decreases self.spent_funding_transactions.len() - n,
        {
            if hash_eq(&self.spent_funding_transactions[n], txid) {
                return true;
            }
            n = n + 1;
        }
        false
    }
}

/// Two states with the same list of spent funding transactions have the
/// same transactions spent.
pub proof fn lemma_same_spent(a: &BtcAnchoringSchema, b: &BtcAnchoringSchema, id: Seq<u8>)
    requires
        a.spent_funding_transactions == b.spent_funding_transactions,
    ensures
        a.is_spent(id) == b.is_spent(id),
{
    if a.is_spent(id) {
        let i = choose|i: int|
            0 <= i < a.spent_funding_transactions@.len() && a.spent_funding_transactions@[i]@
                == id;
        assert(b.spent_funding_transactions@[i]@ == id);
    }
    if b.is_spent(id) {
        let i = choose|i: int|
            0 <= i < b.spent_funding_transactions@.len() && b.spent_funding_transactions@[i]@
                == id;
        assert(a.spent_funding_transactions@[i]@ == id);
    }
}

} // verus!
